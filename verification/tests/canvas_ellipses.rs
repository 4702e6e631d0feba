use fjor::canvas::{Canvas, Color, IntPoint, IntRect};

const INK: Color = Color { red: 10, green: 20, blue: 30 };
const PAINT: Color = Color { red: 200, green: 100, blue: 50 };
const WHITE: Color = Color { red: 255, green: 255, blue: 255 };

fn canvas(width: usize, height: usize, fill: bool, stroke: bool) -> Canvas {
    let mut c = Canvas::new(width, height);
    if fill {
        c.fill(PAINT);
    } else {
        c.no_fill();
    }
    if stroke {
        c.stroke(INK);
    } else {
        c.no_stroke();
    }
    c
}

fn rows(c: &Canvas) -> Vec<String> {
    let raw = c.as_raw_buffer();
    assert_eq!(raw.len(), c.width() * c.height() * 3);
    let mut out = Vec::new();
    for y in 0..c.height() {
        let mut row = String::new();
        for x in 0..c.width() {
            let i = 3 * (y * c.width() + x);
            let color = Color::rgb(raw[i], raw[i + 1], raw[i + 2]);
            row.push(if color == INK {
                'S'
            } else if color == PAINT {
                'F'
            } else if color == WHITE {
                '.'
            } else {
                '?'
            });
        }
        out.push(row);
    }
    out
}

#[test]
fn circle_of_radius_three() {
    let mut c = canvas(13, 13, true, true);
    c.draw_ellipse(&IntPoint::new(6, 6), 3, 3);
    assert_eq!(
        rows(&c),
        vec![
            ".............",
            ".............",
            ".............",
            "......S......",
            "....SFFFS....",
            "....SFFFS....",
            "...FFFFFFF...",
            "....SFFFS....",
            "....SFFFS....",
            "......S......",
            ".............",
            ".............",
            ".............",
        ]
    );
}

#[test]
fn circle_of_radius_five() {
    let mut c = canvas(13, 13, true, true);
    c.draw_ellipse(&IntPoint::new(6, 6), 5, 5);
    assert_eq!(
        rows(&c),
        vec![
            ".............",
            "......S......",
            "...SFFFFFS...",
            "..SFFFFFFFS..",
            "..SFFFFFFFS..",
            "..SFFFFFFFS..",
            ".FFFFFFFFFFF.",
            "..SFFFFFFFS..",
            "..SFFFFFFFS..",
            "..SFFFFFFFS..",
            "...SFFFFFS...",
            "......S......",
            ".............",
        ]
    );
}

#[test]
fn circle_with_stroke_only_leaves_the_center_row() {
    let mut c = canvas(13, 13, false, true);
    c.draw_ellipse(&IntPoint::new(6, 6), 5, 5);
    assert_eq!(
        rows(&c),
        vec![
            ".............",
            "......S......",
            "...S.....S...",
            "..S.......S..",
            "..S.......S..",
            "..S.......S..",
            ".............",
            "..S.......S..",
            "..S.......S..",
            "..S.......S..",
            "...S.....S...",
            "......S......",
            ".............",
        ]
    );
}

#[test]
fn circle_with_fill_only() {
    let mut c = canvas(13, 13, true, false);
    c.draw_ellipse(&IntPoint::new(6, 6), 5, 5);
    assert_eq!(
        rows(&c),
        vec![
            ".............",
            ".............",
            "....FFFFF....",
            "...FFFFFFF...",
            "...FFFFFFF...",
            "...FFFFFFF...",
            ".FFFFFFFFFFF.",
            "...FFFFFFF...",
            "...FFFFFFF...",
            "...FFFFFFF...",
            "....FFFFF....",
            ".............",
            ".............",
        ]
    );
}

#[test]
fn ellipse_wider_than_high() {
    let mut c = canvas(17, 11, true, true);
    c.draw_ellipse(&IntPoint::new(8, 5), 6, 3);
    assert_eq!(
        rows(&c),
        vec![
            ".................",
            ".................",
            "........S........",
            "....SFFFFFFFS....",
            "...SFFFFFFFFFS...",
            "..FFFFFFFFFFFFF..",
            "...SFFFFFFFFFS...",
            "....SFFFFFFFS....",
            "........S........",
            ".................",
            ".................",
        ]
    );
}

#[test]
fn ellipse_higher_than_wide() {
    let mut c = canvas(9, 15, true, true);
    c.draw_ellipse(&IntPoint::new(4, 7), 2, 6);
    assert_eq!(
        rows(&c),
        vec![
            ".........",
            "....S....",
            "...SFS...",
            "...SFS...",
            "...SFS...",
            "...SFS...",
            "...SFS...",
            "..FFFFF..",
            "...SFS...",
            "...SFS...",
            "...SFS...",
            "...SFS...",
            "...SFS...",
            "....S....",
            ".........",
        ]
    );
}

#[test]
fn ellipse_of_no_width_is_a_column() {
    let mut c = canvas(7, 7, true, true);
    c.draw_ellipse(&IntPoint::new(3, 3), 0, 2);
    assert_eq!(
        rows(&c),
        vec![
            ".......",
            "...S...",
            "...S...",
            "...F...",
            "...S...",
            "...S...",
            ".......",
        ]
    );
}

#[test]
fn ellipse_of_no_height_is_the_center_row() {
    let mut c = canvas(7, 7, true, true);
    c.draw_ellipse(&IntPoint::new(3, 3), 2, 0);
    assert_eq!(
        rows(&c),
        vec![
            ".......",
            ".......",
            ".......",
            ".FFFFF.",
            ".......",
            ".......",
            ".......",
        ]
    );
}

#[test]
fn ellipse_of_no_extent_is_one_filled_pixel() {
    let mut c = canvas(7, 7, true, true);
    c.draw_ellipse(&IntPoint::new(3, 3), 0, 0);
    assert_eq!(
        rows(&c),
        vec![
            ".......",
            ".......",
            ".......",
            "...F...",
            ".......",
            ".......",
            ".......",
        ]
    );
}

#[test]
fn ellipse_of_unit_axes() {
    let mut c = canvas(7, 7, true, true);
    c.draw_ellipse(&IntPoint::new(3, 3), 1, 1);
    assert_eq!(
        rows(&c),
        vec![
            ".......",
            ".......",
            "...S...",
            "..FFF..",
            "...S...",
            ".......",
            ".......",
        ]
    );
}

#[test]
fn ellipse_is_clipped_at_the_top_left() {
    let mut c = canvas(6, 6, true, true);
    c.draw_ellipse(&IntPoint::new(1, 1), 3, 3);
    assert_eq!(
        rows(&c),
        vec![
            "FFFS..",
            "FFFFF.",
            "FFFS..",
            "FFFS..",
            ".S....",
            "......",
        ]
    );
}

#[test]
fn ellipse_beyond_the_width_lands_in_later_rows() {
    let mut c = canvas(8, 10, true, true);
    c.draw_ellipse(&IntPoint::new(6, 4), 4, 4);
    assert_eq!(
        rows(&c),
        vec![
            "......S.",
            "....SFFF",
            "S..SFFFF",
            "FS.SFFFF",
            "FSFFFFFF",
            "FFFSFFFF",
            "FS.SFFFF",
            "FS..SFFF",
            "S.....S.",
            "........",
        ]
    );
}

#[test]
fn ellipse_of_larger_axes() {
    let mut c = canvas(40, 30, true, true);
    c.draw_ellipse(&IntPoint::new(20, 15), 17, 12);
    assert_eq!(
        rows(&c),
        vec![
            "........................................",
            "........................................",
            "........................................",
            "....................S...................",
            "..............SFFFFFFFFFFFS.............",
            "...........SFFFFFFFFFFFFFFFFFS..........",
            ".........SFFFFFFFFFFFFFFFFFFFFFS........",
            "........SFFFFFFFFFFFFFFFFFFFFFFFS.......",
            ".......SFFFFFFFFFFFFFFFFFFFFFFFFFS......",
            "......SFFFFFFFFFFFFFFFFFFFFFFFFFFFS.....",
            ".....SFFFFFFFFFFFFFFFFFFFFFFFFFFFFFS....",
            "....SFFFFFFFFFFFFFFFFFFFFFFFFFFFFFFFS...",
            "....SFFFFFFFFFFFFFFFFFFFFFFFFFFFFFFFS...",
            "....SFFFFFFFFFFFFFFFFFFFFFFFFFFFFFFFS...",
            "....SFFFFFFFFFFFFFFFFFFFFFFFFFFFFFFFS...",
            "...FFFFFFFFFFFFFFFFFFFFFFFFFFFFFFFFFFF..",
            "....SFFFFFFFFFFFFFFFFFFFFFFFFFFFFFFFS...",
            "....SFFFFFFFFFFFFFFFFFFFFFFFFFFFFFFFS...",
            "....SFFFFFFFFFFFFFFFFFFFFFFFFFFFFFFFS...",
            "....SFFFFFFFFFFFFFFFFFFFFFFFFFFFFFFFS...",
            ".....SFFFFFFFFFFFFFFFFFFFFFFFFFFFFFS....",
            "......SFFFFFFFFFFFFFFFFFFFFFFFFFFFS.....",
            ".......SFFFFFFFFFFFFFFFFFFFFFFFFFS......",
            "........SFFFFFFFFFFFFFFFFFFFFFFFS.......",
            ".........SFFFFFFFFFFFFFFFFFFFFFS........",
            "...........SFFFFFFFFFFFFFFFFFS..........",
            "..............SFFFFFFFFFFFS.............",
            "....................S...................",
            "........................................",
            "........................................",
        ]
    );
}

#[test]
fn ellipse_without_colors_draws_nothing() {
    let mut c = canvas(7, 7, false, false);
    c.draw_ellipse(&IntPoint::new(3, 3), 2, 2);
    assert_eq!(
        rows(&c),
        vec![
            ".......",
            ".......",
            ".......",
            ".......",
            ".......",
            ".......",
            ".......",
        ]
    );
}
