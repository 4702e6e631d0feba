use fjor::canvas::{Canvas, Color, IntPoint, IntRect};

const INK: Color = Color { red: 10, green: 20, blue: 30 };
const PAINT: Color = Color { red: 200, green: 100, blue: 50 };
const WHITE: Color = Color { red: 255, green: 255, blue: 255 };

fn canvas(width: usize, height: usize, fill: bool, stroke: bool) -> Canvas {
    let mut c = Canvas::new(width, height);
    if fill {
        c.fill(PAINT);
    } else {
        c.no_fill();
    }
    if stroke {
        c.stroke(INK);
    } else {
        c.no_stroke();
    }
    c
}

fn rows(c: &Canvas) -> Vec<String> {
    let raw = c.as_raw_buffer();
    assert_eq!(raw.len(), c.width() * c.height() * 3);
    let mut out = Vec::new();
    for y in 0..c.height() {
        let mut row = String::new();
        for x in 0..c.width() {
            let i = 3 * (y * c.width() + x);
            let color = Color::rgb(raw[i], raw[i + 1], raw[i + 2]);
            row.push(if color == INK {
                'S'
            } else if color == PAINT {
                'F'
            } else if color == WHITE {
                '.'
            } else {
                '?'
            });
        }
        out.push(row);
    }
    out
}

#[test]
fn line_from_a_point_to_itself_is_one_pixel() {
    let mut c = canvas(6, 5, false, true);
    c.draw_line(&IntPoint::new(3, 2), &IntPoint::new(3, 2));
    assert_eq!(
        rows(&c),
        vec![
            "......",
            "......",
            "...S..",
            "......",
            "......",
        ]
    );
}

#[test]
fn line_of_gentle_slope() {
    let mut c = canvas(8, 4, false, true);
    c.draw_line(&IntPoint::new(0, 0), &IntPoint::new(5, 2));
    assert_eq!(
        rows(&c),
        vec![
            "SS......",
            "..SS....",
            "....SS..",
            "........",
        ]
    );
}

#[test]
fn line_of_gentle_slope_backwards() {
    let mut c = canvas(8, 4, false, true);
    c.draw_line(&IntPoint::new(5, 2), &IntPoint::new(0, 0));
    assert_eq!(
        rows(&c),
        vec![
            "SS......",
            "..SS....",
            "....SS..",
            "........",
        ]
    );
}

#[test]
fn line_of_steep_slope() {
    let mut c = canvas(4, 7, false, true);
    c.draw_line(&IntPoint::new(0, 0), &IntPoint::new(2, 5));
    assert_eq!(
        rows(&c),
        vec![
            "S...",
            "S...",
            ".S..",
            ".S..",
            "..S.",
            "..S.",
            "....",
        ]
    );
}

#[test]
fn line_falling_to_the_left() {
    let mut c = canvas(8, 6, false, true);
    c.draw_line(&IntPoint::new(6, 1), &IntPoint::new(1, 4));
    assert_eq!(
        rows(&c),
        vec![
            "........",
            "......S.",
            "....SS..",
            "..SS....",
            ".S......",
            "........",
        ]
    );
}

#[test]
fn line_rising_steeply() {
    let mut c = canvas(5, 7, false, true);
    c.draw_line(&IntPoint::new(1, 5), &IntPoint::new(3, 0));
    assert_eq!(
        rows(&c),
        vec![
            "...S.",
            "...S.",
            "..S..",
            "..S..",
            ".S...",
            ".S...",
            ".....",
        ]
    );
}

#[test]
fn line_on_the_diagonal() {
    let mut c = canvas(6, 6, false, true);
    c.draw_line(&IntPoint::new(0, 0), &IntPoint::new(4, 4));
    assert_eq!(
        rows(&c),
        vec![
            "S.....",
            ".S....",
            "..S...",
            "...S..",
            "....S.",
            "......",
        ]
    );
}

#[test]
fn line_on_the_other_diagonal() {
    let mut c = canvas(6, 6, false, true);
    c.draw_line(&IntPoint::new(4, 0), &IntPoint::new(0, 4));
    assert_eq!(
        rows(&c),
        vec![
            "....S.",
            "...S..",
            "..S...",
            ".S....",
            "S.....",
            "......",
        ]
    );
}

#[test]
fn line_horizontal_includes_both_ends() {
    let mut c = canvas(8, 4, false, true);
    c.draw_line(&IntPoint::new(1, 2), &IntPoint::new(6, 2));
    assert_eq!(
        rows(&c),
        vec![
            "........",
            "........",
            ".SSSSSS.",
            "........",
        ]
    );
}

#[test]
fn line_horizontal_backwards() {
    let mut c = canvas(8, 4, false, true);
    c.draw_line(&IntPoint::new(6, 2), &IntPoint::new(1, 2));
    assert_eq!(
        rows(&c),
        vec![
            "........",
            "........",
            ".SSSSSS.",
            "........",
        ]
    );
}

#[test]
fn line_vertical_includes_both_ends() {
    let mut c = canvas(5, 7, false, true);
    c.draw_line(&IntPoint::new(2, 1), &IntPoint::new(2, 5));
    assert_eq!(
        rows(&c),
        vec![
            ".....",
            "..S..",
            "..S..",
            "..S..",
            "..S..",
            "..S..",
            ".....",
        ]
    );
}

#[test]
fn line_vertical_backwards() {
    let mut c = canvas(5, 7, false, true);
    c.draw_line(&IntPoint::new(2, 5), &IntPoint::new(2, 1));
    assert_eq!(
        rows(&c),
        vec![
            ".....",
            "..S..",
            "..S..",
            "..S..",
            "..S..",
            "..S..",
            ".....",
        ]
    );
}

#[test]
fn line_rounds_a_half_step_up() {
    let mut c = canvas(9, 3, false, true);
    c.draw_line(&IntPoint::new(0, 0), &IntPoint::new(7, 1));
    assert_eq!(
        rows(&c),
        vec![
            "SSSS.....",
            "....SSSS.",
            ".........",
        ]
    );
}

#[test]
fn line_of_half_slope() {
    let mut c = canvas(8, 5, false, true);
    c.draw_line(&IntPoint::new(0, 0), &IntPoint::new(6, 3));
    assert_eq!(
        rows(&c),
        vec![
            "S.......",
            ".SS.....",
            "...SS...",
            ".....SS.",
            "........",
        ]
    );
}

#[test]
fn line_is_clipped_on_the_left() {
    let mut c = canvas(6, 5, false, true);
    c.draw_line(&IntPoint::new(-3, 1), &IntPoint::new(4, 3));
    assert_eq!(
        rows(&c),
        vec![
            "......",
            "......",
            "SSS...",
            "...SS.",
            "......",
        ]
    );
}

#[test]
fn line_beyond_the_width_lands_in_later_rows() {
    let mut c = canvas(6, 5, false, true);
    c.draw_line(&IntPoint::new(3, 1), &IntPoint::new(9, 2));
    assert_eq!(
        rows(&c),
        vec![
            "......",
            "...SSS",
            "......",
            "SSSS..",
            "......",
        ]
    );
}

#[test]
fn line_without_stroke_draws_nothing() {
    let mut c = canvas(6, 5, false, false);
    c.draw_line(&IntPoint::new(0, 0), &IntPoint::new(4, 3));
    assert_eq!(
        rows(&c),
        vec![
            "......",
            "......",
            "......",
            "......",
            "......",
        ]
    );
}

#[test]
fn line_above_the_canvas_draws_nothing() {
    let mut c = canvas(6, 5, false, true);
    c.draw_line(&IntPoint::new(0, -3), &IntPoint::new(5, -1));
    assert_eq!(
        rows(&c),
        vec![
            "......",
            "......",
            "......",
            "......",
            "......",
        ]
    );
}

#[test]
fn line_below_the_canvas_draws_nothing() {
    let mut c = canvas(6, 5, false, true);
    c.draw_line(&IntPoint::new(0, 5), &IntPoint::new(5, 9));
    assert_eq!(
        rows(&c),
        vec![
            "......",
            "......",
            "......",
            "......",
            "......",
        ]
    );
}
