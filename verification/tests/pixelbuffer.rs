use fjor::color::Color;
use fjor::pixelbuffer::PixelBuffer;

const WHITE: Color = Color { red: 255, green: 255, blue: 255 };
const RED: Color = Color { red: 200, green: 10, blue: 20 };

#[test]
fn new_buffer_is_white_and_sized() {
    let b = PixelBuffer::new(4, 3);
    assert_eq!(b.width(), 4);
    assert_eq!(b.height(), 3);
    assert_eq!(b.as_raw_buffer().len(), 4 * 3 * 3);
    assert!(b.as_raw_buffer().iter().all(|&v| v == 255));
}

#[test]
fn empty_buffer_has_no_bytes() {
    let mut b = PixelBuffer::new(0, 5);
    assert_eq!(b.as_raw_buffer().len(), 0);
    b.set_pixel(0, 0, &RED);
    assert_eq!(b.as_raw_buffer().len(), 0);
    assert_eq!(b.at(0, 0), None);
}

#[test]
fn set_pixel_writes_three_bytes_row_major() {
    let mut b = PixelBuffer::new(4, 3);
    b.set_pixel(2, 1, &RED);
    let raw = b.as_raw_buffer();
    let offset = 3 * (1 * 4 + 2);
    assert_eq!(&raw[offset..offset + 3], &[200, 10, 20]);
    for (i, &v) in raw.iter().enumerate() {
        if i < offset || i >= offset + 3 {
            assert_eq!(v, 255);
        }
    }
    assert_eq!(b.at(2, 1), Some(RED));
    assert_eq!(b.at(1, 1), Some(WHITE));
}

#[test]
fn set_pixel_drops_negative_coordinates() {
    let mut b = PixelBuffer::new(4, 3);
    b.set_pixel(-1, 1, &RED);
    b.set_pixel(1, -1, &RED);
    b.set_pixel(isize::MIN, isize::MIN, &RED);
    assert!(b.as_raw_buffer().iter().all(|&v| v == 255));
}

#[test]
fn set_pixel_drops_positions_past_the_end() {
    let mut b = PixelBuffer::new(4, 3);
    b.set_pixel(0, 3, &RED);
    b.set_pixel(3, 3, &RED);
    b.set_pixel(12, 0, &RED);
    b.set_pixel(4, 2, &RED);
    b.set_pixel(isize::MAX, 0, &RED);
    b.set_pixel(0, isize::MAX, &RED);
    b.set_pixel(isize::MAX, isize::MAX, &RED);
    assert!(b.as_raw_buffer().iter().all(|&v| v == 255));
}

#[test]
fn set_pixel_beyond_the_width_lands_in_a_later_row() {
    let mut b = PixelBuffer::new(4, 3);
    b.set_pixel(5, 0, &RED);
    assert_eq!(b.at(1, 1), Some(RED));
    b.set_pixel(11, 0, &RED);
    assert_eq!(b.at(3, 2), Some(RED));
    let written = (0..3usize)
        .flat_map(|y| (0..4usize).map(move |x| (x, y)))
        .filter(|&(x, y)| b.at(x, y) == Some(RED))
        .count();
    assert_eq!(written, 2);
}

#[test]
fn at_reads_by_position() {
    let mut b = PixelBuffer::new(4, 3);
    b.set_pixel(1, 2, &RED);
    assert_eq!(b.at(1, 2), Some(RED));
    assert_eq!(b.at(9, 0), Some(RED));
    assert_eq!(b.at(0, 3), None);
    assert_eq!(b.at(12, 0), None);
    assert_eq!(b.at(usize::MAX, usize::MAX), None);
    assert_eq!(b.at(0, usize::MAX), None);
}

#[test]
fn clear_fills_every_pixel() {
    let mut b = PixelBuffer::new(4, 3);
    b.set_pixel(1, 2, &RED);
    let blue = Color::rgb(1, 2, 250);
    b.clear(&blue);
    for y in 0..3 {
        for x in 0..4 {
            assert_eq!(b.at(x, y), Some(blue));
        }
    }
    assert_eq!(b.as_raw_buffer().len(), 36);
    assert_eq!(&b.as_raw_buffer()[0..6], &[1, 2, 250, 1, 2, 250]);
}
