use fjor::canvas::{Canvas, Color, IntPoint};
use fjor::ppm::PPMExporter;

#[test]
fn header_names_format_dimensions_and_depth() {
    assert_eq!(PPMExporter::header(3, 2), b"P6\n3 2\n255\n".to_vec());
    assert_eq!(PPMExporter::header(800, 600), b"P6\n800 600\n255\n".to_vec());
    assert_eq!(PPMExporter::header(1000, 1000), b"P6\n1000 1000\n255\n".to_vec());
}

#[test]
fn header_writes_zero_and_single_digits() {
    assert_eq!(PPMExporter::header(0, 0), b"P6\n0 0\n255\n".to_vec());
    assert_eq!(PPMExporter::header(9, 10), b"P6\n9 10\n255\n".to_vec());
    assert_eq!(PPMExporter::header(101, 99), b"P6\n101 99\n255\n".to_vec());
}

#[test]
fn header_writes_the_largest_dimensions() {
    let expected = format!("P6\n{} {}\n255\n", usize::MAX, usize::MAX - 1);
    assert_eq!(PPMExporter::header(usize::MAX, usize::MAX - 1), expected.into_bytes());
}

#[test]
fn image_is_the_header_and_the_raw_bytes() {
    let mut c = Canvas::new(3, 2);
    c.stroke(Color::rgb(1, 2, 3));
    c.draw_point(&IntPoint::new(1, 0));
    c.stroke(Color::rgb(4, 5, 6));
    c.draw_point(&IntPoint::new(2, 1));
    let image = PPMExporter::encode(&c);
    let mut expected = b"P6\n3 2\n255\n".to_vec();
    expected.extend_from_slice(&[
        255, 255, 255, 1, 2, 3, 255, 255, 255, // first row
        255, 255, 255, 255, 255, 255, 4, 5, 6, // second row
    ]);
    assert_eq!(image, expected);
    assert_eq!(image.len(), 11 + 3 * 2 * 3);
}

#[test]
fn image_of_an_empty_canvas_is_its_header() {
    let c = Canvas::new(0, 0);
    assert_eq!(PPMExporter::encode(&c), b"P6\n0 0\n255\n".to_vec());
}

#[test]
fn image_ends_with_the_canvas_bytes() {
    let mut c = Canvas::new(17, 9);
    c.fill(Color::rgb(9, 8, 7));
    c.draw_ellipse(&IntPoint::new(8, 4), 5, 3);
    let image = PPMExporter::encode(&c);
    let header = PPMExporter::header(17, 9);
    assert_eq!(&image[..header.len()], &header[..]);
    assert_eq!(&image[header.len()..], c.as_raw_buffer());
}
