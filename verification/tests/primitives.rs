use fjor::primitives::{IntPoint, IntRect};

#[test]
fn point_keeps_its_coordinates() {
    let p = IntPoint::new(-3, 7);
    assert_eq!(p.x, -3);
    assert_eq!(p.y, 7);
}

#[test]
fn rect_with_positive_extents_is_kept() {
    let r = IntRect::new(IntPoint::new(5, 6), 10, 20);
    assert_eq!(r.x(), 5);
    assert_eq!(r.y(), 6);
    assert_eq!(r.width, 10);
    assert_eq!(r.height, 20);
}

#[test]
fn rect_with_negative_width_moves_its_corner() {
    let r = IntRect::new(IntPoint::new(5, 6), -10, 20);
    assert_eq!(r.location, IntPoint::new(-5, 6));
    assert_eq!(r.width, 10);
    assert_eq!(r.height, 20);
}

#[test]
fn rect_with_negative_height_moves_its_corner() {
    let r = IntRect::new(IntPoint::new(5, 6), 10, -20);
    assert_eq!(r.location, IntPoint::new(5, -14));
    assert_eq!(r.width, 10);
    assert_eq!(r.height, 20);
}

#[test]
fn negated_extents_denote_the_shifted_rect() {
    let w = 12;
    let h = 9;
    let loc = IntPoint::new(40, 30);
    let negated = IntRect::new(loc, -w, -h);
    let shifted = IntRect::new(IntPoint::new(loc.x - w, loc.y - h), w, h);
    assert_eq!(negated, shifted);
    assert!(negated.width >= 0 && negated.height >= 0);
}

#[test]
fn rect_of_zero_extents_is_a_point() {
    let r = IntRect::new(IntPoint::new(1, 2), 0, 0);
    assert_eq!(r, IntRect { location: IntPoint::new(1, 2), width: 0, height: 0 });
}

#[test]
fn rect_at_the_limits_of_the_coordinates() {
    let r = IntRect::new(IntPoint::new(isize::MAX, 0), -isize::MAX, isize::MAX);
    assert_eq!(r.location, IntPoint::new(0, 0));
    assert_eq!(r.width, isize::MAX);
    assert_eq!(r.height, isize::MAX);
}
