use fjor::utils::Clampable;

#[test]
fn clamp_keeps_a_value_between_the_bounds() {
    assert_eq!(*Clampable::clamp(&5, &0, &10), 5);
    assert_eq!(*Clampable::clamp(&0, &0, &10), 0);
    assert_eq!(*Clampable::clamp(&10, &0, &10), 10);
}

#[test]
fn clamp_raises_to_the_lower_bound() {
    assert_eq!(*Clampable::clamp(&-3, &0, &10), 0);
    assert_eq!(*Clampable::clamp(&i64::MIN, &-1, &1), -1);
}

#[test]
fn clamp_lowers_to_the_upper_bound() {
    assert_eq!(*Clampable::clamp(&11, &0, &10), 10);
    assert_eq!(*Clampable::clamp(&u8::MAX, &3, &254), 254);
}

#[test]
fn clamp_orders_any_values_that_compare() {
    assert_eq!(*Clampable::clamp(&"m", &"a", &"f"), "f");
    assert_eq!(*Clampable::clamp(&2.5f64, &0.0, &254.0), 2.5);
    assert_eq!(*Clampable::clamp(&300.0f32, &0.0, &254.0), 254.0);
    assert_eq!(*Clampable::clamp(&-1.0f32, &0.0, &254.0), 0.0);
}

#[test]
fn clamp_with_crossed_bounds_prefers_the_lower() {
    assert_eq!(*Clampable::clamp(&1, &5, &3), 5);
    assert_eq!(*Clampable::clamp(&9, &5, &3), 3);
    assert_eq!(*Clampable::clamp(&4, &5, &3), 5);
}
