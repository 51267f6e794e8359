use gamepad_relay::angle::{Angle, MAX_DEGREES};

#[test]
fn range_ends_at_one_hundred_and_eighty() {
    assert_eq!(MAX_DEGREES, 180);
    assert_eq!(Angle::full().degrees(), 180);
    assert_eq!(Angle::neutral().degrees(), 0);
}

#[test]
fn new_accepts_exactly_the_range() {
    for degrees in 0..=180 {
        assert_eq!(Angle::new(degrees).map(|a| a.degrees()), Some(degrees));
    }
    assert_eq!(Angle::new(-1), None);
    assert_eq!(Angle::new(181), None);
    assert_eq!(Angle::new(i32::MIN), None);
    assert_eq!(Angle::new(i32::MAX), None);
}

#[test]
fn clamped_pulls_into_the_range() {
    assert_eq!(Angle::clamped(-5).degrees(), 0);
    assert_eq!(Angle::clamped(0).degrees(), 0);
    assert_eq!(Angle::clamped(77).degrees(), 77);
    assert_eq!(Angle::clamped(180).degrees(), 180);
    assert_eq!(Angle::clamped(181).degrees(), 180);
    assert_eq!(Angle::clamped(i64::MAX).degrees(), 180);
    assert_eq!(Angle::clamped(i64::MIN).degrees(), 0);
}

#[test]
fn same_as_compares_degrees() {
    let a = Angle::new(42).unwrap();
    let b = Angle::new(42).unwrap();
    let c = Angle::new(43).unwrap();
    assert!(a.same_as(&b));
    assert!(!a.same_as(&c));
    assert_eq!(a, b);
    assert_ne!(a, c);
}
