use constrained_int::int8::BoundsI8;
use constrained_int::int8::ConstrainedI8;
use constrained_int::int8::ConstrainedI8Error;
use constrained_int::int8::MaxI8Error;
use constrained_int::int8::MinI8Error;
use constrained_int::uint8::BoundsU8;
use constrained_int::uint8::ConstrainedU8;
use constrained_int::uint8::ConstrainedU8Error;
use constrained_int::uint8::MaxU8Error;
use constrained_int::uint8::MinU8Error;

fn bounds_u8() -> BoundsU8 {
    // The widest u8 range that still satisfies the construction guard.
    BoundsU8::new(u8::MIN + 1, u8::MAX - 1, u8::MIN + 1).unwrap()
}

fn bounds_i8() -> BoundsI8 {
    BoundsI8::new(i8::MIN + 1, i8::MAX - 1, i8::MIN + 1).unwrap()
}

#[test]
fn guards_reject_ill_formed_ranges() {
    // Empty and singleton ranges.
    assert!(BoundsU8::new(3, 3, 3).is_none());
    assert!(BoundsU8::new(3, 1, 2).is_none());
    // The full primitive domain: its size does not fit the primitive.
    assert!(BoundsU8::new(u8::MIN, u8::MAX, 0).is_none());
    assert!(BoundsI8::new(i8::MIN, i8::MAX, 0).is_none());
    // A default outside the range.
    assert!(BoundsU8::new(1, 3, 4).is_none());
    assert!(BoundsI8::new(-5, 10, 11).is_none());
    // One-sided sub-ranges are fine.
    assert!(BoundsU8::new(u8::MIN, u8::MAX - 1, 0).is_some());
    assert!(BoundsU8::new(u8::MIN + 1, u8::MAX, 1).is_some());
    assert!(BoundsI8::new(i8::MIN, i8::MAX - 1, 0).is_some());
    assert!(BoundsI8::new(i8::MIN + 1, i8::MAX, 0).is_some());
}

#[test]
fn new_bounded() {
    let b = bounds_u8();
    let mut constrained: ConstrainedU8;

    constrained = ConstrainedU8::new(&b, b.min_bound()).expect("in range value");
    assert_eq!(constrained.get(), b.min_bound());

    constrained = ConstrainedU8::new(&b, b.max_bound()).expect("in range value");
    assert_eq!(constrained.get(), b.max_bound());
}

#[test]
fn new_unbounded() {
    let b = bounds_u8();
    let err = ConstrainedU8::new(&b, u8::MIN).expect_err("expected value lower than `MIN`");
    assert_eq!(err, ConstrainedU8Error::Lower(MinU8Error { min: b.min_bound() }));

    let err = ConstrainedU8::new(&b, u8::MAX).expect_err("expected value greater than `MAX`");
    assert_eq!(err, ConstrainedU8Error::Greater(MaxU8Error { max: b.max_bound() }));
}

#[test]
fn new_signed_unbounded() {
    let b = bounds_i8();
    let err = ConstrainedI8::new(&b, i8::MIN).expect_err("expected value lower than `MIN`");
    assert_eq!(err, ConstrainedI8Error::Lower(MinI8Error { min: b.min_bound() }));

    let err = ConstrainedI8::new(&b, i8::MAX).expect_err("expected value greater than `MAX`");
    assert_eq!(err, ConstrainedI8Error::Greater(MaxI8Error { max: b.max_bound() }));
}

#[test]
fn saturating_new_bounded() {
    let b = bounds_u8();
    let mut constrained: ConstrainedU8;

    constrained = ConstrainedU8::saturating_new(&b, b.min_bound());
    assert_eq!(constrained.get(), b.min_bound());

    constrained = ConstrainedU8::saturating_new(&b, b.max_bound());
    assert_eq!(constrained.get(), b.max_bound());
}

#[test]
fn saturating_new_unbounded() {
    let b = bounds_u8();
    let mut constrained: ConstrainedU8;

    constrained = ConstrainedU8::saturating_new(&b, u8::MIN);
    assert_eq!(constrained.get(), b.min_bound());

    constrained = ConstrainedU8::saturating_new(&b, u8::MAX);
    assert_eq!(constrained.get(), b.max_bound());

    let b = bounds_i8();
    assert_eq!(ConstrainedI8::saturating_new(&b, i8::MIN).get(), b.min_bound());
    assert_eq!(ConstrainedI8::saturating_new(&b, i8::MAX).get(), b.max_bound());
}

#[test]
fn checked_new_bounded() {
    let b = bounds_u8();
    let mut constrained: ConstrainedU8;

    constrained = ConstrainedU8::checked_new(&b, b.min_bound()).expect("in range value");
    assert_eq!(constrained.get(), b.min_bound());

    constrained = ConstrainedU8::checked_new(&b, b.max_bound()).expect("in range value");
    assert_eq!(constrained.get(), b.max_bound());
}

#[test]
fn checked_new_unbounded() {
    let b = bounds_u8();
    assert_eq!(ConstrainedU8::checked_new(&b, u8::MIN), None);
    assert_eq!(ConstrainedU8::checked_new(&b, u8::MAX), None);

    let b = bounds_i8();
    assert_eq!(ConstrainedI8::checked_new(&b, i8::MIN), None);
    assert_eq!(ConstrainedI8::checked_new(&b, i8::MAX), None);
}

#[test]
fn constrained_set_bounded() {
    let b = bounds_u8();
    let mut constrained = ConstrainedU8::new_default(&b);

    constrained.set(b.min_bound()).expect("in range value");
    assert_eq!(constrained.get(), b.min_bound());

    constrained.set(b.max_bound()).expect("in range value");
    assert_eq!(constrained.get(), b.max_bound());
}

#[test]
fn constrained_set_unbounded() {
    let b = bounds_u8();
    let mut constrained = ConstrainedU8::new_default(&b);

    let err = constrained.set(u8::MIN).expect_err("expected value lower than `MIN`");
    assert_eq!(err, ConstrainedU8Error::Lower(MinU8Error { min: b.min_bound() }));

    let err = constrained.set(u8::MAX).expect_err("expected value greater than `MAX`");
    assert_eq!(err, ConstrainedU8Error::Greater(MaxU8Error { max: b.max_bound() }));

    // The receiver is untouched on failure.
    assert_eq!(constrained.get(), b.default_value());
}

#[test]
fn constrained_default() {
    let b = BoundsU8::new(1, 3, 2).unwrap();
    assert_eq!(ConstrainedU8::new_default(&b).get(), 2);

    let b = bounds_u8();
    assert_eq!(ConstrainedU8::new_default(&b).get(), b.min_bound());
}

#[test]
fn constrained_new_min_and_max() {
    let b = bounds_u8();
    assert_eq!(ConstrainedU8::new_min(&b).get(), b.min_bound());
    assert_eq!(ConstrainedU8::new_max(&b).get(), b.max_bound());

    let b = bounds_i8();
    assert_eq!(ConstrainedI8::new_min(&b).get(), b.min_bound());
    assert_eq!(ConstrainedI8::new_max(&b).get(), b.max_bound());
}

#[test]
fn constrained_bound_accessors() {
    let b = BoundsU8::new(u8::MIN, u8::MAX - 1, 0).unwrap();
    assert_eq!(b.min_bound(), u8::MIN);
    assert_eq!(b.max_bound(), u8::MAX - 1);
    assert_eq!(b.default_value(), 0);

    let c = ConstrainedU8::new_default(&b);
    assert_eq!(c.min_bound(), u8::MIN);
    assert_eq!(c.max_bound(), u8::MAX - 1);
    assert_eq!(c.default_value(), 0);
}

#[test]
fn constrained_range_inclusive() {
    let b = bounds_u8();
    let c = ConstrainedU8::new_default(&b);
    let (start, end) = c.range();
    assert_eq!(start, b.min_bound());
    assert_eq!(end, b.max_bound());

    let b = bounds_i8();
    let c = ConstrainedI8::new_default(&b);
    let (start, end) = c.range();
    assert_eq!(start, b.min_bound());
    assert_eq!(end, b.max_bound());
}
