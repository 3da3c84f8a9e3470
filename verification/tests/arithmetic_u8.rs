use constrained_int::uint8::BoundsU8;
use constrained_int::uint8::ConstrainedU8;
use constrained_int::uint8::ConstrainedU8Error;
use constrained_int::uint8::MaxU8Error;
use constrained_int::uint8::MinU8Error;

// Two range shapes worth exercising: one sharing the primitive's lower
// bound, one sharing its upper bound.
fn bounds_min() -> BoundsU8 {
    BoundsU8::new(u8::MIN, u8::MAX - 1, u8::MIN).unwrap()
}

fn bounds_max() -> BoundsU8 {
    BoundsU8::new(u8::MIN + 1, u8::MAX, u8::MIN + 1).unwrap()
}

fn range_size(b: &BoundsU8) -> u16 {
    (b.max_bound() - b.min_bound()) as u16 + 1
}

#[test]
fn u8_checked_add_bounded() {
    for b in [bounds_min(), bounds_max()] {
        let c = ConstrainedU8::new_min(&b);
        let r = c.checked_add(10).expect("expected `checked_add` to succeed");
        assert_eq!(r.get(), b.min_bound() + 10);
    }
}

#[test]
fn u8_checked_add_unbounded() {
    for b in [bounds_min(), bounds_max()] {
        let c = ConstrainedU8::new_max(&b);
        assert_eq!(c.checked_add(1), None);
    }
}

#[test]
fn u8_checked_sub_bounded() {
    for b in [bounds_min(), bounds_max()] {
        let c = ConstrainedU8::new_max(&b);
        let r = c.checked_sub(10).expect("expected `checked_sub` to succeed");
        assert_eq!(r.get(), b.max_bound() - 10);
    }
}

#[test]
fn u8_checked_sub_unbounded() {
    for b in [bounds_min(), bounds_max()] {
        let c = ConstrainedU8::new_min(&b);
        assert_eq!(c.checked_sub(1), None);
    }
}

#[test]
fn u8_checked_add_signed_both_directions() {
    let b = BoundsU8::new(10, 20, 10).unwrap();
    let c = ConstrainedU8::new(&b, 15).unwrap();
    assert_eq!(c.checked_add_signed(5).unwrap().get(), 20);
    assert_eq!(c.checked_add_signed(-5).unwrap().get(), 10);
    assert_eq!(c.checked_add_signed(6), None);
    assert_eq!(c.checked_add_signed(-6), None);
    // Primitive overflow of the intermediate sum is also `None`.
    let c = ConstrainedU8::new(&b, 10).unwrap();
    assert_eq!(c.checked_add_signed(-128), None);
}

#[test]
fn u8_try_add_reports_upper_bound() {
    let b = bounds_max();
    let c = ConstrainedU8::new_max(&b);
    let err = c.try_add(1).expect_err("expected `try_add` to fail");
    assert_eq!(err, MaxU8Error { max: b.max_bound() });
    assert_eq!(c.try_add(0).unwrap().get(), b.max_bound());
}

#[test]
fn u8_try_sub_reports_lower_bound() {
    let b = bounds_min();
    let c = ConstrainedU8::new_min(&b);
    let err = c.try_sub(1).expect_err("expected `try_sub` to fail");
    assert_eq!(err, MinU8Error { min: b.min_bound() });
    assert_eq!(c.try_sub(0).unwrap().get(), b.min_bound());
}

#[test]
fn u8_try_add_signed_attributes_bound_by_sign() {
    let b = BoundsU8::new(10, 20, 10).unwrap();
    let c = ConstrainedU8::new(&b, 15).unwrap();
    let err = c.try_add_signed(100).expect_err("expected failure above");
    assert_eq!(err, ConstrainedU8Error::Greater(MaxU8Error { max: 20 }));
    let err = c.try_add_signed(-100).expect_err("expected failure below");
    assert_eq!(err, ConstrainedU8Error::Lower(MinU8Error { min: 10 }));
}

#[test]
fn u8_saturating_add_saturates_above() {
    for b in [bounds_min(), bounds_max()] {
        let c = ConstrainedU8::new_max(&b);
        assert_eq!(c.saturating_add(1).get(), b.max_bound());
        assert_eq!(c.saturating_add(u8::MAX).get(), b.max_bound());
        let c = ConstrainedU8::new_min(&b);
        assert_eq!(c.saturating_add(1).get(), b.min_bound() + 1);
    }
}

#[test]
fn u8_saturating_sub_saturates_below() {
    for b in [bounds_min(), bounds_max()] {
        let c = ConstrainedU8::new_min(&b);
        assert_eq!(c.saturating_sub(1).get(), b.min_bound());
        assert_eq!(c.saturating_sub(u8::MAX).get(), b.min_bound());
        let c = ConstrainedU8::new_max(&b);
        assert_eq!(c.saturating_sub(1).get(), b.max_bound() - 1);
    }
}

#[test]
fn u8_saturating_add_signed_both_directions() {
    let b = BoundsU8::new(10, 20, 10).unwrap();
    let c = ConstrainedU8::new(&b, 15).unwrap();
    assert_eq!(c.saturating_add_signed(100).get(), 20);
    assert_eq!(c.saturating_add_signed(-100).get(), 10);
    assert_eq!(c.saturating_add_signed(2).get(), 17);
    assert_eq!(c.saturating_add_signed(-2).get(), 13);
}

#[test]
fn u8_wrapping_add_wraps_around_max() {
    for b in [bounds_min(), bounds_max()] {
        // One past the upper bound lands exactly on the lower bound.
        let c = ConstrainedU8::new_max(&b);
        assert_eq!(c.wrapping_add(1).get(), b.min_bound());
        // `range_size` steps of one return to the start (full cycle).
        let mut c = ConstrainedU8::new(&b, b.min_bound() + 7).unwrap();
        for _ in 0..range_size(&b) {
            c = c.wrapping_add(1);
        }
        assert_eq!(c.get(), b.min_bound() + 7);
    }
}

#[test]
fn u8_wrapping_sub_wraps_around_min() {
    for b in [bounds_min(), bounds_max()] {
        let c = ConstrainedU8::new_min(&b);
        assert_eq!(c.wrapping_sub(1).get(), b.max_bound());
        let mut c = ConstrainedU8::new(&b, b.min_bound() + 7).unwrap();
        for _ in 0..range_size(&b) {
            c = c.wrapping_sub(1);
        }
        assert_eq!(c.get(), b.min_bound() + 7);
    }
}

#[test]
fn u8_wrapping_totality_at_extremes() {
    // No panic and an in-range result for every extreme operand.
    for b in [bounds_min(), bounds_max(), BoundsU8::new(100, 105, 100).unwrap()] {
        for v in [b.min_bound(), b.max_bound()] {
            let c = ConstrainedU8::new(&b, v).unwrap();
            for rhs in [0, 1, u8::MAX - 1, u8::MAX] {
                let r = c.wrapping_add(rhs);
                assert!(r.get() >= b.min_bound() && r.get() <= b.max_bound());
                let r = c.wrapping_sub(rhs);
                assert!(r.get() >= b.min_bound() && r.get() <= b.max_bound());
                let r = c.wrapping_add_signed(rhs as i8);
                assert!(r.get() >= b.min_bound() && r.get() <= b.max_bound());
            }
        }
    }
}

#[test]
fn u8_wrapping_add_range_size_is_identity() {
    for b in [bounds_min(), bounds_max()] {
        for v in [b.min_bound(), b.min_bound() + 3, b.max_bound()] {
            let c = ConstrainedU8::new(&b, v).unwrap();
            // Adding the full range size in one primitive-overflowing step.
            let rs: u16 = range_size(&b);
            if rs <= u8::MAX as u16 {
                assert_eq!(c.wrapping_add(rs as u8).get(), v);
                assert_eq!(c.wrapping_sub(rs as u8).get(), v);
            }
        }
    }
    let b = BoundsU8::new(10, 19, 10).unwrap();
    let c = ConstrainedU8::new(&b, 13).unwrap();
    assert_eq!(c.wrapping_add(10).get(), 13);
    assert_eq!(c.wrapping_sub(10).get(), 13);
    // 25 = 2 * 10 + 5.
    assert_eq!(c.wrapping_add(25).get(), 18);
    assert_eq!(c.wrapping_sub(25).get(), 18);
}

#[test]
fn u8_wrapping_add_signed_wraps_both_ways() {
    let b = BoundsU8::new(10, 19, 10).unwrap();
    let c = ConstrainedU8::new_max(&b);
    assert_eq!(c.wrapping_add_signed(1).get(), 10);
    let c = ConstrainedU8::new_min(&b);
    assert_eq!(c.wrapping_add_signed(-1).get(), 19);
    // Primitive overflow in both directions.
    let b = BoundsU8::new(0, 200, 0).unwrap();
    let c = ConstrainedU8::new(&b, 150).unwrap();
    // 150 + 120 = 270 overflows u8; 270 mod 201 = 69.
    assert_eq!(c.wrapping_add_signed(120).get(), 69);
    let c = ConstrainedU8::new(&b, 50).unwrap();
    // 50 - 120 = -70 underflows u8; -70 mod 201 = 131.
    assert_eq!(c.wrapping_add_signed(-120).get(), 131);
}

#[test]
fn u8_overflowing_add_flags_range_wrap() {
    let b = bounds_max();
    let c = ConstrainedU8::new_max(&b);
    let (r, wrapped) = c.overflowing_add(1);
    assert_eq!(r.get(), b.min_bound());
    assert!(wrapped);
    let (r, wrapped) = c.overflowing_add(0);
    assert_eq!(r.get(), b.max_bound());
    assert!(!wrapped);
}

#[test]
fn u8_overflowing_sub_flags_range_wrap() {
    let b = bounds_min();
    let c = ConstrainedU8::new_min(&b);
    let (r, wrapped) = c.overflowing_sub(1);
    assert_eq!(r.get(), b.max_bound());
    assert!(wrapped);
    let (r, wrapped) = c.overflowing_sub(0);
    assert_eq!(r.get(), b.min_bound());
    assert!(!wrapped);
}

#[test]
fn u8_overflowing_agrees_with_wrapping_and_checked() {
    // Overflowing consistency: the pair equals (wrapping result, checked
    // failure), across a whole grid of operands.
    let b = BoundsU8::new(3, 250, 3).unwrap();
    for v in [3u8, 4, 100, 249, 250] {
        let c = ConstrainedU8::new(&b, v).unwrap();
        for rhs in 0..=u8::MAX {
            let (ra, fa) = c.overflowing_add(rhs);
            assert_eq!(ra, c.wrapping_add(rhs));
            assert_eq!(fa, c.checked_add(rhs).is_none());
            let (rs, fs) = c.overflowing_sub(rhs);
            assert_eq!(rs, c.wrapping_sub(rhs));
            assert_eq!(fs, c.checked_sub(rhs).is_none());
            let (rx, fx) = c.overflowing_add_signed(rhs as i8);
            assert_eq!(rx, c.wrapping_add_signed(rhs as i8));
            assert_eq!(fx, c.checked_add_signed(rhs as i8).is_none());
        }
    }
}

#[test]
fn u8_wrapping_matches_modular_model() {
    // The wrapping engine against plain Euclidean modular arithmetic over
    // wide integers, for every in-range value and every `u8` operand.
    for (min, max) in [(0u8, 254u8), (1, 255), (1, 3), (100, 105), (0, 127), (128, 255)] {
        let b = BoundsU8::new(min, max, min).unwrap();
        let rs: i32 = max as i32 - min as i32 + 1;
        for v in min..=max {
            let c = ConstrainedU8::new(&b, v).unwrap();
            for rhs in [0u8, 1, 2, rs as u8, 100, 200, 254, 255] {
                let expect_add = min as i32 + (v as i32 + rhs as i32 - min as i32).rem_euclid(rs);
                assert_eq!(c.wrapping_add(rhs).get() as i32, expect_add);
                let expect_sub = min as i32 + (v as i32 - rhs as i32 - min as i32).rem_euclid(rs);
                assert_eq!(c.wrapping_sub(rhs).get() as i32, expect_sub);
                let s = rhs as i8;
                let expect_mix = min as i32 + (v as i32 + s as i32 - min as i32).rem_euclid(rs);
                assert_eq!(c.wrapping_add_signed(s).get() as i32, expect_mix);
            }
        }
    }
}
