use constrained_int::int8::BoundsI8;
use constrained_int::int8::ConstrainedI8;
use constrained_int::int8::ConstrainedI8Error;
use constrained_int::int8::MaxI8Error;
use constrained_int::int8::MinI8Error;

// Two range shapes worth exercising: one sharing the primitive's lower
// bound, one sharing its upper bound.
fn bounds_min() -> BoundsI8 {
    BoundsI8::new(i8::MIN, i8::MAX - 1, 0).unwrap()
}

fn bounds_max() -> BoundsI8 {
    BoundsI8::new(i8::MIN + 1, i8::MAX, 0).unwrap()
}

#[test]
fn i8_checked_add_and_sub() {
    let b = BoundsI8::new(-5, 10, -1).unwrap();
    let c = ConstrainedI8::new(&b, 8).unwrap();
    assert_eq!(c.checked_add(2).unwrap().get(), 10);
    assert_eq!(c.checked_add(3), None);
    assert_eq!(c.checked_add(-13).unwrap().get(), -5);
    assert_eq!(c.checked_add(-14), None);
    assert_eq!(c.checked_sub(13).unwrap().get(), -5);
    assert_eq!(c.checked_sub(14), None);
    assert_eq!(c.checked_sub(-2).unwrap().get(), 10);
    assert_eq!(c.checked_sub(-3), None);
    // Primitive overflow is also a failure.
    let c = ConstrainedI8::new(&bounds_max(), i8::MAX).unwrap();
    assert_eq!(c.checked_add(i8::MAX), None);
    let c = ConstrainedI8::new(&bounds_min(), i8::MIN).unwrap();
    assert_eq!(c.checked_sub(i8::MAX), None);
}

#[test]
fn i8_checked_cross_sign() {
    let b = BoundsI8::new(-5, 10, -1).unwrap();
    let c = ConstrainedI8::new(&b, 8).unwrap();
    assert_eq!(c.checked_add_unsigned(2).unwrap().get(), 10);
    assert_eq!(c.checked_add_unsigned(3), None);
    assert_eq!(c.checked_add_unsigned(255), None);
    assert_eq!(c.checked_sub_unsigned(13).unwrap().get(), -5);
    assert_eq!(c.checked_sub_unsigned(14), None);
    assert_eq!(c.checked_sub_unsigned(255), None);
}

#[test]
fn i8_try_add_attributes_bound_by_sign() {
    let b = BoundsI8::new(-5, 10, -1).unwrap();
    let c = ConstrainedI8::new(&b, 0).unwrap();
    let err = c.try_add(100).expect_err("expected failure above");
    assert_eq!(err, ConstrainedI8Error::Greater(MaxI8Error { max: 10 }));
    let err = c.try_add(-100).expect_err("expected failure below");
    assert_eq!(err, ConstrainedI8Error::Lower(MinI8Error { min: -5 }));
    assert_eq!(c.try_add(10).unwrap().get(), 10);
}

#[test]
fn i8_try_sub_attributes_bound_by_sign() {
    let b = BoundsI8::new(-5, 10, -1).unwrap();
    let c = ConstrainedI8::new(&b, 0).unwrap();
    let err = c.try_sub(100).expect_err("expected failure below");
    assert_eq!(err, ConstrainedI8Error::Lower(MinI8Error { min: -5 }));
    let err = c.try_sub(-100).expect_err("expected failure above");
    assert_eq!(err, ConstrainedI8Error::Greater(MaxI8Error { max: 10 }));
}

#[test]
fn i8_try_cross_sign_bounds() {
    let b = BoundsI8::new(-5, 10, -1).unwrap();
    let c = ConstrainedI8::new(&b, 0).unwrap();
    let err = c.try_add_unsigned(100).expect_err("expected failure above");
    assert_eq!(err, MaxI8Error { max: 10 });
    let err = c.try_sub_unsigned(100).expect_err("expected failure below");
    assert_eq!(err, MinI8Error { min: -5 });
    assert_eq!(c.try_add_unsigned(10).unwrap().get(), 10);
    assert_eq!(c.try_sub_unsigned(5).unwrap().get(), -5);
}

#[test]
fn i8_saturating_add_and_sub() {
    let b = BoundsI8::new(-5, 10, -1).unwrap();
    let c = ConstrainedI8::new(&b, 0).unwrap();
    assert_eq!(c.saturating_add(100).get(), 10);
    assert_eq!(c.saturating_add(-100).get(), -5);
    assert_eq!(c.saturating_sub(100).get(), -5);
    assert_eq!(c.saturating_sub(-100).get(), 10);
    assert_eq!(c.saturating_add(3).get(), 3);
    assert_eq!(c.saturating_sub(3).get(), -3);
    // Saturation with primitive-overflowing operands at the extremes.
    let c = ConstrainedI8::new(&bounds_max(), i8::MAX).unwrap();
    assert_eq!(c.saturating_add(i8::MAX).get(), i8::MAX);
    let c = ConstrainedI8::new(&bounds_min(), i8::MIN).unwrap();
    assert_eq!(c.saturating_sub(i8::MAX).get(), i8::MIN);
}

#[test]
fn i8_saturating_cross_sign() {
    let b = BoundsI8::new(-5, 10, -1).unwrap();
    let c = ConstrainedI8::new(&b, 0).unwrap();
    assert_eq!(c.saturating_add_unsigned(255).get(), 10);
    assert_eq!(c.saturating_add_unsigned(4).get(), 4);
    assert_eq!(c.saturating_sub_unsigned(255).get(), -5);
    assert_eq!(c.saturating_sub_unsigned(4).get(), -4);
}

#[test]
fn i8_wrapping_add_wraps_both_bounds() {
    let b = BoundsI8::new(-5, 10, -1).unwrap();
    let c = ConstrainedI8::new(&b, 10).unwrap();
    assert_eq!(c.wrapping_add(1).get(), -5);
    let c = ConstrainedI8::new(&b, -5).unwrap();
    assert_eq!(c.wrapping_add(-1).get(), 10);
    assert_eq!(c.wrapping_sub(1).get(), 10);
    let c = ConstrainedI8::new(&b, 10).unwrap();
    assert_eq!(c.wrapping_sub(-1).get(), -5);
}

#[test]
fn i8_wrapping_full_cycle() {
    let b = BoundsI8::new(-5, 10, -1).unwrap();
    let rs: i8 = 16;
    let mut c = ConstrainedI8::new(&b, 3).unwrap();
    for _ in 0..rs {
        c = c.wrapping_add(1);
    }
    assert_eq!(c.get(), 3);
    for _ in 0..rs {
        c = c.wrapping_sub(1);
    }
    assert_eq!(c.get(), 3);
    // Adding the whole range size at once is the identity too.
    assert_eq!(c.wrapping_add(rs).get(), 3);
    assert_eq!(c.wrapping_sub(rs).get(), 3);
    assert_eq!(c.wrapping_add_unsigned(rs as u8).get(), 3);
    assert_eq!(c.wrapping_sub_unsigned(rs as u8).get(), 3);
}

#[test]
fn i8_wrapping_primitive_overflow() {
    // One-past-extremes range: the primitive add of 126 + 127 overflows
    // `i8` and the engine must still land in the declared range.
    let b = BoundsI8::new(-127, 126, 0).unwrap();
    let c = ConstrainedI8::new(&b, 126).unwrap();
    let r = c.wrapping_add(i8::MAX);
    assert!(r.get() >= -127 && r.get() <= 126);
    // 126 + 127 = 253; 253 wrapped into [-127, 126] (size 254) is -1.
    assert_eq!(r.get(), -1);

    let c = ConstrainedI8::new(&b, -127).unwrap();
    let r = c.wrapping_sub(i8::MAX);
    assert!(r.get() >= -127 && r.get() <= 126);
    // -127 - 127 = -254; -254 wrapped into [-127, 126] is 0.
    assert_eq!(r.get(), 0);

    let r = c.wrapping_add(i8::MIN);
    // -127 - 128 = -255; -255 wrapped into [-127, 126] is -1.
    assert_eq!(r.get(), -1);
}

#[test]
fn i8_wrapping_cross_sign_primitive_overflow() {
    let b = BoundsI8::new(-127, 126, 0).unwrap();
    let c = ConstrainedI8::new(&b, 126).unwrap();
    // 126 + 255 = 381 overflows i8; 381 wrapped into [-127, 126] is 127 - 254 = ... 381 - 254 = 127 > 126, 127 - 254 = -127.
    assert_eq!(c.wrapping_add_unsigned(255).get(), -127);
    let c = ConstrainedI8::new(&b, -127).unwrap();
    // -127 - 255 = -382; -382 + 2 * 254 = 126.
    assert_eq!(c.wrapping_sub_unsigned(255).get(), 126);
}

#[test]
fn i8_overflowing_agrees_with_wrapping_and_checked() {
    let b = BoundsI8::new(-100, 101, 0).unwrap();
    for v in [-100i8, -99, 0, 100, 101] {
        let c = ConstrainedI8::new(&b, v).unwrap();
        for rhs in i8::MIN..=i8::MAX {
            let (ra, fa) = c.overflowing_add(rhs);
            assert_eq!(ra, c.wrapping_add(rhs));
            assert_eq!(fa, c.checked_add(rhs).is_none());
            let (rs, fs) = c.overflowing_sub(rhs);
            assert_eq!(rs, c.wrapping_sub(rhs));
            assert_eq!(fs, c.checked_sub(rhs).is_none());
            let u = rhs as u8;
            let (ru, fu) = c.overflowing_add_unsigned(u);
            assert_eq!(ru, c.wrapping_add_unsigned(u));
            assert_eq!(fu, c.checked_add_unsigned(u).is_none());
            let (rv, fv) = c.overflowing_sub_unsigned(u);
            assert_eq!(rv, c.wrapping_sub_unsigned(u));
            assert_eq!(fv, c.checked_sub_unsigned(u).is_none());
        }
    }
}

#[test]
fn i8_wrapping_matches_modular_model() {
    // The wrapping engine against plain Euclidean modular arithmetic over
    // wide integers, for every in-range value and a spread of operands.
    for (min, max) in [(-128i8, 126i8), (-127, 127), (-5, 10), (-128, -120), (120, 127), (0, 1)] {
        let b = BoundsI8::new(min, max, min).unwrap();
        let rs: i32 = max as i32 - min as i32 + 1;
        for v in min..=max {
            let c = ConstrainedI8::new(&b, v).unwrap();
            for rhs in [i8::MIN, -100, -17, -1, 0, 1, 17, 100, i8::MAX] {
                let expect_add = min as i32 + (v as i32 + rhs as i32 - min as i32).rem_euclid(rs);
                assert_eq!(c.wrapping_add(rhs).get() as i32, expect_add);
                let expect_sub = min as i32 + (v as i32 - rhs as i32 - min as i32).rem_euclid(rs);
                assert_eq!(c.wrapping_sub(rhs).get() as i32, expect_sub);
                let u = rhs as u8;
                let expect_addu = min as i32 + (v as i32 + u as i32 - min as i32).rem_euclid(rs);
                assert_eq!(c.wrapping_add_unsigned(u).get() as i32, expect_addu);
                let expect_subu = min as i32 + (v as i32 - u as i32 - min as i32).rem_euclid(rs);
                assert_eq!(c.wrapping_sub_unsigned(u).get() as i32, expect_subu);
            }
        }
    }
}

#[test]
fn i8_sign_inspection() {
    let b = BoundsI8::new(-5, 10, -1).unwrap();
    let c = ConstrainedI8::new(&b, -3).unwrap();
    assert_eq!(c.signum(), -1);
    assert!(c.is_negative());
    assert!(!c.is_positive());
    let c = ConstrainedI8::new(&b, 0).unwrap();
    assert_eq!(c.signum(), 0);
    assert!(!c.is_negative());
    assert!(!c.is_positive());
    let c = ConstrainedI8::new(&b, 7).unwrap();
    assert_eq!(c.signum(), 1);
    assert!(!c.is_negative());
    assert!(c.is_positive());
}

#[test]
fn i8_checked_abs() {
    let b = BoundsI8::new(-5, 3, 0).unwrap();
    assert_eq!(ConstrainedI8::new(&b, -3).unwrap().checked_abs().unwrap().get(), 3);
    assert_eq!(ConstrainedI8::new(&b, 2).unwrap().checked_abs().unwrap().get(), 2);
    // Negating pushes the magnitude above the positive bound.
    assert_eq!(ConstrainedI8::new(&b, -4).unwrap().checked_abs(), None);
    // The primitive's own minimum has no absolute value.
    let b = BoundsI8::new(i8::MIN, i8::MAX - 1, 0).unwrap();
    assert_eq!(ConstrainedI8::new(&b, i8::MIN).unwrap().checked_abs(), None);
}
