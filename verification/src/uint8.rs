//! Container and error types for a range-constrained `u8`.
//!
//! A [`ConstrainedU8`] holds a `u8` that always lies within the closed range
//! `[min, max]` of a validated [`BoundsU8`].  Arithmetic behaves as if it
//! were carried out over the unbounded integers and then mapped back into
//! the range: checked and fallible operations reject results that leave the
//! range, saturating operations clamp at the violated bound, and wrapping
//! (modular) operations wrap around the declared range, exactly, even when
//! the `u8` arithmetic itself overflows mid-computation.

use crate::wrap_math::clamp;
use crate::wrap_math::range_size;
use crate::wrap_math::wrap_into;
use crate::wrap_math::lemma_mod_le_self;
use crate::wrap_math::lemma_multiple_mod_zero;
use crate::wrap_math::lemma_wrap_into_congruent_mod;
use crate::wrap_math::lemma_wrap_into_fixed;
use crate::wrap_math::lemma_wrap_into_in_range;
use crate::wrap_math::lemma_wrap_into_rep;
use vstd::arithmetic::div_mod::lemma_fundamental_div_mod;
use vstd::arithmetic::div_mod::lemma_mod_division_less_than_divisor;
use vstd::prelude::*;

verus! {

/// Whether `[min, max]` is a well-formed range: the lower bound must lie
/// strictly below the upper one, so the range has at least two values.
pub fn guard_range(min: u8, max: u8) -> (r: bool)
    ensures
        r <==> min < max,
{
    min < max
}

/// Whether `def` is an admissible default for the range `[min, max]`.
pub fn guard_default(min: u8, max: u8, def: u8) -> (r: bool)
    ensures
        r <==> min <= def <= max,
{
    def >= min && def <= max
}

/// Whether arithmetic is possible on `[min, max]`: the range must be
/// well formed and a strict sub-range of the `u8` domain on at least one
/// side, so that its size fits in a `u8`.
pub fn guard_arithmetics(min: u8, max: u8) -> (r: bool)
    ensures
        r <==> ((min > u8::MIN || max < u8::MAX) && min < max),
{
    (min > u8::MIN || max < u8::MAX) && guard_range(min, max)
}

/// Whether containers over `[min, max]` with default `def` may be
/// constructed at all: every constraint of the two guards above.
pub fn guard_construction(min: u8, max: u8, def: u8) -> (r: bool)
    ensures
        r <==> ((min > u8::MIN || max < u8::MAX) && min < max && min <= def <= max),
{
    guard_arithmetics(min, max) && guard_default(min, max, def)
}

/// This error indicates that a `u8` value violates the range's lower bound,
/// which it carries.
#[derive(Clone, Copy, Debug, PartialEq, Eq, Hash, Structural)]
pub struct MinU8Error {
    /// The minimum inclusive bound enforced by the range.
    pub min: u8,
}

/// This error indicates that a `u8` value violates the range's upper bound,
/// which it carries.
#[derive(Clone, Copy, Debug, PartialEq, Eq, Hash, Structural)]
pub struct MaxU8Error {
    /// The maximum inclusive bound enforced by the range.
    pub max: u8,
}

/// An error that indicates which range bound a `u8` value violated.
#[derive(Clone, Copy, Debug, PartialEq, Eq, Hash, Structural)]
pub enum ConstrainedU8Error {
    /// The value lies below the range's lower bound.
    Lower(MinU8Error),
    /// The value lies above the range's upper bound.
    Greater(MaxU8Error),
}

/// A validated range definition for [`ConstrainedU8`]: the triple
/// `(min, max, def)`, checked once at construction so that every container
/// built from it starts from a well-formed range.
#[derive(Clone, Copy, Debug, PartialEq, Eq, Hash, Structural)]
pub struct BoundsU8 {
    min: u8,
    max: u8,
    def: u8,
}

impl BoundsU8 {
    /// The lower inclusive bound.
    pub closed spec fn lo(&self) -> int {
        self.min as int
    }

    /// The upper inclusive bound.
    pub closed spec fn hi(&self) -> int {
        self.max as int
    }

    /// The default value.
    pub closed spec fn dv(&self) -> int {
        self.def as int
    }

    /// The lower inclusive bound, as a `u8` for spec use.
    pub closed spec fn min_spec(&self) -> u8 {
        self.min
    }

    /// The upper inclusive bound, as a `u8` for spec use.
    pub closed spec fn max_spec(&self) -> u8 {
        self.max
    }

    /// Well-formedness: the constraints checked by `guard_construction`.
    pub open spec fn wf(&self) -> bool {
        &&& self.lo() < self.hi()
        &&& self.lo() > 0 || self.hi() < u8::MAX
        &&& self.lo() <= self.dv() <= self.hi()
    }

    /// Validates a range definition.  Returns the bounds exactly when
    /// `(min, max, def)` satisfies the construction guard.
    pub fn new(min: u8, max: u8, def: u8) -> (r: Option<BoundsU8>)
        ensures
            r is Some <==> ((min > u8::MIN || max < u8::MAX) && min < max && min <= def <= max),
            r matches Some(b) ==> b.wf() && b.lo() == min && b.hi() == max && b.dv() == def,
    {
        if guard_construction(min, max, def) {
            Some(BoundsU8 { min, max, def })
        } else {
            None
        }
    }

    /// The lower inclusive bound.
    pub fn min_bound(&self) -> (r: u8)
        ensures
            r as int == self.lo(),
    {
        self.min
    }

    /// The upper inclusive bound.
    pub fn max_bound(&self) -> (r: u8)
        ensures
            r as int == self.hi(),
    {
        self.max
    }

    /// The default value.
    pub fn default_value(&self) -> (r: u8)
        ensures
            r as int == self.dv(),
    {
        self.def
    }
}

/// A `u8` value constrained within an inclusive range.
///
/// The range is fixed by the [`BoundsU8`] the container is built from, and
/// the held value always lies within it: constructors validate, clamp or
/// reject, and every arithmetic operation re-establishes the invariant.
#[derive(Clone, Copy, Debug, PartialEq, Eq, Hash, Structural)]
pub struct ConstrainedU8 {
    value: u8,
    min: u8,
    max: u8,
    def: u8,
}

impl ConstrainedU8 {
    /// The held value.
    pub closed spec fn val(&self) -> int {
        self.value as int
    }

    /// The lower inclusive bound.
    pub closed spec fn lo(&self) -> int {
        self.min as int
    }

    /// The upper inclusive bound.
    pub closed spec fn hi(&self) -> int {
        self.max as int
    }

    /// The default value.
    pub closed spec fn dv(&self) -> int {
        self.def as int
    }

    /// Well-formedness of the range the container carries.
    pub open spec fn bounds_wf(&self) -> bool {
        &&& self.lo() < self.hi()
        &&& self.lo() > 0 || self.hi() < u8::MAX
        &&& self.lo() <= self.dv() <= self.hi()
    }

    /// The container's invariant: a well-formed range holding its value.
    pub open spec fn wf(&self) -> bool {
        &&& self.bounds_wf()
        &&& self.lo() <= self.val() <= self.hi()
    }

    /// Whether two containers share one range definition.
    pub open spec fn same_bounds(&self, other: &Self) -> bool {
        self.lo() == other.lo() && self.hi() == other.hi() && self.dv() == other.dv()
    }

    /// Whether the container was built from the given bounds.
    pub open spec fn has_bounds(&self, b: &BoundsU8) -> bool {
        self.lo() == b.lo() && self.hi() == b.hi() && self.dv() == b.dv()
    }

    /// Creates a new instance with the provided value if it satisfies the
    /// range's inclusive bounds; otherwise reports which bound the value
    /// violated.
    pub fn new(bounds: &BoundsU8, value: u8) -> (r: Result<Self, ConstrainedU8Error>)
        requires
            bounds.wf(),
        ensures
            r is Ok <==> bounds.lo() <= value <= bounds.hi(),
            r matches Ok(c) ==> c.wf() && c.has_bounds(bounds) && c.val() == value,
            value > bounds.hi() ==> r == Result::<Self, ConstrainedU8Error>::Err(
                ConstrainedU8Error::Greater(MaxU8Error { max: bounds.max_spec() }),
            ),
            value < bounds.lo() ==> r == Result::<Self, ConstrainedU8Error>::Err(
                ConstrainedU8Error::Lower(MinU8Error { min: bounds.min_spec() }),
            ),
    {
        match in_range(bounds.min, bounds.max, value) {
            Ok(_) => Ok(ConstrainedU8 { value, min: bounds.min, max: bounds.max, def: bounds.def }),
            Err(err) => Err(err),
        }
    }

    /// Creates a new instance with the provided value, clamped to the
    /// nearest bound if it lies outside the range.
    pub fn saturating_new(bounds: &BoundsU8, value: u8) -> (r: Self)
        requires
            bounds.wf(),
        ensures
            r.wf(),
            r.has_bounds(bounds),
            r.val() == clamp(bounds.lo(), bounds.hi(), value as int),
    {
        let clamped = if value > bounds.max {
            bounds.max
        } else if value < bounds.min {
            bounds.min
        } else {
            value
        };
        ConstrainedU8 { value: clamped, min: bounds.min, max: bounds.max, def: bounds.def }
    }

    /// Creates a new instance with the provided value if it satisfies the
    /// range's inclusive bounds; otherwise returns `None`.
    pub fn checked_new(bounds: &BoundsU8, value: u8) -> (r: Option<Self>)
        requires
            bounds.wf(),
        ensures
            r is Some <==> bounds.lo() <= value <= bounds.hi(),
            r matches Some(c) ==> c.wf() && c.has_bounds(bounds) && c.val() == value,
    {
        match ConstrainedU8::new(bounds, value) {
            Ok(c) => Some(c),
            Err(_) => None,
        }
    }

    /// Creates a new instance holding exactly the range's lower bound.
    pub fn new_min(bounds: &BoundsU8) -> (r: Self)
        requires
            bounds.wf(),
        ensures
            r.wf(),
            r.has_bounds(bounds),
            r.val() == bounds.lo(),
    {
        ConstrainedU8 { value: bounds.min, min: bounds.min, max: bounds.max, def: bounds.def }
    }

    /// Creates a new instance holding exactly the range's upper bound.
    pub fn new_max(bounds: &BoundsU8) -> (r: Self)
        requires
            bounds.wf(),
        ensures
            r.wf(),
            r.has_bounds(bounds),
            r.val() == bounds.hi(),
    {
        ConstrainedU8 { value: bounds.max, min: bounds.min, max: bounds.max, def: bounds.def }
    }

    /// Creates a new instance holding the range's default value.
    pub fn new_default(bounds: &BoundsU8) -> (r: Self)
        requires
            bounds.wf(),
        ensures
            r.wf(),
            r.has_bounds(bounds),
            r.val() == bounds.dv(),
    {
        ConstrainedU8 { value: bounds.def, min: bounds.min, max: bounds.max, def: bounds.def }
    }

    /// Sets the contained value if it satisfies the range's inclusive
    /// bounds; on failure the receiver is left untouched and the violated
    /// bound is reported.
    pub fn set(&mut self, value: u8) -> (r: Result<(), ConstrainedU8Error>)
        requires
            old(self).wf(),
        ensures
            final(self).wf(),
            final(self).same_bounds(old(self)),
            r is Ok <==> old(self).lo() <= value <= old(self).hi(),
            r is Ok ==> final(self).val() == value,
            r is Err ==> *final(self) == *old(self),
            value > old(self).hi() ==> r == Result::<(), ConstrainedU8Error>::Err(
                ConstrainedU8Error::Greater(MaxU8Error { max: old(self).max_spec() }),
            ),
            value < old(self).lo() ==> r == Result::<(), ConstrainedU8Error>::Err(
                ConstrainedU8Error::Lower(MinU8Error { min: old(self).min_spec() }),
            ),
    {
        match in_range(self.min, self.max, value) {
            Ok(_) => {
                self.value = value;
                Ok(())
            },
            Err(err) => Err(err),
        }
    }

    /// Returns the value of the contained integer.
    pub fn get(&self) -> (r: u8)
        ensures
            r as int == self.val(),
    {
        self.value
    }

    /// The lower inclusive bound, as a `u8` for spec use.
    pub closed spec fn min_spec(&self) -> u8 {
        self.min
    }

    /// The upper inclusive bound, as a `u8` for spec use.
    pub closed spec fn max_spec(&self) -> u8 {
        self.max
    }

    /// The range's lower inclusive bound.
    pub fn min_bound(&self) -> (r: u8)
        ensures
            r as int == self.lo(),
    {
        self.min
    }

    /// The range's upper inclusive bound.
    pub fn max_bound(&self) -> (r: u8)
        ensures
            r as int == self.hi(),
    {
        self.max
    }

    /// The range's default value.
    pub fn default_value(&self) -> (r: u8)
        ensures
            r as int == self.dv(),
    {
        self.def
    }

    /// The inclusive range itself, as its pair of bounds.
    pub fn range(&self) -> (r: (u8, u8))
        ensures
            r.0 as int == self.lo(),
            r.1 as int == self.hi(),
    {
        (self.min, self.max)
    }
}

impl ConstrainedU8 {
    /// The range's size `max - min + 1`, the modulus of its wrapping
    /// arithmetic.  Representable in `u8` by well-formedness.
    fn range_len(&self) -> (r: u8)
        requires
            self.bounds_wf(),
        ensures
            r as int == range_size(self.lo(), self.hi()),
    {
        self.max - self.min + 1
    }

    /// Builds the container holding `value` over the same range.
    fn with_value(&self, value: u8) -> (r: Self)
        requires
            self.bounds_wf(),
            self.lo() <= value <= self.hi(),
        ensures
            r.wf(),
            r.same_bounds(self),
            r.val() == value,
    {
        ConstrainedU8 { value, min: self.min, max: self.max, def: self.def }
    }

    /// Wraps a value that overshot the range's upper bound (but not the
    /// primitive's) back around the lower bound.
    fn wrap_around_max(&self, value: u8) -> (r: Self)
        requires
            self.bounds_wf(),
            value > self.hi(),
        ensures
            r.wf(),
            r.same_bounds(self),
            r.val() == wrap_into(self.lo(), self.hi(), value as int),
    {
        let rs = self.range_len();
        let offset = (value - self.max - 1) % rs;
        proof {
            let rsi = range_size(self.lo(), self.hi());
            let d = value - self.max_spec() - 1;
            lemma_mod_division_less_than_divisor(d as int, rsi);
            lemma_fundamental_div_mod(d as int, rsi);
            let q = d as int / rsi;
            assert(value as int - self.lo() == (q + 1) * rsi + (d as int % rsi)) by (nonlinear_arith)
                requires
                    d == value - self.max_spec() - 1,
                    self.max_spec() as int == self.lo() + rsi - 1,
                    d as int == rsi * q + (d as int % rsi),
            ;
            lemma_wrap_into_rep(
                self.lo(),
                self.hi(),
                value as int,
                q + 1,
                self.lo() + (d as int % rsi),
            );
        }
        self.with_value(self.min + offset)
    }

    /// Wraps a value that undershot the range's lower bound (but not the
    /// primitive's) back around the upper bound.
    fn wrap_around_min(&self, value: u8) -> (r: Self)
        requires
            self.bounds_wf(),
            value < self.lo(),
        ensures
            r.wf(),
            r.same_bounds(self),
            r.val() == wrap_into(self.lo(), self.hi(), value as int),
    {
        let rs = self.range_len();
        let offset = (self.min - value - 1) % rs;
        proof {
            let rsi = range_size(self.lo(), self.hi());
            let d = self.min_spec() - value - 1;
            lemma_mod_division_less_than_divisor(d as int, rsi);
            lemma_fundamental_div_mod(d as int, rsi);
            let q = d as int / rsi;
            let v = self.hi() - (d as int % rsi);
            assert(value as int - self.lo() == (-q - 1) * rsi + (v - self.lo())) by (nonlinear_arith)
                requires
                    d == self.min_spec() - value - 1,
                    self.hi() == self.lo() + rsi - 1,
                    v == self.hi() - (d as int % rsi),
                    d as int == rsi * q + (d as int % rsi),
            ;
            lemma_wrap_into_rep(self.lo(), self.hi(), value as int, -q - 1, v);
        }
        self.with_value(self.max - offset)
    }

    /// From the value a `u8` addition wrapped to, computes the container
    /// wrapping the primitive's upper extreme into the range and the
    /// unconsumed remainder of the right-hand side, so that a final
    /// wrapping addition of the pair finishes the operation.
    fn wrap_around_max_over(&self, value: u8) -> (r: (Self, u8))
        requires
            self.bounds_wf(),
            value < u8::MAX,
        ensures
            r.0.wf(),
            r.0.same_bounds(self),
            r.1 < range_size(self.lo(), self.hi()),
            (r.0.val() + r.1 - (value + 256)) % range_size(self.lo(), self.hi()) == 0,
            r.1 <= value + 1,
            self.hi() == u8::MAX ==> r.1 <= value,
    {
        let rs = self.range_len();
        if u8::MAX > self.max {
            let c = self.wrap_around_max(u8::MAX);
            let rem = (value + 1) % rs;
            proof {
                let rsi = range_size(self.lo(), self.hi());
                lemma_mod_le_self(value + 1, rsi);
                lemma_mod_division_less_than_divisor(value + 1, rsi);
                lemma_fundamental_div_mod(value + 1, rsi);
                lemma_fundamental_div_mod(u8::MAX - self.lo(), rsi);
                let qm = (u8::MAX - self.lo()) / rsi;
                let qv = (value + 1) / rsi;
                assert(c.val() + rem - (value + 256) == (-qm - qv) * rsi) by (nonlinear_arith)
                    requires
                        c.val() == self.lo() + (u8::MAX - self.lo()) % rsi,
                        u8::MAX - self.lo() == rsi * qm + (u8::MAX - self.lo()) % rsi,
                        rem as int == (value + 1) % rsi,
                        value + 1 == rsi * qv + (value + 1) % rsi,
                ;
                lemma_multiple_mod_zero(c.val() + rem - (value + 256), -qm - qv, rsi);
            }
            (c, rem)
        } else {
            let c = self.with_value(self.min);
            let rem = value % rs;
            proof {
                let rsi = range_size(self.lo(), self.hi());
                lemma_mod_le_self(value as int, rsi);
                lemma_mod_division_less_than_divisor(value as int, rsi);
                lemma_fundamental_div_mod(value as int, rsi);
                let qv = value as int / rsi;
                assert(c.val() + rem - (value + 256) == (-qv - 1) * rsi) by (nonlinear_arith)
                    requires
                        c.val() == self.lo(),
                        self.lo() == 256 - rsi,
                        rem as int == value as int % rsi,
                        value as int == rsi * qv + value as int % rsi,
                ;
                lemma_multiple_mod_zero(c.val() + rem - (value + 256), -qv - 1, rsi);
            }
            (c, rem)
        }
    }

    /// From the value a `u8` subtraction wrapped to, computes the container
    /// wrapping the primitive's lower extreme into the range and the
    /// unconsumed remainder of the right-hand side, so that a final
    /// wrapping subtraction of the pair finishes the operation.
    fn wrap_around_min_over(&self, value: u8) -> (r: (Self, u8))
        requires
            self.bounds_wf(),
            value > u8::MIN,
        ensures
            r.0.wf(),
            r.0.same_bounds(self),
            r.1 < range_size(self.lo(), self.hi()),
            (r.0.val() - r.1 - (value - 256)) % range_size(self.lo(), self.hi()) == 0,
            r.1 <= 256 - value,
            self.lo() == 0 ==> r.1 <= 255 - value,
    {
        let rs = self.range_len();
        let dist = u8::MAX - value;
        if u8::MIN < self.min {
            let c = self.wrap_around_min(u8::MIN);
            let rem = (dist + 1) % rs;
            proof {
                let rsi = range_size(self.lo(), self.hi());
                lemma_mod_le_self(dist + 1, rsi);
                lemma_mod_division_less_than_divisor(dist + 1, rsi);
                lemma_fundamental_div_mod(dist + 1, rsi);
                lemma_fundamental_div_mod(0 - self.lo(), rsi);
                let q0 = (0 - self.lo()) / rsi;
                let qv = (dist + 1) / rsi;
                assert(c.val() - rem - (value - 256) == (qv - q0) * rsi) by (nonlinear_arith)
                    requires
                        dist == u8::MAX - value,
                        c.val() == self.lo() + (0 - self.lo()) % rsi,
                        0 - self.lo() == rsi * q0 + (0 - self.lo()) % rsi,
                        rem as int == (dist + 1) % rsi,
                        dist + 1 == rsi * qv + (dist + 1) % rsi,
                ;
                lemma_multiple_mod_zero(c.val() - rem - (value - 256), qv - q0, rsi);
            }
            (c, rem)
        } else {
            let c = self.with_value(self.max);
            let rem = dist % rs;
            proof {
                let rsi = range_size(self.lo(), self.hi());
                lemma_mod_le_self(dist as int, rsi);
                lemma_mod_division_less_than_divisor(dist as int, rsi);
                lemma_fundamental_div_mod(dist as int, rsi);
                let qv = dist as int / rsi;
                assert(c.val() - rem - (value - 256) == (qv + 1) * rsi) by (nonlinear_arith)
                    requires
                        dist == u8::MAX - value,
                        c.val() == self.hi(),
                        self.lo() == 0,
                        self.hi() == self.lo() + rsi - 1,
                        rem as int == dist as int % rsi,
                        dist as int == rsi * qv + dist as int % rsi,
                ;
                lemma_multiple_mod_zero(c.val() - rem - (value - 256), qv + 1, rsi);
            }
            (c, rem)
        }
    }
}

impl ConstrainedU8 {
    /// Handles a `u8`-overflowed addition: wraps the primitive's upper
    /// extreme into the range and finishes with the unconsumed remainder.
    fn overflowed_add(&self, wrapped: u8) -> (r: Self)
        requires
            self.wf(),
            wrapped < u8::MAX,
        ensures
            r.wf(),
            r.same_bounds(self),
            r.val() == wrap_into(self.lo(), self.hi(), wrapped + 256),
    {
        let (this, rhs) = self.wrap_around_max_over(wrapped);
        let r = this.wrapping_add(rhs);
        proof {
            lemma_wrap_into_congruent_mod(
                self.lo(),
                self.hi(),
                this.val() + rhs,
                wrapped + 256,
            );
        }
        r
    }

    /// Handles a `u8`-overflowed subtraction: wraps the primitive's lower
    /// extreme into the range and finishes with the unconsumed remainder.
    fn overflowed_sub(&self, wrapped: u8) -> (r: Self)
        requires
            self.wf(),
            wrapped > u8::MIN,
        ensures
            r.wf(),
            r.same_bounds(self),
            r.val() == wrap_into(self.lo(), self.hi(), wrapped - 256),
    {
        let (this, rhs) = self.wrap_around_min_over(wrapped);
        let r = this.wrapping_sub(rhs);
        proof {
            lemma_wrap_into_congruent_mod(
                self.lo(),
                self.hi(),
                this.val() - rhs,
                wrapped - 256,
            );
        }
        r
    }

    /// Handles a `u8`-overflowed addition of a signed right-hand side,
    /// which overflowed upward if the operand was positive and downward
    /// otherwise.
    fn overflowed_add_signed(&self, wrapped: u8, is_pos: bool) -> (r: Self)
        requires
            self.wf(),
            is_pos ==> wrapped < u8::MAX,
            !is_pos ==> wrapped > u8::MIN,
        ensures
            r.wf(),
            r.same_bounds(self),
            is_pos ==> r.val() == wrap_into(self.lo(), self.hi(), wrapped + 256),
            !is_pos ==> r.val() == wrap_into(self.lo(), self.hi(), wrapped - 256),
    {
        if is_pos {
            self.overflowed_add(wrapped)
        } else {
            self.overflowed_sub(wrapped)
        }
    }

    /// Wrapping (modular) addition.  Computes `self + rhs`, wrapping around
    /// at the range's upper bound.
    pub fn wrapping_add(self, rhs: u8) -> (r: Self)
        requires
            self.wf(),
        ensures
            r.wf(),
            r.same_bounds(&self),
            r.val() == wrap_into(self.lo(), self.hi(), self.val() + rhs),
        decreases rhs,
    {
        let value = self.value.wrapping_add(rhs);
        let overflowed = self.value.checked_add(rhs).is_none();
        if !overflowed {
            if value <= self.max {
                proof {
                    lemma_wrap_into_fixed(self.lo(), self.hi(), self.val() + rhs);
                }
                self.with_value(value)
            } else {
                self.wrap_around_max(value)
            }
        } else {
            let (this, rem) = self.wrap_around_max_over(value);
            let r = this.wrapping_add(rem);
            proof {
                lemma_wrap_into_congruent_mod(
                    self.lo(),
                    self.hi(),
                    this.val() + rem,
                    self.val() + rhs,
                );
            }
            r
        }
    }

    /// Wrapping (modular) subtraction.  Computes `self - rhs`, wrapping
    /// around at the range's lower bound.
    pub fn wrapping_sub(self, rhs: u8) -> (r: Self)
        requires
            self.wf(),
        ensures
            r.wf(),
            r.same_bounds(&self),
            r.val() == wrap_into(self.lo(), self.hi(), self.val() - rhs),
        decreases rhs,
    {
        let value = self.value.wrapping_sub(rhs);
        let overflowed = self.value.checked_sub(rhs).is_none();
        if !overflowed {
            if value >= self.min {
                proof {
                    lemma_wrap_into_fixed(self.lo(), self.hi(), self.val() - rhs);
                }
                self.with_value(value)
            } else {
                self.wrap_around_min(value)
            }
        } else {
            let (this, rem) = self.wrap_around_min_over(value);
            let r = this.wrapping_sub(rem);
            proof {
                lemma_wrap_into_congruent_mod(
                    self.lo(),
                    self.hi(),
                    this.val() - rem,
                    self.val() - rhs,
                );
            }
            r
        }
    }

    /// Wrapping (modular) addition of a signed right-hand side.  Computes
    /// `self + rhs`, wrapping around the upper bound for positive operands
    /// and around the lower bound for negative ones.
    pub fn wrapping_add_signed(self, rhs: i8) -> (r: Self)
        requires
            self.wf(),
        ensures
            r.wf(),
            r.same_bounds(&self),
            r.val() == wrap_into(self.lo(), self.hi(), self.val() + rhs),
    {
        let value = self.value.wrapping_add_signed(rhs);
        let overflowed = self.value.checked_add_signed(rhs).is_none();
        if !overflowed {
            if value >= self.min && value <= self.max {
                proof {
                    lemma_wrap_into_fixed(self.lo(), self.hi(), self.val() + rhs);
                }
                self.with_value(value)
            } else if value > self.max {
                self.wrap_around_max(value)
            } else {
                self.wrap_around_min(value)
            }
        } else {
            self.overflowed_add_signed(value, rhs > 0)
        }
    }

    /// Wrapping (modular) addition, also reporting whether the result
    /// wrapped around the range.
    pub fn overflowing_add(self, rhs: u8) -> (r: (Self, bool))
        requires
            self.wf(),
        ensures
            r.0.wf(),
            r.0.same_bounds(&self),
            r.0.val() == wrap_into(self.lo(), self.hi(), self.val() + rhs),
            r.1 <==> self.val() + rhs > self.hi(),
    {
        let value = self.value.wrapping_add(rhs);
        let overflowed = self.value.checked_add(rhs).is_none();
        if !overflowed {
            if value <= self.max {
                proof {
                    lemma_wrap_into_fixed(self.lo(), self.hi(), self.val() + rhs);
                }
                (self.with_value(value), false)
            } else {
                (self.wrap_around_max(value), true)
            }
        } else {
            (self.overflowed_add(value), true)
        }
    }

    /// Wrapping (modular) subtraction, also reporting whether the result
    /// wrapped around the range.
    pub fn overflowing_sub(self, rhs: u8) -> (r: (Self, bool))
        requires
            self.wf(),
        ensures
            r.0.wf(),
            r.0.same_bounds(&self),
            r.0.val() == wrap_into(self.lo(), self.hi(), self.val() - rhs),
            r.1 <==> self.val() - rhs < self.lo(),
    {
        let value = self.value.wrapping_sub(rhs);
        let overflowed = self.value.checked_sub(rhs).is_none();
        if !overflowed {
            if value >= self.min {
                proof {
                    lemma_wrap_into_fixed(self.lo(), self.hi(), self.val() - rhs);
                }
                (self.with_value(value), false)
            } else {
                (self.wrap_around_min(value), true)
            }
        } else {
            (self.overflowed_sub(value), true)
        }
    }

    /// Wrapping (modular) addition of a signed right-hand side, also
    /// reporting whether the result wrapped around the range.
    pub fn overflowing_add_signed(self, rhs: i8) -> (r: (Self, bool))
        requires
            self.wf(),
        ensures
            r.0.wf(),
            r.0.same_bounds(&self),
            r.0.val() == wrap_into(self.lo(), self.hi(), self.val() + rhs),
            r.1 <==> !(self.lo() <= self.val() + rhs <= self.hi()),
    {
        let value = self.value.wrapping_add_signed(rhs);
        let overflowed = self.value.checked_add_signed(rhs).is_none();
        if !overflowed {
            if value >= self.min && value <= self.max {
                proof {
                    lemma_wrap_into_fixed(self.lo(), self.hi(), self.val() + rhs);
                }
                (self.with_value(value), false)
            } else if value > self.max {
                (self.wrap_around_max(value), true)
            } else {
                (self.wrap_around_min(value), true)
            }
        } else {
            (self.overflowed_add_signed(value, rhs > 0), true)
        }
    }

    /// Checked integer addition.  Computes `self + rhs`, returning `None`
    /// if the result is greater than the range's upper bound.
    pub fn checked_add(self, rhs: u8) -> (r: Option<Self>)
        requires
            self.wf(),
        ensures
            r is Some <==> self.val() + rhs <= self.hi(),
            r matches Some(c) ==> c.wf() && c.same_bounds(&self) && c.val() == self.val() + rhs,
    {
        match self.value.checked_add(rhs) {
            Some(value) if value <= self.max => Some(self.with_value(value)),
            _ => None,
        }
    }

    /// Checked addition of a signed right-hand side.  Computes `self + rhs`,
    /// returning `None` if the result is out of the range's bounds.
    pub fn checked_add_signed(self, rhs: i8) -> (r: Option<Self>)
        requires
            self.wf(),
        ensures
            r is Some <==> self.lo() <= self.val() + rhs <= self.hi(),
            r matches Some(c) ==> c.wf() && c.same_bounds(&self) && c.val() == self.val() + rhs,
    {
        match self.value.checked_add_signed(rhs) {
            Some(value) if value >= self.min && value <= self.max => Some(self.with_value(value)),
            _ => None,
        }
    }

    /// Checked integer subtraction.  Computes `self - rhs`, returning
    /// `None` if the result is lower than the range's lower bound.
    pub fn checked_sub(self, rhs: u8) -> (r: Option<Self>)
        requires
            self.wf(),
        ensures
            r is Some <==> self.val() - rhs >= self.lo(),
            r matches Some(c) ==> c.wf() && c.same_bounds(&self) && c.val() == self.val() - rhs,
    {
        match self.value.checked_sub(rhs) {
            Some(value) if value >= self.min => Some(self.with_value(value)),
            _ => None,
        }
    }

    /// Fallible integer addition.  Computes `self + rhs`, reporting the
    /// upper bound if the result would exceed it.
    pub fn try_add(self, rhs: u8) -> (r: Result<Self, MaxU8Error>)
        requires
            self.wf(),
        ensures
            r is Ok <==> self.val() + rhs <= self.hi(),
            r matches Ok(c) ==> c.wf() && c.same_bounds(&self) && c.val() == self.val() + rhs,
            r is Err ==> r == Result::<Self, MaxU8Error>::Err(MaxU8Error { max: self.max_spec() }),
    {
        match self.checked_add(rhs) {
            Some(this) => Ok(this),
            None => Err(MaxU8Error { max: self.max }),
        }
    }

    /// Fallible addition of a signed right-hand side.  Computes
    /// `self + rhs`; when it fails the reported bound is chosen from the
    /// operand's sign: the upper bound for a positive operand, the lower
    /// bound otherwise.
    pub fn try_add_signed(self, rhs: i8) -> (r: Result<Self, ConstrainedU8Error>)
        requires
            self.wf(),
        ensures
            r is Ok <==> self.lo() <= self.val() + rhs <= self.hi(),
            r matches Ok(c) ==> c.wf() && c.same_bounds(&self) && c.val() == self.val() + rhs,
            r is Err && rhs > 0 ==> r == Result::<Self, ConstrainedU8Error>::Err(
                ConstrainedU8Error::Greater(MaxU8Error { max: self.max_spec() }),
            ),
            r is Err && rhs <= 0 ==> r == Result::<Self, ConstrainedU8Error>::Err(
                ConstrainedU8Error::Lower(MinU8Error { min: self.min_spec() }),
            ),
    {
        match self.checked_add_signed(rhs) {
            Some(this) => Ok(this),
            None if rhs > 0 => Err(ConstrainedU8Error::Greater(MaxU8Error { max: self.max })),
            None => Err(ConstrainedU8Error::Lower(MinU8Error { min: self.min })),
        }
    }

    /// Fallible integer subtraction.  Computes `self - rhs`, reporting the
    /// lower bound if the result would fall below it.
    pub fn try_sub(self, rhs: u8) -> (r: Result<Self, MinU8Error>)
        requires
            self.wf(),
        ensures
            r is Ok <==> self.val() - rhs >= self.lo(),
            r matches Ok(c) ==> c.wf() && c.same_bounds(&self) && c.val() == self.val() - rhs,
            r is Err ==> r == Result::<Self, MinU8Error>::Err(MinU8Error { min: self.min_spec() }),
    {
        match self.checked_sub(rhs) {
            Some(this) => Ok(this),
            None => Err(MinU8Error { min: self.min }),
        }
    }

    /// Saturating integer addition.  Computes `self + rhs`, saturating at
    /// the range's upper bound.
    pub fn saturating_add(self, rhs: u8) -> (r: Self)
        requires
            self.wf(),
        ensures
            r.wf(),
            r.same_bounds(&self),
            r.val() == clamp(self.lo(), self.hi(), self.val() + rhs),
    {
        match self.checked_add(rhs) {
            Some(this) => this,
            None => self.with_value(self.max),
        }
    }

    /// Saturating addition of a signed right-hand side.  Computes
    /// `self + rhs`, saturating at the upper bound for positive operands
    /// and at the lower bound for negative ones.
    pub fn saturating_add_signed(self, rhs: i8) -> (r: Self)
        requires
            self.wf(),
        ensures
            r.wf(),
            r.same_bounds(&self),
            r.val() == clamp(self.lo(), self.hi(), self.val() + rhs),
    {
        match self.checked_add_signed(rhs) {
            Some(this) => this,
            None if rhs > 0 => self.with_value(self.max),
            None => self.with_value(self.min),
        }
    }

    /// Saturating integer subtraction.  Computes `self - rhs`, saturating
    /// at the range's lower bound.
    pub fn saturating_sub(self, rhs: u8) -> (r: Self)
        requires
            self.wf(),
        ensures
            r.wf(),
            r.same_bounds(&self),
            r.val() == clamp(self.lo(), self.hi(), self.val() - rhs),
    {
        match self.checked_sub(rhs) {
            Some(this) => this,
            None => self.with_value(self.min),
        }
    }
}

/// Range invariant: for every well-formed container, the value every
/// wrapping or saturating operation returns — `wrap_into` or `clamp` of the
/// unbounded result, as their contracts state — lies within `[min, max]`,
/// for any right-hand side whatsoever.  Wrapping and saturating arithmetic
/// is therefore total: no operand, including the primitive's extremes, can
/// make it fail.
pub proof fn lemma_ops_stay_in_range(c: ConstrainedU8, rhs: int)
    requires
        c.wf(),
    ensures
        crate::wrap_math::in_range(c.lo(), c.hi(), wrap_into(c.lo(), c.hi(), c.val() + rhs)),
        crate::wrap_math::in_range(c.lo(), c.hi(), wrap_into(c.lo(), c.hi(), c.val() - rhs)),
        crate::wrap_math::in_range(c.lo(), c.hi(), clamp(c.lo(), c.hi(), c.val() + rhs)),
        crate::wrap_math::in_range(c.lo(), c.hi(), clamp(c.lo(), c.hi(), c.val() - rhs)),
{
    lemma_wrap_into_in_range(c.lo(), c.hi(), c.val() + rhs);
    lemma_wrap_into_in_range(c.lo(), c.hi(), c.val() - rhs);
}

/// Checked/range agreement: a checked addition succeeds — its contract says
/// exactly when `self + rhs <= max` — if and only if the primitive `u8`
/// checked addition succeeds and its result lies within the range.
pub proof fn lemma_checked_add_agrees_with_range(c: ConstrainedU8, rhs: u8)
    requires
        c.wf(),
    ensures
        (c.val() + rhs <= c.hi()) <==> (c.val() + rhs <= u8::MAX && crate::wrap_math::in_range(
            c.lo(),
            c.hi(),
            c.val() + rhs,
        )),
{
}

/// Overflowing consistency: the flag `overflowing_add` and
/// `overflowing_sub` return beside the wrapped value — their contracts pin
/// the value to the very `wrap_into` of the wrapping operations — is set
/// exactly when wrapping moved the result away from the unbounded sum,
/// which is also exactly when the checked counterpart returns `None`.
pub proof fn lemma_overflowing_matches_wrapping(c: ConstrainedU8, rhs: u8)
    requires
        c.wf(),
    ensures
        (c.val() + rhs > c.hi()) <==> wrap_into(c.lo(), c.hi(), c.val() + rhs) != c.val() + rhs,
        (c.val() - rhs < c.lo()) <==> wrap_into(c.lo(), c.hi(), c.val() - rhs) != c.val() - rhs,
{
    lemma_wrap_into_in_range(c.lo(), c.hi(), c.val() + rhs);
    lemma_wrap_into_in_range(c.lo(), c.hi(), c.val() - rhs);
    if c.val() + rhs <= c.hi() {
        lemma_wrap_into_fixed(c.lo(), c.hi(), c.val() + rhs);
    }
    if c.val() - rhs >= c.lo() {
        lemma_wrap_into_fixed(c.lo(), c.hi(), c.val() - rhs);
    }
}

/// Round trip at the boundaries: a wrapping addition of `1` applied
/// `range_size` times returns the container's value to where it started.
pub proof fn lemma_wrapping_add_one_cycle(c: ConstrainedU8)
    requires
        c.wf(),
    ensures
        crate::wrap_math::iter_wrap_add_one(
            c.lo(),
            c.hi(),
            c.val(),
            range_size(c.lo(), c.hi()) as nat,
        ) == c.val(),
{
    crate::wrap_math::lemma_wrap_add_one_cycle(c.lo(), c.hi(), c.val());
}

/// Checks a value against the range, reporting which bound it violated.
fn in_range(min: u8, max: u8, value: u8) -> (r: Result<(), ConstrainedU8Error>)
    requires
        min <= max,
    ensures
        r is Ok <==> min <= value <= max,
        value > max ==> r == Result::<(), ConstrainedU8Error>::Err(
            ConstrainedU8Error::Greater(MaxU8Error { max }),
        ),
        value < min ==> r == Result::<(), ConstrainedU8Error>::Err(
            ConstrainedU8Error::Lower(MinU8Error { min }),
        ),
{
    if value > max {
        Err(ConstrainedU8Error::Greater(MaxU8Error { max }))
    } else if value < min {
        Err(ConstrainedU8Error::Lower(MinU8Error { min }))
    } else {
        Ok(())
    }
}

} // verus!
