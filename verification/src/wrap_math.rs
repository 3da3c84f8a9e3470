//! The mathematical model of range-constrained arithmetic.
//!
//! A range is the closed interval `[min, max]` of integers.  Arithmetic on a
//! constrained container behaves as if it were carried out over the
//! unbounded integers and the result were then mapped back into the range by
//! one of three policies: rejection (checked and fallible operations),
//! clamping (saturating operations), or modular reduction around the range
//! (wrapping operations).  This module defines those mappings over `int` and
//! proves the facts about modular reduction that the engine needs.

use vstd::arithmetic::div_mod::lemma_fundamental_div_mod;
use vstd::arithmetic::div_mod::lemma_fundamental_div_mod_converse_mod;
use vstd::arithmetic::div_mod::lemma_mod_division_less_than_divisor;
use vstd::arithmetic::div_mod::lemma_small_mod;
use vstd::prelude::*;

verus! {

/// The number of values in the closed range `[min, max]`, the modulus of all
/// wrapping arithmetic.
pub open spec fn range_size(min: int, max: int) -> int {
    max - min + 1
}

/// Whether `x` lies within the closed range `[min, max]`.
pub open spec fn in_range(min: int, max: int, x: int) -> bool {
    min <= x <= max
}

/// The member of `[min, max]` congruent to `x` modulo the range's size: the
/// result of wrapping arithmetic whose unbounded result is `x`.
pub open spec fn wrap_into(min: int, max: int, x: int) -> int {
    min + (x - min) % range_size(min, max)
}

/// The member of `[min, max]` nearest to `x`: the result of saturating
/// arithmetic whose unbounded result is `x`.
pub open spec fn clamp(min: int, max: int, x: int) -> int {
    if x < min {
        min
    } else if x > max {
        max
    } else {
        x
    }
}

/// Wrapping arithmetic is total: whatever integer the unbounded operation
/// produced, the wrapped result lies within the range.
pub proof fn lemma_wrap_into_in_range(min: int, max: int, x: int)
    requires
        min < max,
    ensures
        in_range(min, max, wrap_into(min, max, x)),
{
    lemma_mod_division_less_than_divisor(x - min, range_size(min, max));
}

/// An in-range value is a fixed point of wrapping: reduction only moves
/// values that actually overshot the range.
pub proof fn lemma_wrap_into_fixed(min: int, max: int, x: int)
    requires
        min < max,
        in_range(min, max, x),
    ensures
        wrap_into(min, max, x) == x,
{
    lemma_small_mod((x - min) as nat, range_size(min, max) as nat);
}

/// The defining property of `wrap_into`, in converse form: an in-range value
/// `v` that differs from `x` by a whole number `q` of range sizes is the
/// wrapped image of `x`.  Each step of the wrap engine exhibits such a `q`.
pub proof fn lemma_wrap_into_rep(min: int, max: int, x: int, q: int, v: int)
    requires
        min < max,
        in_range(min, max, v),
        x - min == q * range_size(min, max) + (v - min),
    ensures
        wrap_into(min, max, x) == v,
{
    lemma_fundamental_div_mod_converse_mod(x - min, range_size(min, max), q, v - min);
}

/// Two integers congruent modulo the range size wrap to the same member of
/// the range.
pub proof fn lemma_wrap_into_congruent(min: int, max: int, x: int, y: int, q: int)
    requires
        min < max,
        x - y == q * range_size(min, max),
    ensures
        wrap_into(min, max, x) == wrap_into(min, max, y),
{
    let rs = range_size(min, max);
    lemma_fundamental_div_mod(y - min, rs);
    lemma_mod_division_less_than_divisor(y - min, rs);
    let v = min + (y - min) % rs;
    let qy = (y - min) / rs;
    assert(x - min == (q + qy) * rs + (v - min)) by (nonlinear_arith)
        requires
            x - y == q * rs,
            y - min == qy * rs + (v - min),
    ;
    lemma_wrap_into_rep(min, max, x, q + qy, v);
    lemma_wrap_into_rep(min, max, y, qy, v);
}

/// The same congruence, stated through a vanishing remainder instead of an
/// explicit quotient.
pub proof fn lemma_wrap_into_congruent_mod(min: int, max: int, x: int, y: int)
    requires
        min < max,
        (x - y) % range_size(min, max) == 0,
    ensures
        wrap_into(min, max, x) == wrap_into(min, max, y),
{
    let rs = range_size(min, max);
    lemma_fundamental_div_mod(x - y, rs);
    assert(x - y == ((x - y) / rs) * rs) by (nonlinear_arith)
        requires
            x - y == rs * ((x - y) / rs) + (x - y) % rs,
            (x - y) % rs == 0,
    ;
    lemma_wrap_into_congruent(min, max, x, y, (x - y) / rs);
}

/// Wrapping first and then adding `a` gives the same result as adding `a`
/// to the unbounded value and wrapping once.
pub proof fn lemma_wrap_into_rewrap(min: int, max: int, x: int, a: int)
    requires
        min < max,
    ensures
        wrap_into(min, max, wrap_into(min, max, x) + a) == wrap_into(min, max, x + a),
{
    let rs = range_size(min, max);
    lemma_fundamental_div_mod(x - min, rs);
    let q = (x - min) / rs;
    assert((wrap_into(min, max, x) + a) - (x + a) == (-q) * rs) by (nonlinear_arith)
        requires
            x - min == rs * q + (x - min) % rs,
            wrap_into(min, max, x) == min + (x - min) % rs,
    ;
    lemma_wrap_into_congruent(min, max, wrap_into(min, max, x) + a, x + a, -q);
}

/// A whole multiple of the modulus leaves no remainder.
pub proof fn lemma_multiple_mod_zero(x: int, q: int, m: int)
    requires
        m > 0,
        x == q * m,
    ensures
        x % m == 0,
{
    vstd::arithmetic::div_mod::lemma_mod_multiples_basic(q, m);
}

/// The remainder of a non-negative value never exceeds the value.
pub proof fn lemma_mod_le_self(x: int, m: int)
    requires
        x >= 0,
        m > 0,
    ensures
        0 <= x % m <= x,
{
    lemma_fundamental_div_mod(x, m);
    lemma_mod_division_less_than_divisor(x, m);
    vstd::arithmetic::div_mod::lemma_div_pos_is_pos(x, m);
    assert(m * (x / m) >= 0) by (nonlinear_arith)
        requires
            m > 0,
            x / m >= 0,
    ;
}

/// The unbounded value `x` advanced `n` times by a wrapping increment.
pub open spec fn iter_wrap_add_one(min: int, max: int, x: int, n: nat) -> int
    decreases n,
{
    if n == 0 {
        x
    } else {
        wrap_into(min, max, iter_wrap_add_one(min, max, x, (n - 1) as nat) + 1)
    }
}

/// After at least one wrapping increment, iterating collapses to a single
/// wrap of the unbounded sum.
pub proof fn lemma_iter_wrap_add_one(min: int, max: int, x: int, n: nat)
    requires
        min < max,
        n >= 1,
    ensures
        iter_wrap_add_one(min, max, x, n) == wrap_into(min, max, x + n),
    decreases n,
{
    if n == 1 {
        assert(iter_wrap_add_one(min, max, x, 0) == x);
    } else {
        lemma_iter_wrap_add_one(min, max, x, (n - 1) as nat);
        lemma_wrap_into_rewrap(min, max, x + n - 1, 1);
        assert(iter_wrap_add_one(min, max, x, n) == wrap_into(
            min,
            max,
            iter_wrap_add_one(min, max, x, (n - 1) as nat) + 1,
        ));
    }
}

/// Round trip at the boundaries: a wrapping increment applied `range_size`
/// times returns an in-range value to exactly where it started.
pub proof fn lemma_wrap_add_one_cycle(min: int, max: int, x: int)
    requires
        min < max,
        in_range(min, max, x),
    ensures
        iter_wrap_add_one(min, max, x, range_size(min, max) as nat) == x,
{
    let rs = range_size(min, max);
    lemma_iter_wrap_add_one(min, max, x, rs as nat);
    lemma_wrap_into_congruent(min, max, x + rs, x, 1);
    lemma_wrap_into_fixed(min, max, x);
}

} // verus!
