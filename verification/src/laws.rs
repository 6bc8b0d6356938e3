//! The guarantees the axis quantizer gives, proved once and for all:
//! exact index round-trips, boundary behaviour, monotonicity, how the
//! two rounding policies diverge, and the degenerate single-level case.
//!
//! The degenerate law holds for every scalar type; the others are about
//! the fully specified fixed-point scalar [`PseudoFloat`], whose exact
//! arithmetic makes them provable.

use vstd::prelude::*;

use vstd::arithmetic::div_mod::{
    lemma_div_by_multiple, lemma_div_is_ordered, lemma_div_multiples_vanish,
    lemma_div_multiples_vanish_fancy, lemma_div_pos_is_pos, lemma_fundamental_div_mod,
    lemma_mod_division_less_than_divisor,
};

use crate::pseudo_float::{lemma_mag_mul, mag, round_units, tdiv, PseudoFloat, MAX_COUNT, MAX_UNITS, SCALE};
use crate::traits::FiniteFloat;
use crate::utils::quantizer::{
    axis_can_dequantize, axis_can_quantize, axis_dequantize, axis_quantize, axis_quantize_ieee754,
    spec_with_n_step,
};

verus! {

/// Truncating division is exact on multiples: `tdiv(k * d, d) == k`.
proof fn lemma_tdiv_exact(k: int, d: int)
    requires
        d != 0,
    ensures
        tdiv(k * d, d) == k,
{
    lemma_mag_mul(k, d);
    lemma_div_by_multiple(mag(k), mag(d));
    assert(mag(k) * mag(d) / mag(d) == mag(k));
}

/// Rounding a value that is already integral changes nothing.
proof fn lemma_round_units_integral(m: int)
    ensures
        round_units(m * SCALE) == m * SCALE,
{
    if m >= 0 {
        assert((SCALE as int) * m + SCALE / 2 == m * SCALE + SCALE / 2);
        lemma_div_multiples_vanish_fancy(m, SCALE / 2, SCALE as int);
    } else {
        assert(-(m * SCALE) == (-m) * SCALE);
        assert((SCALE as int) * (-m) + SCALE / 2 == (-m) * SCALE + SCALE / 2);
        lemma_div_multiples_vanish_fancy(-m, SCALE / 2, SCALE as int);
    }
}

/// Dividing a non-negative multiple of the scale back down is exact.
proof fn lemma_units_to_count(m: int)
    ensures
        (m * SCALE) / (SCALE as int) == m,
{
    assert((SCALE as int) * m == m * SCALE);
    lemma_div_multiples_vanish(m, SCALE as int);
}

/// Round-trip identity: on any non-degenerate axis, dequantizing an
/// index and quantizing the result under the nearest policy yields the
/// index back unchanged.
pub proof fn lemma_axis_round_trip(a: PseudoFloat, step: PseudoFloat, m: usize)
    requires
        a.wf(),
        step.wf(),
        !step.spec_is_zero(),
        axis_can_dequantize(a, step, m),
    ensures
        axis_quantize(a, step, axis_dequantize(a, step, m)) == m,
{
    let au = a.units as int;
    let su = step.units as int;
    let mi = m as int;
    let f = PseudoFloat::spec_from_usize(m);
    assert(f.units == mi * SCALE);
    // Multiplying the exact count by the step is exact: (m*S*su)/S == m*su.
    assert((mi * SCALE) * su == (mi * su) * SCALE) by (nonlinear_arith);
    lemma_tdiv_exact(mi * su, SCALE as int);
    let p = f.spec_mul(step);
    assert(p.units == mi * su);
    let x = axis_dequantize(a, step, m);
    assert(x.units == au + mi * su);
    let o = x.spec_sub(a);
    assert(o.units == mi * su);
    // Dividing that exact offset by the step is exact: (m*su*S)/su == m*S.
    assert((mi * su) * SCALE == (mi * SCALE) * su) by (nonlinear_arith);
    lemma_tdiv_exact(mi * SCALE, su);
    let d = o.spec_div(step);
    assert(d.units == mi * SCALE);
    lemma_round_units_integral(mi);
    assert(d.spec_round().units == mi * SCALE);
    lemma_units_to_count(mi);
}

/// Adjacent grid levels dequantize to coordinates exactly one axis
/// step apart.  Together with the round-trip law this pins the shape
/// of a dequantized search path whose hops move one level at a time:
/// consecutive coordinates differ by exactly the step of the axis that
/// moved.
pub proof fn lemma_axis_adjacent_levels(a: PseudoFloat, step: PseudoFloat, m: usize)
    requires
        a.wf(),
        step.wf(),
        m < usize::MAX,
        axis_can_dequantize(a, step, m),
        axis_can_dequantize(a, step, (m + 1) as usize),
    ensures
        axis_dequantize(a, step, (m + 1) as usize).units == axis_dequantize(a, step, m).units
            + step.units,
{
    let su = step.units as int;
    let mi = m as int;
    assert(PseudoFloat::spec_from_usize(m).units == mi * SCALE);
    assert((mi * SCALE) * su == (mi * su) * SCALE) by (nonlinear_arith);
    lemma_tdiv_exact(mi * su, SCALE as int);
    assert(axis_dequantize(a, step, m).units == a.units + mi * su);
    assert(PseudoFloat::spec_from_usize((m + 1) as usize).units == (mi + 1) * SCALE);
    assert(((mi + 1) * SCALE) * su == ((mi + 1) * su) * SCALE) by (nonlinear_arith);
    lemma_tdiv_exact((mi + 1) * su, SCALE as int);
    assert(axis_dequantize(a, step, (m + 1) as usize).units == a.units + (mi + 1) * su);
    assert((mi + 1) * su == mi * su + su) by (nonlinear_arith);
}

/// Boundary property, lower half: the lower bound itself quantizes to
/// index `0` on every well-formed axis, under both policies and
/// whatever the step: its offset is zero, and a degenerate axis
/// returns index `0` by definition.
pub proof fn lemma_axis_lower_bound(a: PseudoFloat, step: PseudoFloat)
    requires
        a.wf(),
        step.wf(),
    ensures
        axis_quantize(a, step, a) == 0,
        axis_quantize_ieee754(a, step, a) == 0,
{
    if !step.spec_is_zero() {
        let su = step.units as int;
        let oa = a.spec_sub(a);
        assert(oa.units == 0);
        lemma_tdiv_exact(0, su);
        assert(0 * su == 0) by (nonlinear_arith);
        assert(oa.spec_div(step).units == 0);
        lemma_round_units_integral(0);
        assert(0 * SCALE == 0);
        lemma_units_to_count(0);
    }
}

/// Boundary property: on an axis built from a level count whose step
/// exactly tiles the range, the lower bound quantizes to index `0` and
/// the upper bound to index `n - 1` (nearest policy).
///
/// The exact-tiling hypothesis is needed: when `n - 1` does not divide
/// the width of the range, the truncated step no longer reproduces `b`
/// at level `n - 1`.
pub proof fn lemma_axis_boundary(a: PseudoFloat, b: PseudoFloat, n: usize)
    requires
        a.wf(),
        b.wf(),
        2 <= n,
        PseudoFloat::can_from_usize((n - 1) as usize),
        b.can_sub(a),
        !spec_with_n_step(a, b, n).spec_is_zero(),
        b.units - a.units == spec_with_n_step(a, b, n).units * (n - 1),
    ensures
        axis_quantize(a, spec_with_n_step(a, b, n), a) == 0,
        axis_quantize(a, spec_with_n_step(a, b, n), b) == (n - 1) as usize,
{
    let step = spec_with_n_step(a, b, n);
    let su = step.units as int;
    let ki = (n - 1) as int;
    // The lower bound: a zero offset runs through division, rounding and
    // truncation unchanged.
    let oa = a.spec_sub(a);
    assert(oa.units == 0);
    lemma_tdiv_exact(0, su);
    assert(0 * su == 0) by (nonlinear_arith);
    assert(oa.spec_div(step).units == 0);
    lemma_round_units_integral(0);
    assert(0 * SCALE == 0);
    lemma_units_to_count(0);
    // The upper bound: its offset is exactly (n - 1) steps.
    let ob = b.spec_sub(a);
    assert(ob.units == su * ki);
    assert((su * ki) * SCALE == (ki * SCALE) * su) by (nonlinear_arith);
    lemma_tdiv_exact(ki * SCALE, su);
    assert(ob.spec_div(step).units == ki * SCALE);
    lemma_round_units_integral(ki);
    lemma_units_to_count(ki);
}

/// Monotonicity: under the nearest policy, quantization on an axis with
/// a non-negative step never swaps the order of two coordinates lying
/// within the axis range.
pub proof fn lemma_axis_monotonic(
    a: PseudoFloat,
    b: PseudoFloat,
    step: PseudoFloat,
    x1: PseudoFloat,
    x2: PseudoFloat,
)
    requires
        a.wf(),
        b.wf(),
        step.wf(),
        x1.wf(),
        x2.wf(),
        step.units >= 0,
        a.units <= x1.units,
        x1.units <= x2.units,
        x2.units <= b.units,
        axis_can_quantize(a, step, x1),
        axis_can_quantize(a, step, x2),
    ensures
        axis_quantize(a, step, x1) <= axis_quantize(a, step, x2),
{
    if step.units != 0 {
        let au = a.units as int;
        let su = step.units as int;
        let o1 = x1.units - a.units;
        let o2 = x2.units - a.units;
        let t1 = tdiv(o1 * SCALE, su);
        let t2 = tdiv(o2 * SCALE, su);
        assert(t1 == (o1 * SCALE) / su && t2 == (o2 * SCALE) / su);
        lemma_div_pos_is_pos(o1 * SCALE, su);
        lemma_div_is_ordered(o1 * SCALE, o2 * SCALE, su);
        assert(x1.spec_sub(a).spec_div(step).units == t1);
        assert(x2.spec_sub(a).spec_div(step).units == t2);
        // Rounding is monotone: both offsets round through the same
        // half-up division by the scale.
        let q1 = (t1 + SCALE / 2) / (SCALE as int);
        let q2 = (t2 + SCALE / 2) / (SCALE as int);
        lemma_div_pos_is_pos(t1 + SCALE / 2, SCALE as int);
        lemma_div_is_ordered(t1 + SCALE / 2, t2 + SCALE / 2, SCALE as int);
        assert(round_units(t1) == q1 * SCALE);
        assert(round_units(t2) == q2 * SCALE);
        // Both rounded offsets stay within the representable range.
        assert((MAX_UNITS + SCALE / 2) / (SCALE as int) == MAX_COUNT as int);
        lemma_div_is_ordered(t2 + SCALE / 2, MAX_UNITS + SCALE / 2, SCALE as int);
        assert(q1 * SCALE <= q2 * SCALE);
        assert(x1.spec_sub(a).spec_div(step).spec_round().units == q1 * SCALE);
        assert(x2.spec_sub(a).spec_div(step).spec_round().units == q2 * SCALE);
        lemma_units_to_count(q1);
        lemma_units_to_count(q2);
    }
}

/// Policy divergence: on an axis with a positive step and an in-range
/// coordinate, the nearest and the truncating policy agree exactly when
/// the fractional part of the normalized offset is below one half, and
/// differ by exactly one index when it is at or above one half.
pub proof fn lemma_axis_policy_divergence(a: PseudoFloat, step: PseudoFloat, x: PseudoFloat)
    requires
        a.wf(),
        step.wf(),
        x.wf(),
        step.units > 0,
        x.units >= a.units,
        axis_can_quantize(a, step, x),
    ensures
        ({
            let t = x.spec_sub(a).spec_div(step).units as int;
            &&& t % (SCALE as int) >= SCALE / 2 ==> axis_quantize(a, step, x) == axis_quantize_ieee754(a, step, x) + 1
            &&& t % (SCALE as int) < SCALE / 2 ==> axis_quantize(a, step, x) == axis_quantize_ieee754(a, step, x)
        }),
{
    let su = step.units as int;
    let o = x.units - a.units;
    let t = tdiv(o * SCALE, su);
    assert(t == (o * SCALE) / su);
    lemma_div_pos_is_pos(o * SCALE, su);
    assert(x.spec_sub(a).spec_div(step).units == t);
    lemma_fundamental_div_mod(t, SCALE as int);
    lemma_mod_division_less_than_divisor(t, SCALE as int);
    let q = t / (SCALE as int);
    let f = t % (SCALE as int);
    lemma_div_pos_is_pos(t, SCALE as int);
    // The truncating policy yields q directly, and q stays a count.
    assert((MAX_UNITS as int) / (SCALE as int) == MAX_COUNT as int);
    lemma_div_is_ordered(t, MAX_UNITS as int, SCALE as int);
    assert(axis_quantize_ieee754(a, step, x) == q);
    // The nearest policy divides t + SCALE/2 by the scale.
    assert((MAX_UNITS + SCALE / 2) / (SCALE as int) == MAX_COUNT as int);
    lemma_div_is_ordered(t + SCALE / 2, MAX_UNITS + SCALE / 2, SCALE as int);
    if f < SCALE / 2 {
        assert(t + SCALE / 2 == (SCALE as int) * q + (f + SCALE / 2));
        lemma_div_multiples_vanish_fancy(q, f + SCALE / 2, SCALE as int);
        assert(round_units(t) == q * SCALE);
        lemma_units_to_count(q);
    } else {
        assert(t + SCALE / 2 == (SCALE as int) * (q + 1) + (f + SCALE / 2 - SCALE));
        lemma_div_multiples_vanish_fancy(q + 1, f + SCALE / 2 - SCALE, SCALE as int);
        assert(round_units(t) == (q + 1) * SCALE);
        lemma_units_to_count(q + 1);
    }
}

/// Degenerate quantizer: an axis built with at most one level has a zero
/// step, and quantizes every input to index `0` under both policies.
/// This holds for every scalar type.
pub proof fn lemma_degenerate_axis<T: FiniteFloat>(a: T, b: T, x: T, n: usize)
    requires
        n <= 1,
    ensures
        axis_quantize(a, spec_with_n_step(a, b, n), x) == 0,
        axis_quantize_ieee754(a, spec_with_n_step(a, b, n), x) == 0,
{
    T::from_usize_zero_is_zero();
}

/// An axis whose bounds coincide is degenerate whatever its level
/// count: its step is zero, and every input quantizes to index `0`.
pub proof fn lemma_degenerate_equal_bounds(a: PseudoFloat, b: PseudoFloat, x: PseudoFloat, n: usize)
    requires
        a.units == b.units,
    ensures
        spec_with_n_step(a, b, n).spec_is_zero(),
        axis_quantize(a, spec_with_n_step(a, b, n), x) == 0,
        axis_quantize_ieee754(a, spec_with_n_step(a, b, n), x) == 0,
{
    if n <= 1 {
    } else {
        let d = ((n - 1) as int) * SCALE;
        assert(PseudoFloat::spec_from_usize((n - 1) as usize).units == d);
        let w = b.spec_sub(a);
        assert(w.units == 0);
        lemma_tdiv_exact(0, d);
        assert(0 * d == 0) by (nonlinear_arith);
    }
}

} // verus!
