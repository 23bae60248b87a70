//! Fixed-point scalars and the single-step propagation rule.
//!
//! A scalar is a `u64` counting millionths: `SCALE` is 1.0, `SCALE / 10` is
//! 0.1.  Decay values are fractions in `[0, 1]`, attenuation values lie in
//! `[0, intensity]`.  A product of two scalars is measured in `SCALE_SQ`
//! units, so one division by `SCALE_SQ` brings it back to scalar units.

use vstd::prelude::*;

verus! {

/// One whole unit (1.0) in fixed-point encoding.
pub const SCALE: u64 = 1_000_000;

/// `SCALE * SCALE`, the unit of a product of two scalars.
pub const SCALE_SQ: u64 = 1_000_000_000_000;

/// The square root of two in fixed-point units, the default multiplier
/// applied to decay across diagonal neighbor steps.
pub const DIAG_SQRT2: u64 = 1_414_214;

/// Larger of two scalars.
pub open spec fn umax(a: u64, b: u64) -> u64 {
    if a >= b {
        a
    } else {
        b
    }
}

/// The propagation rule: light of strength `a` leaving a cell of decay `d`
/// across a step scaled by `m` arrives with strength `a * (1 - d * m)`.
/// When `d * m` exceeds 1 the rule would go negative; the candidate is
/// clamped to zero, which leaves the max-merge of candidates unchanged.
pub open spec fn spec_propagate(a: u64, d: u64, m: u64) -> u64 {
    if d * m >= SCALE_SQ {
        0u64
    } else {
        ((a * (SCALE_SQ - d * m)) / (SCALE_SQ as int)) as u64
    }
}

/// Propagated light never exceeds the light at the cell it leaves.
pub proof fn lemma_propagate_le(a: u64, d: u64, m: u64)
    ensures
        spec_propagate(a, d, m) <= a,
{
    if d * m < SCALE_SQ {
        let f = SCALE_SQ - d * m;
        assert(a * f <= a * (SCALE_SQ as int)) by (nonlinear_arith)
            requires
                0 <= f <= SCALE_SQ,
                0 <= a,
        ;
        assert(a * f / (SCALE_SQ as int) <= a) by (nonlinear_arith)
            requires
                0 <= a * f <= a * (SCALE_SQ as int),
        ;
        assert(a * f / (SCALE_SQ as int) >= 0) by (nonlinear_arith)
            requires
                0 <= a * f,
        ;
    }
}

/// Computes the propagation rule exactly, in `u128` intermediates.
pub fn propagate_value(a: u64, d: u64, m: u64) -> (r: u64)
    ensures
        r == spec_propagate(a, d, m),
        r <= a,
{
    proof {
        lemma_propagate_le(a, d, m);
    }
    assert(d * m <= u64::MAX * u64::MAX < u128::MAX) by (nonlinear_arith)
        requires
            d <= u64::MAX,
            m <= u64::MAX,
    ;
    let dm: u128 = (d as u128) * (m as u128);
    if dm >= SCALE_SQ as u128 {
        0
    } else {
        assert(a * (SCALE_SQ - dm) <= u64::MAX * SCALE_SQ < u128::MAX) by (nonlinear_arith)
            requires
                a <= u64::MAX,
                0 <= dm < SCALE_SQ,
        ;
        let num: u128 = (a as u128) * (SCALE_SQ as u128 - dm);
        assert(num / (SCALE_SQ as u128) <= a) by (nonlinear_arith)
            requires
                num == a * (SCALE_SQ - dm),
                0 <= dm < SCALE_SQ,
                0 <= a,
        ;
        (num / (SCALE_SQ as u128)) as u64
    }
}

} // verus!
