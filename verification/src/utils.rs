//! Rounding of durations to a multiple of a unit.

use vstd::prelude::*;

verus! {

/// The multiple of `unit` nearest to `x`; of two equally near ones, the larger.
pub open spec fn nearest_multiple(x: int, unit: int) -> int {
    (x + unit / 2) / unit * unit
}

/// Rounding law: for a positive `unit`, `nearest_multiple(x, unit)` is a
/// multiple of `unit` that lies at most `unit / 2` away from `x`, and where
/// two multiples are equally near it is the larger one.
pub proof fn lemma_nearest_multiple(x: int, unit: int)
    requires
        unit > 0,
    ensures
        nearest_multiple(x, unit) % unit == 0,
        nearest_multiple(x, unit) - x <= unit / 2,
        x - nearest_multiple(x, unit) <= unit / 2,
        x - nearest_multiple(x, unit) < unit - unit / 2,
{
    let shifted = x + unit / 2;
    let q = shifted / unit;
    assert(shifted == q * unit + shifted % unit && 0 <= shifted % unit < unit) by (nonlinear_arith)
        requires
            unit > 0,
            q == shifted / unit,
    ;
    assert((q * unit) % unit == 0) by (nonlinear_arith)
        requires
            unit > 0,
    ;
}

/// Rounds `x` to the nearest multiple of `multiple`, halves upwards.
pub fn round_to(x: u32, multiple: u32) -> (rounded: u32)
    requires
        multiple > 0,
        nearest_multiple(x as int, multiple as int) <= u32::MAX,
    ensures
        rounded == nearest_multiple(x as int, multiple as int),
{
    let shifted: u64 = x as u64 + (multiple / 2) as u64;
    let count: u64 = shifted / multiple as u64;
    (count * multiple as u64) as u32
}

} // verus!
