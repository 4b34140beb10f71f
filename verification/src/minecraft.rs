//! Conversions between wall-clock time and server ticks.

use vstd::prelude::*;

verus! {

/// The position of a block in the world.
#[derive(Clone, Copy, Debug, PartialEq, Eq, Structural)]
pub struct BlockPos {
    pub x: i32,
    pub y: i32,
    pub z: i32,
}

/// The number of ticks that cover `millis` milliseconds at `tps` ticks per
/// second: the least whole number of ticks that lasts at least that long.
pub open spec fn ticks_covering(tps: int, millis: int) -> int {
    (millis * tps + 999) / 1000
}

/// What [`to_ticks`] returns: [`ticks_covering`], held to the range of `usize`.
pub open spec fn to_ticks_spec(tps: int, millis: int) -> int {
    if ticks_covering(tps, millis) <= usize::MAX as int {
        ticks_covering(tps, millis)
    } else {
        usize::MAX as int
    }
}

/// A duration of `millis` milliseconds with no tick left over is covered by
/// exactly `millis * tps / 1000` ticks, and any remainder costs one more tick.
pub proof fn lemma_ticks_covering_is_ceiling(tps: int, millis: int)
    requires
        0 <= tps,
        0 <= millis,
    ensures
        ticks_covering(tps, millis) * 1000 >= millis * tps,
        (ticks_covering(tps, millis) - 1) * 1000 < millis * tps,
        0 <= ticks_covering(tps, millis),
{
    assert(0 <= millis * tps) by (nonlinear_arith)
        requires
            0 <= tps,
            0 <= millis,
    ;
}

/// Converts a duration in milliseconds to server ticks at `tps` ticks per
/// second, rounding up. A count beyond `usize::MAX` is returned as
/// `usize::MAX`.
pub fn to_ticks(tps: usize, millis: u64) -> (ticks: usize)
    ensures
        ticks as int == to_ticks_spec(tps as int, millis as int),
{
    let wide_tps: u128 = tps as u128;
    let wide_millis: u128 = millis as u128;
    assert(wide_millis * wide_tps <= 0xFFFF_FFFF_FFFF_FFFF * 0xFFFF_FFFF_FFFF_FFFF)
        by (nonlinear_arith)
        requires
            wide_millis <= 0xFFFF_FFFF_FFFF_FFFF,
            wide_tps <= 0xFFFF_FFFF_FFFF_FFFF,
    ;
    let total: u128 = (wide_millis * wide_tps + 999) / 1000;
    if total <= usize::MAX as u128 {
        total as usize
    } else {
        usize::MAX
    }
}

} // verus!
