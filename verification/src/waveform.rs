//! Which slots of the waveform history each bar of the overlay shows.
//!
//! The history holds two samples per bar, oldest left; each bar shows the
//! peak of its own slice, and the slices tile the history.

use vstd::prelude::*;

use crate::state::{Phase, WAVE_N};

verus! {

/// Bars in the overlay's waveform strip.
pub const BARS: usize = 28;

/// The first slot of bar `i`'s slice.
pub open spec fn span_start(i: int) -> int {
    i * (WAVE_N as int) / (BARS as int)
}

/// One past the last slot of bar `i`'s slice: where the next slice starts,
/// rounded up, at least one slot after the start and at most the end.
pub open spec fn span_end(i: int) -> int {
    let e = ((i + 1) * (WAVE_N as int) + (BARS as int) - 1) / (BARS as int);
    let lo = span_start(i) + 1;
    if e < lo {
        lo
    } else if e > WAVE_N {
        WAVE_N as int
    } else {
        e
    }
}

/// The slots `[start, end)` whose peak bar `i` shows.
pub fn bar_span(i: usize) -> (r: (usize, usize))
    requires
        i < BARS,
    ensures
        r.0 == span_start(i as int),
        r.1 == span_end(i as int),
        r.0 < r.1 <= WAVE_N,
{
    let a = i * WAVE_N / BARS;
    let e = ((i + 1) * WAVE_N + BARS - 1) / BARS;
    let b = if e < a + 1 {
        a + 1
    } else if e > WAVE_N {
        WAVE_N
    } else {
        e
    };
    (a, b)
}

/// How long, in microseconds, the success or error flash stays before the
/// overlay retracts.
pub const RESULT_FLASH_MICROS: u64 = 550000;

/// Whether the overlay, showing `phase` for `since_micros`, has shown its
/// result long enough and retracts.
pub fn flash_over(phase: Phase, since_micros: u64) -> (r: bool)
    ensures
        r == ((phase == Phase::Success || phase == Phase::Error) && since_micros > RESULT_FLASH_MICROS),
{
    (phase == Phase::Success || phase == Phase::Error) && since_micros > RESULT_FLASH_MICROS
}

/// The bars' slices tile the history: the first starts at the oldest slot,
/// each ends where the next starts, and the last ends at the newest.
pub proof fn lemma_bars_tile_history(i: int)
    requires
        0 <= i < BARS,
    ensures
        span_start(0) == 0,
        span_end(BARS - 1) == WAVE_N,
        i + 1 < BARS ==> span_end(i) == span_start(i + 1),
        span_end(i) - span_start(i) == 2,
{
}

} // verus!
