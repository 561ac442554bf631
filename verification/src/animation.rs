//! The frames of the animation that a front end may show while it waits.
//! Only what a frame holds is decided here; drawing it is the caller's.

use vstd::prelude::*;
use crate::text::{chars_of, string_of};

verus! {

/// The wave that the figure rides, one period of it.
pub const WAVE_BASE: &'static str = "~^~^~~";

/// The number of characters of the wave that a frame shows.
pub const WAVE_LEN: usize = 54;

/// The number of frames after which the figure is back where it began.
pub const ANTENNA_PERIOD: usize = 8;

/// The line of the wave in the frame `frame`: three spaces, then
/// `WAVE_LEN` characters of the wave, which moves on by one character
/// with each frame.
pub open spec fn wave_of(frame: int) -> Seq<char> {
    Seq::new(3, |i: int| ' ') + Seq::new(
        WAVE_LEN as nat,
        |k: int| WAVE_BASE@[(frame % 6 + k) % 6],
    )
}

/// The line of the wave in the frame `frame`.
pub fn wave_line(frame: usize) -> (r: String)
    ensures
        r@ == wave_of(frame as int),
{
    proof {
        reveal_strlit("~^~^~~");
    }
    let base = chars_of(WAVE_BASE);
    let offset = frame % 6;
    let mut out: Vec<char> = Vec::new();
    out.push(' ');
    out.push(' ');
    out.push(' ');
    let mut k: usize = 0;
    while k < WAVE_LEN
        invariant
            k <= WAVE_LEN,
            offset == frame % 6,
            base@ == WAVE_BASE@,
            base.len() == 6,
            out.len() == 3 + k,
            forall|i: int| 0 <= i < 3 ==> out[i] == ' ',
            forall|j: int|
                3 <= j < 3 + k ==> #[trigger] out[j] == WAVE_BASE@[(frame % 6 + (j - 3)) % 6],
        decreases WAVE_LEN - k,
    {
        out.push(base[(offset + k) % 6]);
        k += 1;
    }
    assert(out@ =~= wave_of(frame as int));
    string_of(&out)
}

/// Whether the figure holds its antenna straight in the frame `frame`:
/// it does in the first half of each period and bends it in the second.
pub fn antenna_is_straight(frame: usize) -> (r: bool)
    ensures
        r == (frame % ANTENNA_PERIOD < ANTENNA_PERIOD / 2),
{
    frame % ANTENNA_PERIOD < 4
}

} // verus!
