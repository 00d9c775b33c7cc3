//! The pacing rules of the scheduler.
//!
//! The host runs the loop and owns the clock; these functions make its
//! decisions. A frame lasts a sixtieth of a second: at its end the screen is
//! shown and both timers tick. Within a frame the machine runs a fixed number
//! of cycles, each followed by a sleep for what is left of its share.

use vstd::prelude::*;

verus! {

/// Frames per second, which is also the rate at which the timers tick.
pub const FRAME_RATE: u32 = 60;

/// Cycles that the machine runs in one frame.
pub const CYCLES_PER_FRAME: u32 = 1000;

/// Microseconds in a second.
pub const MICROS_PER_SECOND: u32 = 1_000_000;

/// The part of a frame, counted from its start, in which `Dxyn` may draw is
/// one in this many.
pub const DRAW_WINDOW_DIVISOR: u128 = 30;

/// The length of a frame in microseconds.
pub fn frame_time() -> (micros: u128)
    ensures
        micros == 1_000_000u32 / 60u32,
        micros == 16_666,
{
    (MICROS_PER_SECOND / FRAME_RATE) as u128
}

/// The share of one cycle in microseconds.
pub fn cycle_time() -> (micros: u128)
    ensures
        micros == 1_000_000u32 / 60_000u32,
        micros == 16,
{
    (MICROS_PER_SECOND / (FRAME_RATE * CYCLES_PER_FRAME)) as u128
}

/// Whether `Dxyn` has to wait for the next frame: `time_since_frame`, the
/// time since the frame began, is past the thirtieth part of `frame_time`.
pub open spec fn spec_draw_throttled(time_since_frame: u128, frame_time: u128) -> bool {
    time_since_frame > frame_time / 30
}

/// Whether `Dxyn` has to wait for the next frame.
#[verifier::when_used_as_spec(spec_draw_throttled)]
pub fn draw_throttled(time_since_frame: u128, frame_time: u128) -> (wait: bool)
    ensures
        wait == spec_draw_throttled(time_since_frame, frame_time),
{
    time_since_frame > frame_time / DRAW_WINDOW_DIVISOR
}

/// Whether the frame that began `time_since_frame` ago is over.
pub fn frame_due(time_since_frame: u128, frame_time: u128) -> (due: bool)
    ensures
        due == (time_since_frame >= frame_time),
{
    time_since_frame >= frame_time
}

/// How long to sleep after a cycle that took `elapsed` of its `cycle_time`:
/// what is left of the share, or `None` where the cycle overran it.
pub fn sleep_time(cycle_time: u128, elapsed: u128) -> (rest: Option<u128>)
    ensures
        elapsed <= cycle_time ==> rest == Some((cycle_time - elapsed) as u128),
        elapsed > cycle_time ==> rest.is_none(),
{
    cycle_time.checked_sub(elapsed)
}

} // verus!
