//! A frame-driven bullet-hell simulation core: pattern emitters spawn bursts
//! of disk entities into a fixed-capacity pool, a scheduler fires emitters on
//! a repeating frame cycle, and a per-frame step applies behaviors (speed
//! change, sleep, gravity, random re-aim, reflection) before culling entities
//! that leave the world.
//!
//! All geometry is fixed-point: lengths and speeds are in milli-units
//! (1000 = 1.0) and angles in milli-degrees (360_000 = one full turn), so
//! every computation is exact integer arithmetic.
use vstd::prelude::*;

pub mod disk;
pub mod event;
pub mod laws;
pub mod event_thread;
pub mod setting;
pub mod num;
pub mod pool;
pub mod rectangle;
pub mod schedule;
pub mod screen;
mod rng;
pub mod shot;
pub mod sim;
pub mod trig;
pub mod vec2d;

verus! {

/// Frames per wall-clock second, used to quantize emitter intervals.
pub const FRAMES_PER_SEC: u32 = 60;

/// Milliseconds per second.
pub const MILLI_SECONDS: u32 = 1000;

/// Capacity of the entity pool.
pub const DISK_NUM: u32 = 4096;

/// The frame period of an interval in milliseconds: the interval
/// quantized to whole frames, e.g. 500 ms -> 30 frames, 200 ms -> 12
/// frames. An interval shorter than one frame (1..=16 ms) is lifted to
/// one frame, so a period of zero stands for a zero interval alone.
pub open spec fn frame_period(interval: int) -> int {
    let floored = FRAMES_PER_SEC as int * interval / MILLI_SECONDS as int;
    if interval == 0 {
        0
    } else if floored == 0 {
        1
    } else {
        floored
    }
}

/// Converts an emitter interval in milliseconds to a frame period.
/// Nonzero intervals give a period of at least one frame; only a zero
/// interval gives period zero (which the scheduler reads as "fire on
/// every frame").
pub fn convert_interval_to_frame(interval: u32) -> (r: u64)
    ensures
        r == frame_period(interval as int),
        r == 0 <==> interval == 0,
{
    if interval == 0 {
        return 0;
    }
    assert((FRAMES_PER_SEC as u64) * (interval as u64) <= 0x3c00000000) by (nonlinear_arith)
        requires
            interval <= 0xffffffffu64,
    ;
    let floored: u64 = (FRAMES_PER_SEC as u64) * (interval as u64) / (MILLI_SECONDS as u64);
    if floored == 0 {
        1
    } else {
        floored
    }
}

} // verus!
