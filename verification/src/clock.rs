//! Frame pacing as pure state machines over nanosecond timestamps.
//!
//! Reading the clock and sleeping are outside work; the caller hands each
//! `tick` the current monotonic time in nanoseconds and performs the sleep
//! the result asks for. [`Clock`] caps a loop at a target rate, [`Timer`] is
//! its companion that only reports whether a frame budget has elapsed.

use vstd::prelude::*;

verus! {

/// Nanoseconds per second.
pub const NANOS_PER_SEC: u32 = 1_000_000_000;

/// Caps a frame loop at `fps`: each tick measures the time since the last
/// and asks the caller to sleep off the remaining budget.
pub struct Clock {
    pub frame_start: u64,
    pub dt: u64,
    pub fps: u32,
    pub frame_duration: u64,
}

impl Clock {
    /// A clock aiming at `fps` frames per second, started at `now_ns`.
    pub fn new(fps: u32, now_ns: u64) -> (c: Clock)
        requires
            fps > 0,
        ensures
            c.frame_start == now_ns,
            c.dt == 0,
            c.fps == fps,
            c.frame_duration == (NANOS_PER_SEC / fps) as u64,
    {
        Clock { frame_start: now_ns, dt: 0, fps, frame_duration: (NANOS_PER_SEC / fps) as u64 }
    }

    /// Measure the time since the previous tick and start the next frame.
    /// Returns `(dt, sleep)`: the frame delta to report — the full budget
    /// when the frame was faster than it — and the nanoseconds still to
    /// sleep, zero when the frame overran.
    pub fn tick(&mut self, now_ns: u64) -> (r: (u64, u64))
        requires
            old(self).frame_start <= now_ns,
        ensures
            final(self).dt == now_ns - old(self).frame_start,
            final(self).frame_start == now_ns,
            final(self).fps == old(self).fps,
            final(self).frame_duration == old(self).frame_duration,
            final(self).dt < final(self).frame_duration ==> r == (
                final(self).frame_duration,
                (final(self).frame_duration - final(self).dt) as u64,
            ),
            final(self).dt >= final(self).frame_duration ==> r == (final(self).dt, 0u64),
    {
        self.dt = now_ns - self.frame_start;
        self.frame_start = now_ns;

        if self.dt < self.frame_duration {
            (self.frame_duration, self.frame_duration - self.dt)
        } else {
            (self.dt, 0)
        }
    }
}

/// Reports whether a frame budget has elapsed, advancing its origin by
/// exactly one budget when it has.
pub struct Timer {
    pub frame_start: u64,
    pub dt: u64,
    pub fps: u32,
    pub frame_duration: u64,
}

impl Timer {
    /// A timer with a budget of one frame at `fps`, started at `now_ns`.
    pub fn new(fps: u32, now_ns: u64) -> (t: Timer)
        requires
            fps > 0,
        ensures
            t.frame_start == now_ns,
            t.dt == 0,
            t.fps == fps,
            t.frame_duration == (NANOS_PER_SEC / fps) as u64,
    {
        Timer { frame_start: now_ns, dt: 0, fps, frame_duration: (NANOS_PER_SEC / fps) as u64 }
    }

    /// True when at least one frame budget has passed since the origin; the
    /// origin then advances by one budget (never past `now_ns`).
    pub fn tick(&mut self, now_ns: u64) -> (fired: bool)
        requires
            old(self).frame_start <= now_ns,
        ensures
            final(self).dt == now_ns - old(self).frame_start,
            final(self).fps == old(self).fps,
            final(self).frame_duration == old(self).frame_duration,
            fired == (final(self).dt >= final(self).frame_duration),
            !fired ==> final(self).frame_start == old(self).frame_start,
            fired ==> final(self).frame_start == if now_ns <= old(self).frame_start
                + old(self).frame_duration {
                now_ns as int
            } else {
                old(self).frame_start + old(self).frame_duration
            },
    {
        self.dt = now_ns - self.frame_start;

        if self.dt < self.frame_duration {
            false
        } else {
            let stepped: u64 = self.frame_start + self.frame_duration;
            self.frame_start = if now_ns <= stepped {
                now_ns
            } else {
                stepped
            };
            true
        }
    }
}

} // verus!
