//! Frame-rate and render-time statistics over rolling windows of 500 ms.

use vstd::prelude::*;

verus! {

/// Length of a statistics window, in milliseconds.
pub const SAMPLE_WINDOW_MS: u64 = 500;

/// Rolling-window metrics: frame rate, mean render time and mean total frame time.
pub struct DebugStats {
    /// Timestamp (ms) at which the current window started; 0 before the first frame.
    pub last_sample_time: u64,
    /// Frames counted in the current window.
    pub frame_accumulator: u32,
    /// Microseconds spent rendering in the current window.
    pub render_time_accumulator_us: u64,
    /// Microseconds between consecutive frames in the current window.
    pub total_frame_time_accumulator_us: u64,
    /// Frames per second measured over the last completed window.
    pub current_fps: u16,
    /// Mean render time (ms) over the last completed window.
    pub avg_render_ms: u16,
    /// Mean total frame time (ms) over the last completed window.
    pub avg_total_ms: u16,
    /// Whether interlacing was active on the last recorded frame.
    pub is_throttled: bool,
}

/// `a + b`, capped at the largest `u64`.
pub open spec fn sat_add_u64(a: u64, b: u64) -> u64 {
    if a + b > u64::MAX {
        u64::MAX
    } else {
        (a + b) as u64
    }
}

impl DebugStats {
    /// The tracker with every counter at zero.
    pub open spec fn zeroed() -> DebugStats {
        DebugStats {
            last_sample_time: 0,
            frame_accumulator: 0,
            render_time_accumulator_us: 0,
            total_frame_time_accumulator_us: 0,
            current_fps: 0,
            avg_render_ms: 0,
            avg_total_ms: 0,
            is_throttled: false,
        }
    }

    /// A zeroed tracker.
    pub fn new() -> (s: Self)
        ensures
            s == Self::zeroed(),
    {
        Self {
            last_sample_time: 0,
            frame_accumulator: 0,
            render_time_accumulator_us: 0,
            total_frame_time_accumulator_us: 0,
            current_fps: 0,
            avg_render_ms: 0,
            avg_total_ms: 0,
            is_throttled: false,
        }
    }

    /// Adds the durations of one frame to the current window.
    pub fn record_metrics(&mut self, render_us: u64, total_us: u64, throttled: bool)
        ensures
            *final(self) == (DebugStats {
                render_time_accumulator_us: sat_add_u64(old(self).render_time_accumulator_us, render_us),
                total_frame_time_accumulator_us: sat_add_u64(old(self).total_frame_time_accumulator_us, total_us),
                is_throttled: throttled,
                ..*old(self)
            }),
    {
        self.render_time_accumulator_us = self.render_time_accumulator_us.saturating_add(render_us);
        self.total_frame_time_accumulator_us = self.total_frame_time_accumulator_us.saturating_add(total_us);
        self.is_throttled = throttled;
    }

    /// Counts a frame at time `now` (ms); once a window of 500 ms has
    /// elapsed, publishes its averages and starts a new window.
    pub fn tick(&mut self, now: u64)
        ensures
            ({
                let o = *old(self);
                let frames: u32 = if o.frame_accumulator == u32::MAX { u32::MAX } else { (o.frame_accumulator + 1) as u32 };
                let delta: int = if now >= o.last_sample_time { now - o.last_sample_time } else { 0 };
                if o.last_sample_time == 0 {
                    *final(self) == (DebugStats { frame_accumulator: frames, last_sample_time: now, ..o })
                } else if delta < SAMPLE_WINDOW_MS {
                    *final(self) == (DebugStats { frame_accumulator: frames, ..o })
                } else {
                    *final(self) == (DebugStats {
                        current_fps: ((frames * 1000) / delta) as u16,
                        avg_render_ms: (o.render_time_accumulator_us as int / (frames * 1000)) as u16,
                        avg_total_ms: (o.total_frame_time_accumulator_us as int / (frames * 1000)) as u16,
                        last_sample_time: now,
                        frame_accumulator: 0,
                        render_time_accumulator_us: 0,
                        total_frame_time_accumulator_us: 0,
                        ..o
                    })
                }
            }),
    {
        self.frame_accumulator = self.frame_accumulator.saturating_add(1);
        if self.last_sample_time == 0 {
            self.last_sample_time = now;
            return;
        }
        let delta: u64 = now.saturating_sub(self.last_sample_time);
        if delta >= SAMPLE_WINDOW_MS {
            let frames: u64 = self.frame_accumulator as u64;
            self.current_fps = ((frames * 1000) / delta) as u16;
            if self.frame_accumulator > 0 {
                self.avg_render_ms = (self.render_time_accumulator_us / (frames * 1000)) as u16;
                self.avg_total_ms = (self.total_frame_time_accumulator_us / (frames * 1000)) as u16;
            }
            self.last_sample_time = now;
            self.frame_accumulator = 0;
            self.render_time_accumulator_us = 0;
            self.total_frame_time_accumulator_us = 0;
        }
    }
}

} // verus!
