//! The frame scheduler: viewport, dirty grid, interlacing decisions and frame statistics.

use vstd::prelude::*;

use crate::eadk::{Color, Rect};
use crate::graphical::DrawOp;
use crate::num_engine::bits::{bit_set, low_mask};
use crate::num_engine::compositor::{Compositor, InterlaceMode};
use crate::num_engine::debug::{sat_add_u64, DebugStats};
use crate::num_engine::dirty_grid::DirtyGrid;
use crate::num_engine::euclid::rem_euclid_i32;
use crate::num_engine::viewport::Viewport;

verus! {

/// Budget and sensitivity of automatic interlacing.
#[derive(Clone, Copy, Debug, PartialEq, Eq, Structural)]
pub struct InterlaceTuning {
    /// Render time (µs) above which a frame counts as slow.
    pub target_budget_us: u32,
    /// Margin (µs) below the budget that the estimated full-frame time must reach to leave interlacing.
    pub hysteresis_us: u32,
    /// Consecutive slow frames that engage interlacing.
    pub tripwire_frames: u8,
    /// Consecutive fast frames that release interlacing.
    pub cooldown_frames: u8,
}

impl InterlaceTuning {
    /// The default tuning: a 21.5 ms budget, 3.5 ms of hysteresis, one slow
    /// frame to engage and five fast frames to release.
    pub open spec fn spec_default() -> InterlaceTuning {
        InterlaceTuning { target_budget_us: 21_500, hysteresis_us: 3_500, tripwire_frames: 1, cooldown_frames: 5 }
    }
}

impl Default for InterlaceTuning {
    fn default() -> (t: Self)
        ensures
            t == InterlaceTuning::spec_default(),
    {
        Self { target_budget_us: 21_500, hysteresis_us: 3_500, tripwire_frames: 1, cooldown_frames: 5 }
    }
}

/// The automatic-interlacing state: whether interlacing is engaged, and
/// the current streaks of slow and fast frames.
pub struct InterlaceState {
    pub engaged: bool,
    pub slow_streak: u8,
    pub fast_streak: u8,
}

/// `a * b`, capped at the largest `u32`.
pub open spec fn sat_mul_u32(a: int, b: int) -> u32 {
    if a * b > u32::MAX {
        u32::MAX
    } else {
        (a * b) as u32
    }
}

/// `a * b` computed in `u32`, capped at the largest `u32`.
pub fn saturating_mul_u32(a: u32, b: u32) -> (r: u32)
    ensures
        r == sat_mul_u32(a as int, b as int),
{
    assert(a as int * b as int <= u64::MAX) by (nonlinear_arith)
        requires
            a <= u32::MAX,
            b <= u32::MAX,
    ;
    let p: u64 = a as u64 * b as u64;
    if p > u32::MAX as u64 {
        u32::MAX
    } else {
        p as u32
    }
}

/// `a - b`, floored at zero.
pub open spec fn sat_sub(a: int, b: int) -> int {
    if a >= b {
        a - b
    } else {
        0
    }
}

/// One step of the automatic interlacing state machine after a frame that
/// took `render_us` to render: while engaged, `cooldown_frames` frames in a
/// row whose doubled time drops below `target - hysteresis` release interlacing;
/// while released, `tripwire_frames` frames in a row over the target engage it.
pub open spec fn next_interlace_state(s: InterlaceState, tuning: InterlaceTuning, render_us: u32) -> InterlaceState {
    if s.engaged {
        if sat_mul_u32(render_us as int, 2) < sat_sub(tuning.target_budget_us as int, tuning.hysteresis_us as int) {
            if s.fast_streak + 1 >= tuning.cooldown_frames {
                InterlaceState { engaged: false, slow_streak: 0, fast_streak: 0 }
            } else {
                InterlaceState { fast_streak: (s.fast_streak + 1) as u8, ..s }
            }
        } else {
            InterlaceState { fast_streak: 0, ..s }
        }
    } else if render_us > tuning.target_budget_us {
        if s.slow_streak + 1 >= tuning.tripwire_frames {
            InterlaceState { engaged: true, slow_streak: 0, fast_streak: 0 }
        } else {
            InterlaceState { slow_streak: (s.slow_streak + 1) as u8, ..s }
        }
    } else {
        InterlaceState { slow_streak: 0, ..s }
    }
}

/// The interlacing state after frames rendered in `renders` microseconds,
/// one after the other, from state `s`.
pub open spec fn interlace_run(s: InterlaceState, tuning: InterlaceTuning, renders: Seq<u32>) -> InterlaceState
    decreases renders.len(),
{
    if renders.len() == 0 {
        s
    } else {
        next_interlace_state(interlace_run(s, tuning, renders.drop_last()), tuning, renders.last())
    }
}

/// Whether a frame of `r` microseconds is fast enough to count towards
/// releasing interlacing: twice its time below the target minus the hysteresis.
pub open spec fn fast_frame(tuning: InterlaceTuning, r: u32) -> bool {
    sat_mul_u32(r as int, 2) < sat_sub(tuning.target_budget_us as int, tuning.hysteresis_us as int)
}

/// From progressive rendering with no slow frame counted, interlacing
/// engages exactly at the `tripwire_frames`-th slow frame in a row (a frame
/// over the target); before that, the slow frames are counted.
pub proof fn lemma_interlacing_engages(s: InterlaceState, tuning: InterlaceTuning, renders: Seq<u32>)
    requires
        !s.engaged,
        s.slow_streak == 0,
        tuning.tripwire_frames >= 1,
        renders.len() <= tuning.tripwire_frames,
        forall|i: int| 0 <= i < renders.len() ==> #[trigger] renders[i] > tuning.target_budget_us,
    ensures
        interlace_run(s, tuning, renders).engaged == (renders.len() == tuning.tripwire_frames),
        renders.len() < tuning.tripwire_frames ==> interlace_run(s, tuning, renders).slow_streak == renders.len(),
    decreases renders.len(),
{
    if renders.len() > 0 {
        let pre = renders.drop_last();
        assert forall|i: int| 0 <= i < pre.len() implies #[trigger] pre[i] > tuning.target_budget_us by {
            assert(pre[i] == renders[i]);
        }
        lemma_interlacing_engages(s, tuning, pre);
        assert(renders.last() == renders[renders.len() - 1]);
    }
}

/// A frame that is not over the target resets the count of slow frames
/// while interlacing is off, and a frame that is not fast resets the count
/// of fast frames while it is on; neither switches the mode.
pub proof fn lemma_interlacing_streak_resets(s: InterlaceState, tuning: InterlaceTuning, r: u32)
    ensures
        !s.engaged && r <= tuning.target_budget_us ==> next_interlace_state(s, tuning, r) == (InterlaceState { slow_streak: 0, ..s }),
        s.engaged && !fast_frame(tuning, r) ==> next_interlace_state(s, tuning, r) == (InterlaceState { fast_streak: 0, ..s }),
{
}

/// While interlacing, with no fast frame counted, it is released exactly
/// at the `cooldown_frames`-th fast frame in a row; before that, the fast
/// frames are counted.
pub proof fn lemma_interlacing_releases(s: InterlaceState, tuning: InterlaceTuning, renders: Seq<u32>)
    requires
        s.engaged,
        s.fast_streak == 0,
        tuning.cooldown_frames >= 1,
        renders.len() <= tuning.cooldown_frames,
        forall|i: int| 0 <= i < renders.len() ==> #[trigger] fast_frame(tuning, renders[i]),
    ensures
        interlace_run(s, tuning, renders).engaged == (renders.len() < tuning.cooldown_frames),
        renders.len() < tuning.cooldown_frames ==> interlace_run(s, tuning, renders).fast_streak == renders.len(),
    decreases renders.len(),
{
    if renders.len() > 0 {
        let pre = renders.drop_last();
        assert forall|i: int| 0 <= i < pre.len() implies #[trigger] fast_frame(tuning, pre[i]) by {
            assert(pre[i] == renders[i]);
        }
        lemma_interlacing_releases(s, tuning, pre);
        assert(fast_frame(tuning, renders[renders.len() - 1]));
    }
}

/// Scheduler state of one screen window: the compositor and its dirty
/// grid, the camera, the frame counter, the interlacing policy and the
/// frame statistics.
pub struct Engine<const TILE_SIZE: usize, const CELL_AREA: usize, const SCREEN_COLS: usize, const SCREEN_ROWS: usize, const R_CAP: usize, const DEBUG: bool> {
    pub compositor: Compositor<TILE_SIZE, CELL_AREA, SCREEN_COLS, SCREEN_ROWS, R_CAP>,
    pub viewport: Viewport,
    pub frame: u32,
    pub debug_stats: DebugStats,
    pub auto_interlace: bool,
    pub interlace_mode: InterlaceMode,
    pub is_interlacing_engaged: bool,
    pub tuning: InterlaceTuning,
    pub slow_streak: u8,
    pub fast_streak: u8,
    pub prev_frame_end_ms: u64,
}

impl<const TILE_SIZE: usize, const CELL_AREA: usize, const SCREEN_COLS: usize, const SCREEN_ROWS: usize, const R_CAP: usize, const DEBUG: bool> Engine<TILE_SIZE, CELL_AREA, SCREEN_COLS, SCREEN_ROWS, R_CAP, DEBUG> {
    pub open spec fn params_ok() -> bool {
        DirtyGrid::<TILE_SIZE, SCREEN_COLS, SCREEN_ROWS>::params_ok()
    }

    /// The streak counters stay below their maximum, so counting one more frame cannot overflow.
    pub open spec fn wf(self) -> bool {
        self.slow_streak < u8::MAX && self.fast_streak < u8::MAX
    }

    pub open spec fn interlace_state(self) -> InterlaceState {
        InterlaceState {
            engaged: self.is_interlacing_engaged,
            slow_streak: self.slow_streak,
            fast_streak: self.fast_streak,
        }
    }

    /// The state of a fresh engine (the screen window itself is cleared by the caller).
    pub open spec fn fresh(e: Self, clear_color: Color, viewport: Viewport, interlace_mode: Option<InterlaceMode>) -> bool {
        &&& e.compositor.clear_color == clear_color
        &&& e.compositor.frame == 0
        &&& forall|r: int| 0 <= r < SCREEN_ROWS ==> #[trigger] e.compositor.grid.curr@[r] == low_mask(SCREEN_COLS as int)
            && e.compositor.grid.prev@[r] == 0
        &&& e.viewport == viewport
        &&& e.frame == 0
        &&& e.debug_stats == DebugStats::zeroed()
        &&& e.auto_interlace
        &&& e.interlace_mode == (match interlace_mode {
            Some(m) => m,
            None => InterlaceMode::Checkerboard,
        })
        &&& !e.is_interlacing_engaged
        &&& e.tuning == InterlaceTuning::spec_default()
        &&& e.slow_streak == 0
        &&& e.fast_streak == 0
        &&& e.prev_frame_end_ms == 0
    }

    /// An engine drawing on the whole screen, interlacing with the given
    /// pattern (checkerboard by default) when frames get slow, with the fill
    /// that clears the screen to `clear_color` before the first frame.
    pub fn new<'a>(clear_color: Color, interlace_mode: Option<InterlaceMode>) -> (r: (Self, DrawOp<'a>))
        requires
            Self::params_ok(),
        ensures
            Self::fresh(r.0, clear_color, r.0.viewport, interlace_mode),
            r.0.viewport.x == 0 && r.0.viewport.y == 0 && r.0.viewport.prev_x == 0 && r.0.viewport.prev_y == 0,
            r.0.viewport.screen_x == 0 && r.0.viewport.screen_y == 0,
            r.0.viewport.screen_w == crate::eadk::SCREEN_WIDTH && r.0.viewport.screen_h == crate::eadk::SCREEN_HEIGHT,
            r.0.wf(),
            r.1 == (DrawOp::FillRect { rect: crate::graphical::screen_rect(), color: clear_color }),
    {
        let clear = crate::graphical::fill_screen(clear_color);
        let e = Self {
            compositor: Compositor::new(clear_color),
            viewport: Viewport::fixed(),
            frame: 0,
            debug_stats: DebugStats::new(),
            auto_interlace: true,
            interlace_mode: match interlace_mode {
                Some(m) => m,
                None => InterlaceMode::Checkerboard,
            },
            is_interlacing_engaged: false,
            tuning: InterlaceTuning::default(),
            slow_streak: 0,
            fast_streak: 0,
            prev_frame_end_ms: 0,
        };
        (e, clear)
    }

    /// An engine drawing in a window of the screen, with the fill that
    /// clears the window to `clear_color` before the first frame.
    pub fn new_with_window<'a>(clear_color: Color, screen_x: u16, screen_y: u16, screen_w: u16, screen_h: u16, interlace_mode: Option<InterlaceMode>) -> (r: (Self, DrawOp<'a>))
        requires
            Self::params_ok(),
        ensures
            Self::fresh(r.0, clear_color, r.0.viewport, interlace_mode),
            r.0.viewport == (Viewport { x: 0, y: 0, prev_x: 0, prev_y: 0, screen_x, screen_y, screen_w, screen_h }),
            r.0.wf(),
            r.1 == (DrawOp::FillRect { rect: Rect { x: screen_x, y: screen_y, width: screen_w, height: screen_h }, color: clear_color }),
    {
        let clear = DrawOp::FillRect { rect: Rect { x: screen_x, y: screen_y, width: screen_w, height: screen_h }, color: clear_color };
        let e = Self {
            compositor: Compositor::new(clear_color),
            viewport: Viewport::new_window(0, 0, screen_x, screen_y, screen_w, screen_h),
            frame: 0,
            debug_stats: DebugStats::new(),
            auto_interlace: true,
            interlace_mode: match interlace_mode {
                Some(m) => m,
                None => InterlaceMode::Checkerboard,
            },
            is_interlacing_engaged: false,
            tuning: InterlaceTuning::default(),
            slow_streak: 0,
            fast_streak: 0,
            prev_frame_end_ms: 0,
        };
        (e, clear)
    }

    pub fn set_interlace_tuning(&mut self, tuning: InterlaceTuning)
        ensures
            *final(self) == (Engine { tuning, ..*old(self) }),
    {
        self.tuning = tuning;
    }

    /// Chooses the interlacing pattern; without dynamic adaptation the
    /// pattern is engaged at once (unless it is `Off`).
    pub fn set_interlacing(&mut self, mode: InterlaceMode, dynamic_adaptation: bool)
        ensures
            *final(self) == (Engine {
                interlace_mode: mode,
                auto_interlace: dynamic_adaptation,
                is_interlacing_engaged: if dynamic_adaptation {
                    old(self).is_interlacing_engaged
                } else {
                    mode != InterlaceMode::Off
                },
                ..*old(self)
            }),
    {
        self.interlace_mode = mode;
        self.auto_interlace = dynamic_adaptation;
        if !dynamic_adaptation {
            self.is_interlacing_engaged = mode != InterlaceMode::Off;
        }
    }

    pub fn get_mut_viewport(&mut self) -> (v: &mut Viewport)
        ensures
            *v == old(self).viewport,
            *final(self) == (Engine { viewport: *final(v), ..*old(self) }),
    {
        &mut self.viewport
    }

    pub fn get_viewport(&self) -> (v: &Viewport)
        ensures
            *v == self.viewport,
    {
        &self.viewport
    }

    pub fn get_frame(&self) -> (f: u32)
        ensures
            f == self.frame,
    {
        self.frame
    }

    /// Marks every cell of the window dirty.
    pub fn mark_all_dirty(&mut self)
        requires
            Self::params_ok(),
        ensures
            final(self).compositor.grid.prev == old(self).compositor.grid.prev,
            forall|r: int| 0 <= r < SCREEN_ROWS ==> #[trigger] final(self).compositor.grid.curr@[r] == low_mask(SCREEN_COLS as int),
            *final(self) == (Engine { compositor: final(self).compositor, ..*old(self) }),
            final(self).compositor == (Compositor { grid: final(self).compositor.grid, ..old(self).compositor }),
    {
        self.compositor.grid.mark_all();
    }

    /// Marks every cell of one row dirty (no effect outside the grid).
    pub fn mark_row_dirty(&mut self, row: usize)
        requires
            Self::params_ok(),
        ensures
            final(self).compositor.grid.prev == old(self).compositor.grid.prev,
            forall|r: int| 0 <= r < SCREEN_ROWS ==> #[trigger] final(self).compositor.grid.curr@[r] == if r == row {
                old(self).compositor.grid.curr@[r] | low_mask(SCREEN_COLS as int)
            } else {
                old(self).compositor.grid.curr@[r]
            },
            *final(self) == (Engine { compositor: final(self).compositor, ..*old(self) }),
            final(self).compositor == (Compositor { grid: final(self).compositor.grid, ..old(self).compositor }),
    {
        if row < SCREEN_ROWS {
            let full_row_mask: u32 = if SCREEN_COLS >= 32 {
                u32::MAX
            } else {
                let n: u32 = SCREEN_COLS as u32;
                assert((1u32 << n) >= 1) by (bit_vector)
                    requires
                        n < 32,
                ;
                (1u32 << n) - 1
            };
            let cur: u32 = self.compositor.grid.curr[row];
            self.compositor.grid.curr[row] = cur | full_row_mask;
        }
    }

    /// The interlacing pattern for this frame: none when disabled; the
    /// chosen pattern when adaptation is off, or when the camera moved by a
    /// non-tile-aligned amount; otherwise the pattern only while engaged.
    pub fn resolve_interlace_mode(&self, viewport_moved: bool, sub_x: i32) -> (m: InterlaceMode)
        ensures
            m == (if self.interlace_mode == InterlaceMode::Off {
                InterlaceMode::Off
            } else if !self.auto_interlace || (viewport_moved && sub_x != 0) || self.is_interlacing_engaged {
                self.interlace_mode
            } else {
                InterlaceMode::Off
            }),
    {
        if self.interlace_mode == InterlaceMode::Off {
            return InterlaceMode::Off;
        }
        if !self.auto_interlace {
            return self.interlace_mode;
        }
        if viewport_moved && sub_x != 0 {
            return self.interlace_mode;
        }
        if self.is_interlacing_engaged {
            self.interlace_mode
        } else {
            InterlaceMode::Off
        }
    }

    /// `g1` is `g0` with the cells under the screen rectangle at `(sx, sy)`
    /// of size `w` x `h` marked dirty, the rectangle clipped to the window
    /// of `v` and taken relative to it (`g1 == g0` when nothing is left).
    pub open spec fn screen_rect_marked(
        v: Viewport,
        g0: DirtyGrid<TILE_SIZE, SCREEN_COLS, SCREEN_ROWS>,
        g1: DirtyGrid<TILE_SIZE, SCREEN_COLS, SCREEN_ROWS>,
        sx: i16,
        sy: i16,
        w: u16,
        h: u16,
    ) -> bool {
        let wx0 = v.screen_x as int;
        let wy0 = v.screen_y as int;
        let wx1 = wx0 + v.screen_w;
        let wy1 = wy0 + v.screen_h;
        let x0 = if sx > wx0 { sx as int } else { wx0 };
        let y0 = if sy > wy0 { sy as int } else { wy0 };
        let x1 = if sx + (w as i16) < wx1 { sx + (w as i16) } else { wx1 };
        let y1 = if sy + (h as i16) < wy1 { sy + (h as i16) } else { wy1 };
        if x1 > x0 && y1 > y0 {
            g0.marks_rect(g1, Rect { x: (x0 - wx0) as u16, y: (y0 - wy0) as u16, width: (x1 - x0) as u16, height: (y1 - y0) as u16 })
        } else {
            g1 == g0
        }
    }

    /// Marks dirty the cells under a screen rectangle, clipped to the window
    /// and taken relative to it; nothing happens when the clipped rectangle is empty.
    pub fn mark_screen_rect(&mut self, sx: i16, sy: i16, w: u16, h: u16)
        requires
            Self::params_ok(),
            old(self).viewport.screen_x + old(self).viewport.screen_w <= i16::MAX,
            old(self).viewport.screen_y + old(self).viewport.screen_h <= i16::MAX,
            sx + (w as i16) <= i16::MAX,
            sy + (h as i16) <= i16::MAX,
            sx + (w as i16) >= i16::MIN,
            sy + (h as i16) >= i16::MIN,
        ensures
            Self::screen_rect_marked(old(self).viewport, old(self).compositor.grid, final(self).compositor.grid, sx, sy, w, h),
            *final(self) == (Engine { compositor: final(self).compositor, ..*old(self) }),
            final(self).compositor == (Compositor { grid: final(self).compositor.grid, ..old(self).compositor }),
    {
        let win_x0: i16 = self.viewport.screen_x as i16;
        let win_y0: i16 = self.viewport.screen_y as i16;
        let win_x1: i16 = win_x0 + self.viewport.screen_w as i16;
        let win_y1: i16 = win_y0 + self.viewport.screen_h as i16;
        let x0: i16 = if sx > win_x0 { sx } else { win_x0 };
        let y0: i16 = if sy > win_y0 { sy } else { win_y0 };
        let ex: i16 = sx + w as i16;
        let ey: i16 = sy + h as i16;
        let x1: i16 = if ex < win_x1 { ex } else { win_x1 };
        let y1: i16 = if ey < win_y1 { ey } else { win_y1 };
        if x1 > x0 && y1 > y0 {
            self.compositor.grid.mark_rect(
                Rect { x: (x0 - win_x0) as u16, y: (y0 - win_y0) as u16, width: (x1 - x0) as u16, height: (y1 - y0) as u16 },
            );
        }
    }

    /// One step of automatic interlacing after a frame rendered in `render_duration_us`.
    pub fn adapt_interlacing(&mut self, render_duration_us: u32)
        requires
            old(self).wf(),
        ensures
            final(self).wf(),
            old(self).auto_interlace ==> final(self).interlace_state() == next_interlace_state(
                old(self).interlace_state(),
                old(self).tuning,
                render_duration_us,
            ),
            !old(self).auto_interlace ==> final(self).interlace_state() == old(self).interlace_state(),
            *final(self) == (Engine {
                is_interlacing_engaged: final(self).is_interlacing_engaged,
                slow_streak: final(self).slow_streak,
                fast_streak: final(self).fast_streak,
                ..*old(self)
            }),
    {
        if self.auto_interlace {
            if self.is_interlacing_engaged {
                let est_full_frame: u32 = saturating_mul_u32(render_duration_us, 2);
                let exit_ceiling: u32 = self.tuning.target_budget_us.saturating_sub(self.tuning.hysteresis_us);
                if est_full_frame < exit_ceiling {
                    self.fast_streak += 1;
                    if self.fast_streak >= self.tuning.cooldown_frames {
                        self.is_interlacing_engaged = false;
                        self.fast_streak = 0;
                        self.slow_streak = 0;
                    }
                } else {
                    self.fast_streak = 0;
                }
            } else if render_duration_us > self.tuning.target_budget_us {
                self.slow_streak += 1;
                if self.slow_streak >= self.tuning.tripwire_frames {
                    self.is_interlacing_engaged = true;
                    self.slow_streak = 0;
                    self.fast_streak = 0;
                }
            } else {
                self.slow_streak = 0;
            }
        }
    }

    /// End-of-frame bookkeeping once the compositor has flushed the frame
    /// that started rendering at `t_render_start` (ms) and finished at
    /// `t_now` (ms): render and frame durations are measured, interlacing
    /// adapts, statistics record the frame, the camera position is latched
    /// and the frame counter advances.
    pub fn finish_frame(&mut self, t_render_start: u64, t_now: u64, active_interlace: InterlaceMode)
        requires
            old(self).wf(),
        ensures
            final(self).wf(),
            ({
                let o = *old(self);
                let render_us = sat_mul_u32((sat_sub(t_now as int, t_render_start as int) as u32) as int, 1000);
                let total_us = if o.prev_frame_end_ms > 0 {
                    sat_mul_u32((sat_sub(t_now as int, o.prev_frame_end_ms as int) as u32) as int, 1000)
                } else {
                    render_us
                };
                let frame: u32 = if o.frame == u32::MAX { 0 } else { (o.frame + 1) as u32 };
                &&& final(self).prev_frame_end_ms == t_now
                &&& o.auto_interlace ==> final(self).interlace_state() == next_interlace_state(o.interlace_state(), o.tuning, render_us)
                &&& !o.auto_interlace ==> final(self).interlace_state() == o.interlace_state()
                &&& final(self).debug_stats == (DebugStats {
                    render_time_accumulator_us: sat_add_u64(o.debug_stats.render_time_accumulator_us, render_us as u64),
                    total_frame_time_accumulator_us: sat_add_u64(o.debug_stats.total_frame_time_accumulator_us, total_us as u64),
                    is_throttled: active_interlace != InterlaceMode::Off,
                    ..o.debug_stats
                })
                &&& final(self).viewport == (Viewport { prev_x: o.viewport.x, prev_y: o.viewport.y, ..o.viewport })
                &&& final(self).frame == frame
                &&& final(self).compositor == (Compositor { frame, ..o.compositor })
                &&& final(self).auto_interlace == o.auto_interlace
                &&& final(self).interlace_mode == o.interlace_mode
                &&& final(self).tuning == o.tuning
            }),
    {
        let render_duration_ms: u64 = t_now.saturating_sub(t_render_start);
        let render_duration_us: u32 = saturating_mul_u32(render_duration_ms as u32, 1000);
        let total_frame_duration_us: u32 = if self.prev_frame_end_ms > 0 {
            saturating_mul_u32(t_now.saturating_sub(self.prev_frame_end_ms) as u32, 1000)
        } else {
            render_duration_us
        };
        self.prev_frame_end_ms = t_now;
        self.adapt_interlacing(render_duration_us);
        self.debug_stats.record_metrics(
            render_duration_us as u64,
            total_frame_duration_us as u64,
            active_interlace != InterlaceMode::Off,
        );
        self.viewport.commit_frame();
        self.frame = self.frame.wrapping_add(1);
        self.compositor.set_frame(self.frame);
    }
}

} // verus!
