//! Pac-Man's superball power: when it starts, when the ghosts start
//! blinking, and when it ends.

use vstd::prelude::*;

use crate::pacman::levels::LevelRules;

verus! {

/// What happened to the superball power during a frame.
#[derive(Clone, Copy, Debug, PartialEq, Eq, Structural)]
pub enum SuperballEvent {
    Quiet,
    BlinkingStarted,
    Expired,
}

/// The superball timers of Pac-Man: whether the power is on, when it ends
/// (0 when off), when the warning starts (0 for none) and whether the
/// warning was given.
#[derive(Clone, Copy, Debug, PartialEq, Eq, Structural)]
pub struct SuperballTimer {
    pub superball_active: bool,
    pub superball_until: u64,
    pub blink_at: u64,
    pub blinking_triggered: bool,
}

impl SuperballTimer {
    /// No power.
    pub fn new() -> (t: Self)
        ensures
            !t.superball_active,
            t.superball_until == 0,
            t.blink_at == 0,
            !t.blinking_triggered,
    {
        Self { superball_active: false, superball_until: 0, blink_at: 0, blinking_triggered: false }
    }

    /// Starts the power at time `now` for the frightened time of the level,
    /// warning `blink_window_ms` before the end; a level without frightened
    /// time gives no power. Returns whether the power started (Pac-Man then speeds up).
    pub fn activate_superball(&mut self, rules: &LevelRules, now: u64) -> (started: bool)
        requires
            now + rules.frightened_duration_ms <= u64::MAX,
        ensures
            started == (rules.frightened_duration_ms != 0),
            started ==> *final(self) == (SuperballTimer {
                superball_active: true,
                superball_until: (now + rules.frightened_duration_ms) as u64,
                blink_at: if now + rules.frightened_duration_ms >= rules.blink_window_ms {
                    (now + rules.frightened_duration_ms - rules.blink_window_ms) as u64
                } else {
                    0
                },
                blinking_triggered: false,
            }),
            !started ==> *final(self) == *old(self),
    {
        let duration = rules.frightened_duration_ms;
        if duration == 0 {
            return false;
        }
        self.superball_active = true;
        self.superball_until = now + duration;
        self.blink_at = self.superball_until.saturating_sub(rules.blink_window_ms);
        self.blinking_triggered = false;
        true
    }

    /// The timers and the event after a check at time `now`.
    pub open spec fn spec_handle_events(self, now: u64) -> (SuperballTimer, SuperballEvent) {
        if self.superball_until == 0 {
            (self, SuperballEvent::Quiet)
        } else if now >= self.superball_until {
            (SuperballTimer { superball_active: false, superball_until: 0, blinking_triggered: false, ..self }, SuperballEvent::Expired)
        } else if self.blink_at != 0 && now >= self.blink_at && !self.blinking_triggered {
            (SuperballTimer { blinking_triggered: true, ..self }, SuperballEvent::BlinkingStarted)
        } else {
            (self, SuperballEvent::Quiet)
        }
    }

    /// Checks the timers at time `now`: the power expires at its end, and
    /// the warning is given once when its time comes.
    pub fn handle_events(&mut self, now: u64) -> (e: SuperballEvent)
        ensures
            (*final(self), e) == old(self).spec_handle_events(now),
    {
        if self.superball_until == 0 {
            return SuperballEvent::Quiet;
        }
        if now >= self.superball_until {
            self.superball_active = false;
            self.superball_until = 0;
            self.blinking_triggered = false;
            SuperballEvent::Expired
        } else if self.blink_at != 0 && now >= self.blink_at && !self.blinking_triggered {
            self.blinking_triggered = true;
            SuperballEvent::BlinkingStarted
        } else {
            SuperballEvent::Quiet
        }
    }
}

/// The warning is given at most once: right after it, no check before the
/// end of the power gives it again.
pub proof fn lemma_blink_once(t: SuperballTimer, now1: u64, now2: u64)
    requires
        t.spec_handle_events(now1).1 == SuperballEvent::BlinkingStarted,
        now2 < t.superball_until,
    ensures
        t.spec_handle_events(now1).0.spec_handle_events(now2).1 == SuperballEvent::Quiet,
{
}

/// Once expired, the power is off and stays off until a new superball.
pub proof fn lemma_expired_stays_off(t: SuperballTimer, now1: u64, now2: u64)
    requires
        t.spec_handle_events(now1).1 == SuperballEvent::Expired,
    ensures
        !t.spec_handle_events(now1).0.superball_active,
        t.spec_handle_events(now1).0.spec_handle_events(now2).1 == SuperballEvent::Quiet,
{
}

} // verus!
