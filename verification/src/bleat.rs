//! The social signal: each sheep carries two cooldowns, one gating how often
//! it may bleat and one gating how often a fresh bleat may spread. Bleats
//! arise spontaneously at a small rate and spread probabilistically to
//! nearby sheep; the two cooldowns bound the total rate.

use vstd::prelude::*;

use crate::timer::{Timer, TIME_LIMIT_MS};

verus! {

/// Contagion reaches only sheep pairs within this distance.
pub const BLEAT_RANGE: i64 = 100;

/// Cooldown installed by a player-triggered bleat, in milliseconds.
pub const PLAYER_BLEAT_DELAY_MS: u64 = 1_000;

/// Cooldown installed by an AI-triggered bleat, in milliseconds.
pub const SHEEP_BLEAT_DELAY_MS: u64 = 3_000;

/// The window after a bleat during which it may spread, in milliseconds.
pub const TIME_TO_SPREAD_MS: u64 = 500;

/// Chance that a qualifying pair passes the contagion on, in permyriad.
pub const BLEAT_SPREAD_CHANCE_PM: u64 = 500;

/// Chance of a spontaneous bleat per sheep per low-frequency tick, in
/// permyriad.
pub const SPONTANEOUS_CHANCE_PM: u64 = 5;

/// Probability rolls are drawn below this denominator.
pub const CHANCE_DENOM: u64 = 10_000;

/// The period of the low-frequency tick driving spontaneous bleats.
pub const SPONTANEOUS_TICK_MS: u64 = 100;

/// The two per-sheep cooldowns of the social signal.
#[derive(Clone, Copy, PartialEq, Eq, Structural, Debug)]
pub struct RecentBleat {
    pub time_to_bleat: Timer,
    pub time_to_spread: Timer,
}

/// Which side of a scanned pair bled, if either.
#[derive(Clone, Copy, PartialEq, Eq, Structural, Debug)]
pub enum Bled {
    Nobody,
    First,
    Second,
}

impl RecentBleat {
    /// The spec image of `RecentBleat::new`.
    pub open spec fn new_spec() -> RecentBleat {
        RecentBleat {
            time_to_bleat: Timer {
                duration_ms: 0,
                elapsed_ms: 0,
                repeating: false,
                just_finished: false,
            },
            time_to_spread: Timer {
                duration_ms: TIME_TO_SPREAD_MS,
                elapsed_ms: TIME_TO_SPREAD_MS,
                repeating: false,
                just_finished: false,
            },
        }
    }

    pub open spec fn wf(self) -> bool {
        &&& self.time_to_bleat.wf()
        &&& self.time_to_spread.wf()
        &&& !self.time_to_bleat.repeating
        &&& !self.time_to_spread.repeating
        &&& self.time_to_spread.duration_ms == TIME_TO_SPREAD_MS
    }

    /// Fresh social state: free to bleat at once, spread window long over.
    pub fn new() -> (r: RecentBleat)
        ensures
            r == (RecentBleat {
                time_to_bleat: Timer {
                    duration_ms: 0,
                    elapsed_ms: 0,
                    repeating: false,
                    just_finished: false,
                },
                time_to_spread: Timer {
                    duration_ms: TIME_TO_SPREAD_MS,
                    elapsed_ms: TIME_TO_SPREAD_MS,
                    repeating: false,
                    just_finished: false,
                },
            }),
            r.wf(),
            r.time_to_bleat.finished(),
            !r.time_to_spread.just_finished,
    {
        RecentBleat {
            time_to_bleat: Timer {
                duration_ms: 0,
                elapsed_ms: 0,
                repeating: false,
                just_finished: false,
            },
            time_to_spread: Timer {
                duration_ms: TIME_TO_SPREAD_MS,
                elapsed_ms: TIME_TO_SPREAD_MS,
                repeating: false,
                just_finished: false,
            },
        }
    }

    /// The state right after a bleat: the bleat cooldown restarts with the
    /// delay of the trigger source, and the spread window reopens.
    pub open spec fn after_bleat(self, human_triggered: bool) -> RecentBleat {
        RecentBleat {
            time_to_bleat: self.time_to_bleat.restarted_spec(
                if human_triggered {
                    PLAYER_BLEAT_DELAY_MS
                } else {
                    SHEEP_BLEAT_DELAY_MS
                },
            ),
            time_to_spread: self.time_to_spread.restarted_spec(self.time_to_spread.duration_ms),
        }
    }

    /// A sheep that just bled cannot bleat again until its cooldown runs out.
    pub proof fn lemma_after_bleat_blocks(self, human_triggered: bool)
        ensures
            !self.after_bleat(human_triggered).time_to_bleat.finished(),
            !self.after_bleat(human_triggered).time_to_spread.just_finished,
    {
    }

    /// Perform the bleat: install the cooldown of the trigger source and
    /// reopen the spread window.
    pub fn bleat(&mut self, human_triggered: bool)
        requires
            old(self).wf(),
        ensures
            *final(self) == old(self).after_bleat(human_triggered),
            final(self).wf(),
    {
        self.time_to_bleat.restart(
            if human_triggered {
                PLAYER_BLEAT_DELAY_MS
            } else {
                SHEEP_BLEAT_DELAY_MS
            },
        );
        let d = self.time_to_spread.duration_ms;
        self.time_to_spread.restart(d);
    }

    /// Advance both cooldowns by one frame; they tick every frame regardless
    /// of the agent's state.
    pub fn tick(&mut self, dt: u64)
        requires
            old(self).wf(),
            dt <= TIME_LIMIT_MS,
        ensures
            final(self).time_to_bleat == old(self).time_to_bleat.tick_spec(dt),
            final(self).time_to_spread == old(self).time_to_spread.tick_spec(dt),
            final(self).wf(),
    {
        self.time_to_bleat.tick(dt);
        self.time_to_spread.tick(dt);
    }

    /// An explicit player bleat: fires exactly when the cooldown is over.
    pub fn player_bleat(&mut self) -> (bled: bool)
        requires
            old(self).wf(),
        ensures
            bled == old(self).time_to_bleat.finished(),
            bled ==> *final(self) == old(self).after_bleat(true),
            !bled ==> *final(self) == *old(self),
            final(self).wf(),
    {
        if self.time_to_bleat.is_finished() {
            self.bleat(true);
            true
        } else {
            false
        }
    }

    /// A spontaneous bleat attempt: fires exactly when the cooldown is over
    /// and the roll hits.
    pub fn spontaneous_bleat(&mut self, roll_hit: bool, human: bool) -> (bled: bool)
        requires
            old(self).wf(),
        ensures
            bled == (old(self).time_to_bleat.finished() && roll_hit),
            bled ==> *final(self) == old(self).after_bleat(human),
            !bled ==> *final(self) == *old(self),
            final(self).wf(),
    {
        if self.time_to_bleat.is_finished() && roll_hit {
            self.bleat(human);
            true
        } else {
            false
        }
    }
}

/// One contagion check over a pair already known to be in range: if the
/// first sheep's spread window just opened, the second is free to bleat and
/// the first roll hits, the second sheep bleats; otherwise the same check
/// runs the other way. At most one side bleats per pair per tick.
pub fn contagion_pair(
    b1: &mut RecentBleat,
    b2: &mut RecentBleat,
    human1: bool,
    human2: bool,
    roll1_hit: bool,
    roll2_hit: bool,
) -> (r: Bled)
    requires
        old(b1).wf(),
        old(b2).wf(),
    ensures
        final(b1).wf(),
        final(b2).wf(),
        ({
            if old(b1).time_to_spread.just_finished && old(b2).time_to_bleat.finished()
                && roll1_hit {
                r == Bled::Second && *final(b2) == old(b2).after_bleat(human2) && *final(b1)
                    == *old(b1)
            } else if old(b2).time_to_spread.just_finished && old(b1).time_to_bleat.finished()
                && roll2_hit {
                r == Bled::First && *final(b1) == old(b1).after_bleat(human1) && *final(b2)
                    == *old(b2)
            } else {
                r == Bled::Nobody && *final(b1) == *old(b1) && *final(b2) == *old(b2)
            }
        }),
{
    if b1.time_to_spread.just_finished && b2.time_to_bleat.is_finished() && roll1_hit {
        b2.bleat(human2);
        Bled::Second
    } else if b2.time_to_spread.just_finished && b1.time_to_bleat.is_finished() && roll2_hit {
        b1.bleat(human1);
        Bled::First
    } else {
        Bled::Nobody
    }
}

} // verus!
