//! Pausing and the speed at which ticks are driven.
use vstd::prelude::*;

verus! {

/// Whether ticks are being driven.
#[derive(Debug, Clone, Copy, PartialEq, Eq, Structural)]
pub enum GameState {
    Running,
    Paused,
}

impl Default for GameState {
    fn default() -> (r: GameState)
        ensures
            r == GameState::Running,
    {
        GameState::Running
    }
}

impl GameState {
    /// The state after the pause key: running and paused trade places.
    pub fn toggled(&self) -> (r: GameState)
        ensures
            r == (if *self == GameState::Running {
                GameState::Paused
            } else {
                GameState::Running
            }),
    {
        match self {
            GameState::Running => GameState::Paused,
            GameState::Paused => GameState::Running,
        }
    }
}

/// Ticks per second at normal speed.
pub const BASE_TICKS_PER_SECOND: u64 = 10;

/// Slowest speed, in quarters of normal speed.
pub const MIN_QUARTERS: u32 = 1;

/// Fastest speed, in quarters of normal speed.
pub const MAX_QUARTERS: u32 = 16;

/// How fast ticks are driven, in quarters of normal speed: from a quarter
/// up to four times normal speed.
#[derive(Debug, Clone, Copy, PartialEq, Eq, Structural)]
pub struct SimulationSpeed {
    pub quarters: u32,
}

impl Default for SimulationSpeed {
    fn default() -> (r: SimulationSpeed)
        ensures
            r.quarters == 4,
    {
        SimulationSpeed { quarters: 4 }
    }
}

impl SimulationSpeed {
    /// The speed lies between a quarter and four times normal speed.
    pub open spec fn wf(&self) -> bool {
        MIN_QUARTERS <= self.quarters <= MAX_QUARTERS
    }

    /// Applies the slow-down key, then the speed-up key, each by a quarter
    /// of normal speed and held to the allowed range; reports whether the
    /// speed changed.
    pub fn change_speed(&mut self, slower: bool, faster: bool) -> (r: bool)
        requires
            old(self).wf(),
        ensures
            final(self).wf(),
            ({
                let q0 = old(self).quarters as int;
                let q1 = if slower && q0 > MIN_QUARTERS { q0 - 1 } else { q0 };
                let q2 = if faster && q1 < MAX_QUARTERS { q1 + 1 } else { q1 };
                final(self).quarters == q2
            }),
            r == (final(self).quarters != old(self).quarters),
    {
        let before = self.quarters;
        if slower && self.quarters > MIN_QUARTERS {
            self.quarters = self.quarters - 1;
        }
        if faster && self.quarters < MAX_QUARTERS {
            self.quarters = self.quarters + 1;
        }
        self.quarters != before
    }

    /// Ticks per thousand seconds at this speed.
    pub fn ticks_per_kilosecond(&self) -> (r: u64)
        requires
            self.wf(),
        ensures
            r == BASE_TICKS_PER_SECOND * 1000 * self.quarters / 4,
    {
        BASE_TICKS_PER_SECOND * 1000 * self.quarters as u64 / 4
    }
}

} // verus!
