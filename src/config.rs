use vstd::prelude::*;

use crate::time::TimeDuration;

verus! {

/// Tunable parameters of a button, fixed for the lifetime of a processor.
#[derive(Clone, Copy, Debug, PartialEq, Eq, Structural)]
pub struct Config {
    /// Input polarity: `true` means a low (`false`) pin reading is a press.
    pub active_low: bool,
    /// Longest gap between a release and the next press that still continues
    /// a click streak.
    pub click_timeout: TimeDuration,
    /// How long a press must last before the first hold event.
    pub hold_delay: TimeDuration,
    /// Time between repeated hold events while the button stays down.
    pub hold_interval: TimeDuration,
    /// Streak length at which the click is reported at once, without waiting
    /// for `click_timeout`; `None` means no cap.
    pub max_click_count: Option<u8>,
}

/// Whether a streak of `count` clicks has reached the configured cap.
pub open spec fn at_cap(cfg: Config, count: u8) -> bool {
    match cfg.max_click_count {
        Some(max) => count >= max,
        None => false,
    }
}

impl Config {
    /// Whether a streak of `count` clicks has reached the configured cap.
    pub(crate) fn reaches_cap(&self, count: u8) -> (r: bool)
        ensures
            r == at_cap(*self, count),
    {
        match self.max_click_count {
            Some(max) => count >= max,
            None => false,
        }
    }
}

} // verus!
