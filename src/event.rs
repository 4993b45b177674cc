use vstd::prelude::*;

use crate::time::TimeDuration;

verus! {

/// A gesture event produced by the state machine.
#[derive(Clone, Copy, Debug, PartialEq, Eq, Structural)]
pub enum Event {
    /// The button went down.
    Press,
    /// The button went up; `duration` is how long it was down.
    Release { duration: TimeDuration },
    /// A click streak ended; `count` is the number of clicks in it (1 or more).
    Click { count: u8 },
    /// The button is being held. `clicks_before` is the number of clicks that
    /// preceded this press in the streak; `level` is 0 on the first hold event
    /// of the press and grows by one on each repeat.
    Hold { clicks_before: u8, level: u8 },
}

} // verus!
