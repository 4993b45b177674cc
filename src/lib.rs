//! Button input processing for resource-constrained control loops.
//!
//! Turns clean boolean pin states, sampled at arbitrary instants, into gesture
//! events (press, release, click, multi-click and repeating hold) through a
//! verified state machine, and says when the caller should next sample.
//! Pure logic: no I/O, no allocation, no threads.

mod time;
pub use time::{TimeDuration, TimeInstant};

mod event;
pub use event::Event;

mod service_timing;
pub use service_timing::ServiceTiming;

mod config;
pub use config::Config;

mod state_machine;
pub use state_machine::{Edge, State, StateMachine};

mod butt_head;
pub use butt_head::{ButtHead, UpdateResult};

mod debouncer;
pub use debouncer::{DebounceState, Debouncer};

mod gestures;
