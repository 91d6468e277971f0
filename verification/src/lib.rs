//! The core of a break reminder: a session state machine that turns
//! once-a-second idle readings into a small stream of events.
//!
//! All times are `u64` nanoseconds. The caller owns the clock, the idle
//! probe and the delivery of events; this crate only decides.

pub mod event;
pub mod threshold;
pub mod session;
pub mod trace;
pub mod laws;

pub use crate::event::Event;
pub use crate::session::Session;
pub use crate::trace::Tick;
