use vstd::prelude::*;

verus! {

/// What the monitor tells whoever presents the session to the user.
#[derive(Debug, Clone, Copy, PartialEq, Eq, Structural)]
pub enum Event {
    /// Elapsed active time of the current session, in nanoseconds.
    UpdateTime(u64),
    /// The session has lasted long enough that a break is due.
    NotifyBreak,
    /// The user has been away long enough that the session starts over.
    NotifyReset,
}

} // verus!
