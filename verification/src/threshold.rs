use vstd::prelude::*;

verus! {

/// Nanoseconds in one second.
pub const NANOS_PER_SEC: u64 = 1_000_000_000;

/// Idle time up to and including this counts as activity (60 s).
pub const IDLE_PAUSE_TIME: u64 = 60 * NANOS_PER_SEC;

/// Idle time above this ends the session (300 s).
pub const IDLE_RESET_TIME: u64 = 300 * NANOS_PER_SEC;

/// Active time from which a break is due (2700 s, 45 minutes).
pub const BREAK_TIME: u64 = 2700 * NANOS_PER_SEC;

/// Where an idle reading falls against the two idle thresholds.
#[derive(Debug, Clone, Copy, PartialEq, Eq, Structural)]
pub enum Band {
    /// At most `IDLE_PAUSE_TIME`: the user is at work.
    Active,
    /// Above `IDLE_PAUSE_TIME`, at most `IDLE_RESET_TIME`: a short absence.
    Frozen,
    /// Above `IDLE_RESET_TIME`: the user has left.
    Away,
}

/// The band of an idle reading of `idle` nanoseconds.
pub open spec fn band_of(idle: u64) -> Band {
    if idle > IDLE_RESET_TIME {
        Band::Away
    } else if idle > IDLE_PAUSE_TIME {
        Band::Frozen
    } else {
        Band::Active
    }
}

/// The reading shows the user at work. A failed probe shows nothing.
pub open spec fn is_active(sample: Option<u64>) -> bool {
    sample matches Some(idle) && band_of(idle) == Band::Active
}

/// The reading shows the user gone. A failed probe shows nothing.
pub open spec fn is_away(sample: Option<u64>) -> bool {
    sample matches Some(idle) && band_of(idle) == Band::Away
}

/// Classifies an idle reading against the pause and reset thresholds.
pub fn classify(idle: u64) -> (band: Band)
    ensures
        band == band_of(idle),
        band == Band::Active <==> idle <= IDLE_PAUSE_TIME,
        band == Band::Frozen <==> IDLE_PAUSE_TIME < idle <= IDLE_RESET_TIME,
        band == Band::Away <==> idle > IDLE_RESET_TIME,
{
    if idle > IDLE_RESET_TIME {
        Band::Away
    } else if idle > IDLE_PAUSE_TIME {
        Band::Frozen
    } else {
        Band::Active
    }
}

} // verus!
