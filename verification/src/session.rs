use vstd::prelude::*;
use crate::event::Event;
use crate::threshold::{
    classify, is_active, is_away, Band, BREAK_TIME, IDLE_PAUSE_TIME, IDLE_RESET_TIME,
};

verus! {

/// Time from `start` to `now`. A clock reading earlier than `start`
/// counts as no time passed.
pub open spec fn elapsed_between(start: u64, now: u64) -> u64 {
    if now >= start {
        (now - start) as u64
    } else {
        0
    }
}

/// The session as contracts see it: the plain contents of a `Session`.
pub struct SessionState {
    /// When the current active period began.
    pub start: u64,
    /// A long absence has been announced and the user is not back yet.
    pub has_reset: bool,
    /// A break has been announced for the current active period.
    pub has_break: bool,
}

impl SessionState {
    /// The session that opens at `now`.
    pub open spec fn opened(now: u64) -> SessionState {
        SessionState { start: now, has_reset: false, has_break: false }
    }

    /// The active time that an active reading at `now` reports: none on
    /// the return from a long absence, else the time since `start`.
    pub open spec fn active_time(self, now: u64) -> u64 {
        if self.has_reset {
            0
        } else {
            elapsed_between(self.start, now)
        }
    }

    /// The tick announces a break: the user is at work, the active time
    /// has reached `BREAK_TIME`, and this period has had no break yet.
    pub open spec fn fires_break(self, now: u64, sample: Option<u64>) -> bool {
        is_active(sample) && !self.has_break && self.active_time(now) >= BREAK_TIME
    }

    /// The tick announces a long absence: the user is gone and this
    /// absence has not been announced yet.
    pub open spec fn fires_reset(self, sample: Option<u64>) -> bool {
        is_away(sample) && !self.has_reset
    }

    /// The tick moves `start` to `now`: on every away reading, and on the
    /// first active reading after one.
    pub open spec fn restarts(self, sample: Option<u64>) -> bool {
        is_away(sample) || (is_active(sample) && self.has_reset)
    }

    /// The session after a tick at `now` with the given idle reading
    /// (`None`: the probe gave none). A failed probe and a short absence
    /// leave it as it is.
    pub open spec fn step(self, now: u64, sample: Option<u64>) -> SessionState {
        SessionState {
            start: if self.restarts(sample) {
                now
            } else {
                self.start
            },
            // Set by an away reading, cleared by an active one.
            has_reset: if is_away(sample) {
                true
            } else if is_active(sample) {
                false
            } else {
                self.has_reset
            },
            // An active reading keeps the mark of its own period, drops
            // that of the period before a long absence, and sets it where
            // it announces the break.
            has_break: if is_active(sample) {
                (self.has_break && !self.has_reset) || self.fires_break(now, sample)
            } else {
                self.has_break
            },
        }
    }

    /// The events of a tick at `now` with the given idle reading, in the
    /// order in which they are due.
    pub open spec fn emits(self, now: u64, sample: Option<u64>) -> Seq<Event> {
        if self.fires_reset(sample) {
            seq![Event::NotifyReset, Event::UpdateTime(0)]
        } else if self.fires_break(now, sample) {
            seq![Event::UpdateTime(self.active_time(now)), Event::NotifyBreak]
        } else if is_active(sample) {
            seq![Event::UpdateTime(self.active_time(now))]
        } else {
            Seq::empty()
        }
    }
}

/// The state of the one session that the monitor tracks. Only `tick`
/// changes it.
#[derive(Debug, Clone, Copy, PartialEq, Eq)]
pub struct Session {
    start: u64,
    has_reset: bool,
    has_break: bool,
}

impl View for Session {
    type V = SessionState;

    closed spec fn view(&self) -> SessionState {
        SessionState { start: self.start, has_reset: self.has_reset, has_break: self.has_break }
    }
}

impl Session {
    /// Opens the session at `now` and gives the event that announces it:
    /// an active time of zero.
    pub fn begin(now: u64) -> (opened: (Session, Vec<Event>))
        ensures
            opened.0@ == SessionState::opened(now),
            opened.1@ == seq![Event::UpdateTime(0)],
    {
        let session = Session { start: now, has_reset: false, has_break: false };
        let mut events: Vec<Event> = Vec::new();
        events.push(Event::UpdateTime(0));
        (session, events)
    }

    /// When the current active period began.
    pub fn start(&self) -> (start: u64)
        ensures
            start == self@.start,
    {
        self.start
    }

    /// Whether a long absence has been announced and not yet ended.
    pub fn has_reset(&self) -> (flag: bool)
        ensures
            flag == self@.has_reset,
    {
        self.has_reset
    }

    /// Whether a break has been announced for the current active period.
    pub fn has_break(&self) -> (flag: bool)
        ensures
            flag == self@.has_break,
    {
        self.has_break
    }

    /// Time from the start of the current active period to `now`.
    pub fn elapsed(&self, now: u64) -> (elapsed: u64)
        ensures
            elapsed == elapsed_between(self@.start, now),
            self@.start <= now ==> elapsed == now - self@.start,
            now <= self@.start ==> elapsed == 0,
    {
        now.saturating_sub(self.start)
    }

    /// One tick of the monitor: takes the clock reading `now` and the idle
    /// reading of this tick (`None` where the probe failed), updates the
    /// session and returns the events that are due, in order.
    pub fn tick(&mut self, now: u64, sample: Option<u64>) -> (events: Vec<Event>)
        ensures
            final(self)@ == old(self)@.step(now, sample),
            events@ == old(self)@.emits(now, sample),
            // A failed probe is no signal at all.
            sample is None ==> events@.len() == 0 && final(self)@ == old(self)@,
            // A short absence neither moves the session nor shows.
            sample matches Some(idle) && IDLE_PAUSE_TIME < idle <= IDLE_RESET_TIME
                ==> events@.len() == 0 && final(self)@ == old(self)@,
            // `start` stays or moves to `now`, so it never moves backwards
            // under a clock that does not.
            final(self)@.start == old(self)@.start || final(self)@.start == now,
            // A long absence stays marked until the user is back at work.
            final(self)@.has_reset == (is_away(sample) || (old(self)@.has_reset
                && !is_active(sample))),
            // A break is only marked once the active time has reached the
            // threshold.
            final(self)@.has_break && !old(self)@.has_break ==> elapsed_between(
                old(self)@.start,
                now,
            ) >= BREAK_TIME,
    {
        let mut events: Vec<Event> = Vec::new();
        if let Some(idle) = sample {
            match classify(idle) {
                Band::Away => {
                    if !self.has_reset {
                        events.push(Event::NotifyReset);
                        events.push(Event::UpdateTime(0));
                        self.has_reset = true;
                    }
                    self.start = now;
                },
                Band::Frozen => {},
                Band::Active => {
                    if self.has_reset {
                        self.start = now;
                        self.has_reset = false;
                        self.has_break = false;
                    }
                    let elapsed: u64 = self.elapsed(now);
                    events.push(Event::UpdateTime(elapsed));
                    if elapsed >= BREAK_TIME && !self.has_break {
                        events.push(Event::NotifyBreak);
                        self.has_break = true;
                    }
                },
            }
        }
        events
    }
}

} // verus!
