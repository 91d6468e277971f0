use vstd::prelude::*;
use crate::event::Event;
use crate::session::{Session, SessionState};

verus! {

/// What the monitor reads on one tick.
#[derive(Debug, Clone, Copy, PartialEq, Eq)]
pub struct Tick {
    /// The clock reading, in nanoseconds.
    pub now: u64,
    /// The idle reading, in nanoseconds; `None` where the probe failed.
    pub sample: Option<u64>,
}

/// The session after the ticks of `ticks`, taken in order from `s`.
pub open spec fn run_state(s: SessionState, ticks: Seq<Tick>) -> SessionState
    decreases ticks.len(),
{
    if ticks.len() == 0 {
        s
    } else {
        run_state(s, ticks.drop_last()).step(ticks.last().now, ticks.last().sample)
    }
}

/// The events of the ticks of `ticks`, taken in order from `s`.
pub open spec fn run_events(s: SessionState, ticks: Seq<Tick>) -> Seq<Event>
    decreases ticks.len(),
{
    if ticks.len() == 0 {
        Seq::empty()
    } else {
        run_events(s, ticks.drop_last()) + run_state(s, ticks.drop_last()).emits(
            ticks.last().now,
            ticks.last().sample,
        )
    }
}

impl Session {
    /// Takes the ticks of `ticks` in order and returns all their events,
    /// in the order in which they came.
    pub fn run(&mut self, ticks: &[Tick]) -> (events: Vec<Event>)
        ensures
            final(self)@ == run_state(old(self)@, ticks@),
            events@ == run_events(old(self)@, ticks@),
    {
        let ghost before = self@;
        let mut events: Vec<Event> = Vec::new();
        let mut i: usize = 0;
        while i < ticks.len()
            invariant
                i <= ticks.len(),
                self@ == run_state(before, ticks@.take(i as int)),
                events@ == run_events(before, ticks@.take(i as int)),
            decreases ticks.len() - i,
        {
            let tick: Tick = ticks[i];
            let mut due: Vec<Event> = self.tick(tick.now, tick.sample);
            events.append(&mut due);
            proof {
                assert(ticks@.take(i + 1).drop_last() == ticks@.take(i as int));
            }
            i += 1;
        }
        proof {
            assert(ticks@.take(ticks.len() as int) == ticks@);
        }
        events
    }
}

} // verus!
