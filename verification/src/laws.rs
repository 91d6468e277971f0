use vstd::prelude::*;
use crate::event::Event;
use crate::threshold::{is_active, is_away, BREAK_TIME};
use crate::session::{elapsed_between, SessionState};
use crate::trace::{run_events, run_state, Tick};

verus! {

/// How often `wanted` occurs in `events`.
pub open spec fn count(events: Seq<Event>, wanted: Event) -> nat
    decreases events.len(),
{
    if events.len() == 0 {
        0
    } else {
        count(events.drop_last(), wanted) + if events.last() == wanted {
            1nat
        } else {
            0nat
        }
    }
}

/// No reading of `ticks` shows the user at work.
pub open spec fn never_active(ticks: Seq<Tick>) -> bool {
    forall|i: int| 0 <= i < ticks.len() ==> !is_active((#[trigger] ticks[i]).sample)
}

/// No reading of `ticks` shows the user gone.
pub open spec fn never_away(ticks: Seq<Tick>) -> bool {
    forall|i: int| 0 <= i < ticks.len() ==> !is_away((#[trigger] ticks[i]).sample)
}

/// Some reading of `ticks` shows the user gone.
pub open spec fn ever_away(ticks: Seq<Tick>) -> bool {
    exists|i: int| 0 <= i < ticks.len() && is_away((#[trigger] ticks[i]).sample)
}

/// The clock of `ticks` never reads earlier than `from`, nor on one tick
/// earlier than on the tick before.
pub open spec fn clock_runs_forward(from: u64, ticks: Seq<Tick>) -> bool {
    &&& forall|i: int| 0 <= i < ticks.len() ==> from <= (#[trigger] ticks[i]).now
    &&& forall|i: int, j: int|
        0 <= i <= j < ticks.len() ==> (#[trigger] ticks[i]).now <= (#[trigger] ticks[j]).now
}

/// Some active reading of `ticks` comes `BREAK_TIME` or more after `start`.
pub open spec fn reaches_break(start: u64, ticks: Seq<Tick>) -> bool {
    exists|i: int|
        0 <= i < ticks.len() && is_active((#[trigger] ticks[i]).sample)
            && elapsed_between(start, ticks[i].now) >= BREAK_TIME
}

proof fn lemma_count_push(events: Seq<Event>, last: Event, wanted: Event)
    ensures
        count(events.push(last), wanted) == count(events, wanted) + if last == wanted {
            1nat
        } else {
            0nat
        },
{
    assert(events.push(last).drop_last() == events);
}

proof fn lemma_count_concat(front: Seq<Event>, back: Seq<Event>, wanted: Event)
    ensures
        count(front + back, wanted) == count(front, wanted) + count(back, wanted),
    decreases back.len(),
{
    if back.len() == 0 {
        assert(front + back == front);
    } else {
        lemma_count_concat(front, back.drop_last(), wanted);
        assert((front + back).drop_last() == front + back.drop_last());
    }
}

/// What one tick adds to the count of each notification: a break where
/// the tick announces one, a long absence where it announces one.
proof fn lemma_count_tick(s: SessionState, now: u64, sample: Option<u64>)
    ensures
        count(s.emits(now, sample), Event::NotifyBreak) == if s.fires_break(now, sample) {
            1nat
        } else {
            0nat
        },
        count(s.emits(now, sample), Event::NotifyReset) == if s.fires_reset(sample) {
            1nat
        } else {
            0nat
        },
{
    let none = Seq::<Event>::empty();
    let time = Event::UpdateTime(s.active_time(now));
    let due = s.emits(now, sample);
    assert(count(none, Event::NotifyBreak) == 0 && count(none, Event::NotifyReset) == 0);
    if s.fires_reset(sample) {
        assert(due == none.push(Event::NotifyReset).push(Event::UpdateTime(0)));
        lemma_count_push(none, Event::NotifyReset, Event::NotifyBreak);
        lemma_count_push(none, Event::NotifyReset, Event::NotifyReset);
        lemma_count_push(none.push(Event::NotifyReset), Event::UpdateTime(0), Event::NotifyBreak);
        lemma_count_push(none.push(Event::NotifyReset), Event::UpdateTime(0), Event::NotifyReset);
    } else if s.fires_break(now, sample) {
        assert(due == none.push(time).push(Event::NotifyBreak));
        lemma_count_push(none, time, Event::NotifyBreak);
        lemma_count_push(none, time, Event::NotifyReset);
        lemma_count_push(none.push(time), Event::NotifyBreak, Event::NotifyBreak);
        lemma_count_push(none.push(time), Event::NotifyBreak, Event::NotifyReset);
    } else if is_active(sample) {
        assert(due == none.push(time));
        lemma_count_push(none, time, Event::NotifyBreak);
        lemma_count_push(none, time, Event::NotifyReset);
    } else {
        assert(due == none);
    }
}

/// What `never_active` says of a run says it of all but the last tick
/// and of the last.
proof fn lemma_never_active_unfolds(ticks: Seq<Tick>)
    requires
        never_active(ticks),
        ticks.len() > 0,
    ensures
        never_active(ticks.drop_last()),
        !is_active(ticks.last().sample),
{
    let earlier = ticks.drop_last();
    assert forall|i: int| 0 <= i < earlier.len() implies !is_active(
        (#[trigger] earlier[i]).sample,
    ) by {
        assert(earlier[i] == ticks[i]);
    }
    assert(ticks.last() == ticks[ticks.len() - 1]);
}

/// What `never_away` says of a run says it of all but the last tick and
/// of the last.
proof fn lemma_never_away_unfolds(ticks: Seq<Tick>)
    requires
        never_away(ticks),
        ticks.len() > 0,
    ensures
        never_away(ticks.drop_last()),
        !is_away(ticks.last().sample),
{
    let earlier = ticks.drop_last();
    assert forall|i: int| 0 <= i < earlier.len() implies !is_away(
        (#[trigger] earlier[i]).sample,
    ) by {
        assert(earlier[i] == ticks[i]);
    }
    assert(ticks.last() == ticks[ticks.len() - 1]);
}

/// The user is seen gone on a run if seen gone before its last tick or
/// on it.
proof fn lemma_ever_away_unfolds(ticks: Seq<Tick>)
    requires
        ticks.len() > 0,
    ensures
        ever_away(ticks) == (ever_away(ticks.drop_last())
            || is_away(ticks.last().sample)),
{
    let earlier = ticks.drop_last();
    if ever_away(earlier) {
        let i = choose|i: int|
            0 <= i < earlier.len() && is_away((#[trigger] earlier[i]).sample);
        assert(ticks[i] == earlier[i]);
    }
    if is_away(ticks.last().sample) {
        assert(ticks[ticks.len() - 1] == ticks.last());
    }
    if ever_away(ticks) {
        let i = choose|i: int|
            0 <= i < ticks.len() && is_away((#[trigger] ticks[i]).sample);
        if i < earlier.len() {
            assert(earlier[i] == ticks[i]);
        }
    }
}

/// A run reaches the break if it does before its last tick or on it.
proof fn lemma_reaches_break_unfolds(start: u64, ticks: Seq<Tick>)
    requires
        ticks.len() > 0,
    ensures
        reaches_break(start, ticks) == (reaches_break(start, ticks.drop_last())
            || (is_active(ticks.last().sample)
                && elapsed_between(start, ticks.last().now) >= BREAK_TIME)),
{
    let earlier = ticks.drop_last();
    if reaches_break(start, earlier) {
        let i = choose|i: int|
            0 <= i < earlier.len() && is_active((#[trigger] earlier[i]).sample)
                && elapsed_between(start, earlier[i].now) >= BREAK_TIME;
        assert(ticks[i] == earlier[i]);
    }
    if is_active(ticks.last().sample)
        && elapsed_between(start, ticks.last().now) >= BREAK_TIME {
        assert(ticks[ticks.len() - 1] == ticks.last());
    }
    if reaches_break(start, ticks) {
        let i = choose|i: int|
            0 <= i < ticks.len() && is_active((#[trigger] ticks[i]).sample)
                && elapsed_between(start, ticks[i].now) >= BREAK_TIME;
        if i < earlier.len() {
            assert(earlier[i] == ticks[i]);
        }
    }
}

/// Ticks taken in two runs, the second from where the first ended, give
/// the state and the events of the one run over all of them.
pub proof fn lemma_run_in_two_parts(s: SessionState, first: Seq<Tick>, second: Seq<Tick>)
    ensures
        run_state(s, first + second) == run_state(run_state(s, first), second),
        run_events(s, first + second)
            == run_events(s, first) + run_events(run_state(s, first), second),
    decreases second.len(),
{
    if second.len() == 0 {
        assert(first + second == first);
    } else {
        lemma_run_in_two_parts(s, first, second.drop_last());
        assert((first + second).drop_last() == first + second.drop_last());
    }
}

/// A run of ticks on which the probe fails or the user is briefly absent
/// shows nothing and leaves the session as it was, however long it lasts.
pub proof fn lemma_quiet_ticks_change_nothing(s: SessionState, ticks: Seq<Tick>)
    requires
        never_active(ticks),
        never_away(ticks),
    ensures
        run_state(s, ticks) == s,
        run_events(s, ticks) == Seq::<Event>::empty(),
    decreases ticks.len(),
{
    if ticks.len() > 0 {
        lemma_never_active_unfolds(ticks);
        lemma_never_away_unfolds(ticks);
        lemma_quiet_ticks_change_nothing(s, ticks.drop_last());
    }
}

/// Ticks on which the probe fails or the user is briefly absent can be
/// left out of a run: what comes before and after them is the same with
/// them as without.
pub proof fn lemma_quiet_ticks_can_be_left_out(
    s: SessionState,
    before: Seq<Tick>,
    quiet: Seq<Tick>,
    after: Seq<Tick>,
)
    requires
        never_active(quiet),
        never_away(quiet),
    ensures
        run_state(s, before + quiet + after) == run_state(s, before + after),
        run_events(s, before + quiet + after) == run_events(s, before + after),
{
    let held = run_state(s, before);
    lemma_run_in_two_parts(s, before + quiet, after);
    lemma_run_in_two_parts(s, before, quiet);
    lemma_run_in_two_parts(s, before, after);
    lemma_quiet_ticks_change_nothing(held, quiet);
    assert(run_events(s, before) + Seq::<Event>::empty() == run_events(s, before));
}

/// Under a clock that runs forward, `start` never moves back, and never
/// ahead of the clock.
pub proof fn lemma_start_moves_forward(s: SessionState, ticks: Seq<Tick>)
    requires
        clock_runs_forward(s.start, ticks),
    ensures
        s.start <= run_state(s, ticks).start,
        ticks.len() > 0 ==> run_state(s, ticks).start <= ticks.last().now,
        forall|i: int|
            0 <= i < ticks.len() ==> run_state(s, ticks.take(i)).start
                <= run_state(s, #[trigger] ticks.take(i + 1)).start,
    decreases ticks.len(),
{
    if ticks.len() > 0 {
        let earlier = ticks.drop_last();
        assert(clock_runs_forward(s.start, earlier)) by {
            assert forall|i: int| 0 <= i < earlier.len() implies s.start <= (#[trigger] earlier[i]).now by {
                assert(earlier[i] == ticks[i]);
            }
            assert forall|i: int, j: int| 0 <= i <= j < earlier.len() implies
                (#[trigger] earlier[i]).now <= (#[trigger] earlier[j]).now by {
                assert(earlier[i] == ticks[i]);
                assert(earlier[j] == ticks[j]);
            }
        }
        lemma_start_moves_forward(s, earlier);
        if earlier.len() > 0 {
            assert(earlier.last() == ticks[earlier.len() - 1]);
        }
        assert forall|i: int| 0 <= i < ticks.len() implies run_state(s, ticks.take(i)).start
            <= run_state(s, #[trigger] ticks.take(i + 1)).start by {
            if i < earlier.len() {
                assert(ticks.take(i) == earlier.take(i));
                assert(ticks.take(i + 1) == earlier.take(i + 1));
            } else {
                assert(ticks.take(i) == earlier);
                assert(ticks.take(i + 1) == ticks);
            }
        }
    }
}

/// While every active reading finds the active time below `BREAK_TIME`,
/// no break is announced.
pub proof fn lemma_no_break_below_threshold(s: SessionState, ticks: Seq<Tick>)
    requires
        forall|i: int|
            0 <= i < ticks.len() && is_active((#[trigger] ticks[i]).sample)
                ==> run_state(s, ticks.take(i)).active_time(ticks[i].now) < BREAK_TIME,
    ensures
        count(run_events(s, ticks), Event::NotifyBreak) == 0,
    decreases ticks.len(),
{
    if ticks.len() > 0 {
        let earlier = ticks.drop_last();
        let last = ticks.last();
        assert forall|i: int|
            0 <= i < earlier.len() && is_active((#[trigger] earlier[i]).sample)
            implies run_state(s, earlier.take(i)).active_time(earlier[i].now) < BREAK_TIME by {
            assert(earlier[i] == ticks[i]);
            assert(earlier.take(i) == ticks.take(i));
        }
        lemma_no_break_below_threshold(s, earlier);
        assert(ticks.take(ticks.len() - 1) == earlier);
        let at_last = run_state(s, earlier);
        assert(!at_last.fires_break(last.now, last.sample));
        lemma_count_tick(at_last, last.now, last.sample);
        lemma_count_concat(
            run_events(s, earlier),
            at_last.emits(last.now, last.sample),
            Event::NotifyBreak,
        );
    }
}

/// Within one session, that is from a state outside a long absence and
/// over readings none of which shows the user gone, a break is announced
/// at most once: once if none was announced before and some active reading
/// comes `BREAK_TIME` or more after the session's start, however many
/// active readings follow it, and else not at all. The session's start
/// stays where it was.
pub proof fn lemma_one_break_per_session(s: SessionState, ticks: Seq<Tick>)
    requires
        !s.has_reset,
        never_away(ticks),
    ensures
        count(run_events(s, ticks), Event::NotifyBreak) == if !s.has_break
            && reaches_break(s.start, ticks) {
            1nat
        } else {
            0nat
        },
        run_state(s, ticks).has_break == (s.has_break || reaches_break(s.start, ticks)),
        run_state(s, ticks).start == s.start,
        !run_state(s, ticks).has_reset,
    decreases ticks.len(),
{
    if ticks.len() > 0 {
        let earlier = ticks.drop_last();
        let last = ticks.last();
        lemma_never_away_unfolds(ticks);
        lemma_reaches_break_unfolds(s.start, ticks);
        lemma_one_break_per_session(s, earlier);
        let at_last = run_state(s, earlier);
        lemma_count_tick(at_last, last.now, last.sample);
        lemma_count_concat(
            run_events(s, earlier),
            at_last.emits(last.now, last.sample),
            Event::NotifyBreak,
        );
    } else {
        assert(!reaches_break(s.start, ticks));
    }
}

/// From any state, over readings none of which shows the user gone, a
/// break is announced at most once, and once it is, the session is marked
/// as having had its break.
pub proof fn lemma_at_most_one_break_between_resets(s: SessionState, ticks: Seq<Tick>)
    requires
        never_away(ticks),
    ensures
        count(run_events(s, ticks), Event::NotifyBreak) <= 1,
        count(run_events(s, ticks), Event::NotifyBreak) == 1 ==> run_state(s, ticks).has_break
            && !run_state(s, ticks).has_reset,
    decreases ticks.len(),
{
    if ticks.len() > 0 {
        let earlier = ticks.drop_last();
        let last = ticks.last();
        lemma_never_away_unfolds(ticks);
        lemma_at_most_one_break_between_resets(s, earlier);
        let at_last = run_state(s, earlier);
        lemma_count_tick(at_last, last.now, last.sample);
        lemma_count_concat(
            run_events(s, earlier),
            at_last.emits(last.now, last.sample),
            Event::NotifyBreak,
        );
    }
}

/// Within one absence, that is over readings none of which shows the user
/// at work, the long absence is announced at most once: once if it was not
/// announced before and some reading shows the user gone, however many
/// such readings follow, and else not at all.
pub proof fn lemma_one_reset_per_absence(s: SessionState, ticks: Seq<Tick>)
    requires
        never_active(ticks),
    ensures
        count(run_events(s, ticks), Event::NotifyReset) == if !s.has_reset && ever_away(ticks) {
            1nat
        } else {
            0nat
        },
        run_state(s, ticks).has_reset == (s.has_reset || ever_away(ticks)),
        run_state(s, ticks).has_break == s.has_break,
    decreases ticks.len(),
{
    if ticks.len() > 0 {
        let earlier = ticks.drop_last();
        let last = ticks.last();
        lemma_never_active_unfolds(ticks);
        lemma_ever_away_unfolds(ticks);
        lemma_one_reset_per_absence(s, earlier);
        let at_last = run_state(s, earlier);
        lemma_count_tick(at_last, last.now, last.sample);
        lemma_count_concat(
            run_events(s, earlier),
            at_last.emits(last.now, last.sample),
            Event::NotifyReset,
        );
    } else {
        assert(!ever_away(ticks));
    }
}

/// After a long absence was announced, on the tick `left`, and whatever
/// readings other than active ones follow, the first active reading, `back`,
/// reports an active time of zero and opens a fresh session at its own
/// clock reading. From there on, whatever readings follow that do not show
/// the user gone, the next one that does, `gone`, is announced again.
pub proof fn lemma_return_rearms_reset(
    s: SessionState,
    left: Tick,
    waiting: Seq<Tick>,
    back: Tick,
    working: Seq<Tick>,
    gone: Tick,
)
    requires
        s.emits(left.now, left.sample).contains(Event::NotifyReset),
        never_active(waiting),
        is_active(back.sample),
        never_away(working),
        is_away(gone.sample),
    ensures
        ({
            let absent = run_state(s.step(left.now, left.sample), waiting);
            let fresh = absent.step(back.now, back.sample);
            let later = run_state(fresh, working);
            &&& absent.has_reset
            &&& count(run_events(s.step(left.now, left.sample), waiting), Event::NotifyReset) == 0
            &&& absent.emits(back.now, back.sample) == seq![Event::UpdateTime(0)]
            &&& fresh == SessionState::opened(back.now)
            &&& later.emits(gone.now, gone.sample) == seq![
                Event::NotifyReset,
                Event::UpdateTime(0),
            ]
        }),
{
    let after_left = s.step(left.now, left.sample);
    assert(s.fires_reset(left.sample)) by {
        let due = s.emits(left.now, left.sample);
        let i = choose|i: int| 0 <= i < due.len() && due[i] == Event::NotifyReset;
        assert(due[i] == Event::NotifyReset);
    }
    lemma_one_reset_per_absence(after_left, waiting);
    let absent = run_state(after_left, waiting);
    let fresh = absent.step(back.now, back.sample);
    lemma_one_break_per_session(fresh, working);
}

} // verus!
