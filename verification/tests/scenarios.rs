use pauza::threshold::{BREAK_TIME, NANOS_PER_SEC};
use pauza::{Event, Session, Tick};

const SEC: u64 = NANOS_PER_SEC;

fn at_work(second: u64) -> Tick {
    Tick { now: second * SEC, sample: Some(0) }
}

fn idle_for(second: u64, idle_seconds: u64) -> Tick {
    Tick { now: second * SEC, sample: Some(idle_seconds * SEC) }
}

fn no_reading(second: u64) -> Tick {
    Tick { now: second * SEC, sample: None }
}

#[test]
fn three_active_ticks_report_each_second() {
    let (mut session, mut events) = Session::begin(0);
    for second in 1..=3 {
        events.extend(session.tick(second * SEC, Some(0)));
    }
    assert_eq!(
        events,
        vec![
            Event::UpdateTime(0),
            Event::UpdateTime(SEC),
            Event::UpdateTime(2 * SEC),
            Event::UpdateTime(3 * SEC),
        ]
    );
}

#[test]
fn short_absence_shows_nothing_and_keeps_the_session() {
    let (mut session, _) = Session::begin(0);
    let before: Vec<Tick> = (1..=3).map(at_work).collect();
    assert_eq!(session.run(&before).last(), Some(&Event::UpdateTime(3 * SEC)));
    let held = session;

    for second in 4..14 {
        let events = session.tick(second * SEC, Some(120 * SEC));
        assert_eq!(events, vec![]);
        assert_eq!(session, held);
    }

    // Back at work: the same session goes on, measured from the start that
    // the absence left alone. No reset, no fresh session.
    let events = session.tick(14 * SEC, Some(0));
    assert_eq!(events, vec![Event::UpdateTime(14 * SEC)]);
    assert_eq!(session.start(), 0);
    assert!(!session.has_reset());
    assert!(!session.has_break());
}

#[test]
fn long_absence_is_announced_once_and_ends_on_return() {
    let (mut session, _) = Session::begin(0);
    session.run(&(1..=3).map(at_work).collect::<Vec<Tick>>());

    let events = session.tick(4 * SEC, Some(310 * SEC));
    assert_eq!(events, vec![Event::NotifyReset, Event::UpdateTime(0)]);
    assert!(session.has_reset());

    for second in 5..10 {
        let events = session.tick(second * SEC, Some((310 + second) * SEC));
        assert_eq!(events, vec![]);
        assert!(session.has_reset());
        assert_eq!(session.start(), second * SEC);
    }

    let events = session.tick(10 * SEC, Some(0));
    assert_eq!(events, vec![Event::UpdateTime(0)]);
    assert!(!session.has_reset());
    assert!(!session.has_break());
    assert_eq!(session.start(), 10 * SEC);
}

#[test]
fn break_fires_on_tick_2700_and_never_again() {
    let (mut session, startup) = Session::begin(0);
    assert_eq!(startup, vec![Event::UpdateTime(0)]);

    for second in 1..2700 {
        let events = session.tick(second * SEC, Some(0));
        assert_eq!(events, vec![Event::UpdateTime(second * SEC)]);
        assert!(!session.has_break());
    }

    let events = session.tick(2700 * SEC, Some(0));
    assert_eq!(events, vec![Event::UpdateTime(2700 * SEC), Event::NotifyBreak]);
    assert_eq!(2700 * SEC, BREAK_TIME);
    assert!(session.has_break());

    let events = session.tick(2701 * SEC, Some(0));
    assert_eq!(events, vec![Event::UpdateTime(2701 * SEC)]);

    for second in 2702..3000 {
        let events = session.tick(second * SEC, Some(0));
        assert_eq!(events, vec![Event::UpdateTime(second * SEC)]);
    }
}

#[test]
fn failed_probes_are_ticks_that_did_not_occur() {
    let (mut session, _) = Session::begin(0);
    session.run(&(1..=20).map(at_work).collect::<Vec<Tick>>());
    let mut twin = session;

    for second in 21..=25 {
        let events = session.tick(second * SEC, None);
        assert_eq!(events, vec![]);
        assert_eq!(session, twin);
    }

    // The next reading is reported as it would have been without them.
    let events = session.tick(26 * SEC, Some(0));
    assert_eq!(events, vec![Event::UpdateTime(26 * SEC)]);
    assert_eq!(events, twin.tick(26 * SEC, Some(0)));
    assert_eq!(session, twin);
}

#[test]
fn a_whole_day_in_one_run() {
    // Work, a short absence, work up to a break, a long absence with one
    // failed probe in it, and work again.
    let mut ticks: Vec<Tick> = Vec::new();
    ticks.extend((1..=2).map(at_work));
    ticks.push(idle_for(3, 61));
    ticks.push(at_work(2700));
    ticks.push(at_work(2701));
    ticks.push(idle_for(3002, 301));
    ticks.push(no_reading(3003));
    ticks.push(idle_for(3004, 303));
    ticks.push(at_work(3005));
    ticks.push(at_work(3006));

    let (mut session, mut events) = Session::begin(0);
    events.extend(session.run(&ticks));
    assert_eq!(
        events,
        vec![
            Event::UpdateTime(0),
            Event::UpdateTime(SEC),
            Event::UpdateTime(2 * SEC),
            Event::UpdateTime(2700 * SEC),
            Event::NotifyBreak,
            Event::UpdateTime(2701 * SEC),
            Event::NotifyReset,
            Event::UpdateTime(0),
            Event::UpdateTime(0),
            Event::UpdateTime(SEC),
        ]
    );
    assert_eq!(session.start(), 3005 * SEC);
    assert!(!session.has_reset());
    assert!(!session.has_break());
}
