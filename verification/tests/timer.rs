use catnip_runtime::error::RuntimeError;
use catnip_runtime::time::Timestamp;
use catnip_runtime::timer::{Timer, TimerEntry, TimerRc, WaitState};

fn at(nanos: u64) -> Timestamp {
    Timestamp::from_nanos(nanos)
}

#[test]
fn clock_starts_where_it_is_told() {
    let timer = Timer::new(at(42));
    assert_eq!(timer.now(), at(42));
}

#[test]
fn advance_clock_moves_the_clock() {
    let mut timer = Timer::new(at(10));
    assert_eq!(timer.advance_clock(at(25)).unwrap(), vec![]);
    assert_eq!(timer.now(), at(25));
}

#[test]
fn advance_clock_to_the_current_time_is_accepted() {
    let mut timer = Timer::new(at(10));
    assert!(timer.advance_clock(at(10)).is_ok());
    assert_eq!(timer.now(), at(10));
}

#[test]
fn advance_clock_refuses_an_earlier_target() {
    let mut timer = Timer::new(at(10));
    let mut fut = timer.wait_until(at(20)).unwrap();
    assert_eq!(timer.advance_clock(at(9)), Err(RuntimeError::ClockRegression));
    assert_eq!(timer.now(), at(10));
    assert_eq!(timer.poll(&mut fut), WaitState::Pending);
}

#[test]
fn clock_never_moves_back_over_a_run_of_calls() {
    let mut timer = Timer::new(at(100));
    let targets = [150u64, 120, 150, 149, 300, 0, 301];
    let mut last = timer.now();
    for target in targets {
        let accepted = timer.advance_clock(at(target)).is_ok();
        assert_eq!(accepted, target >= last.as_nanos());
        assert!(timer.now() >= last);
        if accepted {
            assert_eq!(timer.now(), at(target));
        } else {
            assert_eq!(timer.now(), last);
        }
        last = timer.now();
    }
    assert_eq!(timer.now(), at(301));
}

#[test]
fn deadlines_resolve_in_ascending_order() {
    let mut timer = Timer::new(at(0));
    let late = timer.wait_until(at(30)).unwrap();
    let early = timer.wait_until(at(10)).unwrap();
    let middle = timer.wait_until(at(20)).unwrap();
    let fired = timer.advance_clock(at(30)).unwrap();
    assert_eq!(
        fired,
        vec![
            TimerEntry { deadline: at(10), id: early.id() },
            TimerEntry { deadline: at(20), id: middle.id() },
            TimerEntry { deadline: at(30), id: late.id() },
        ]
    );
    assert_eq!(timer.state(&late), WaitState::Ready);
    assert_eq!(timer.state(&early), WaitState::Ready);
    assert_eq!(timer.state(&middle), WaitState::Ready);
}

#[test]
fn advancing_past_every_deadline_resolves_all() {
    let mut timer = Timer::new(at(5));
    let mut futures = Vec::new();
    for deadline in [10u64, 20, 30, 40, 50] {
        futures.push(timer.wait_until(at(deadline)).unwrap());
    }
    let fired = timer.advance_clock(at(1_000)).unwrap();
    let deadlines: Vec<u64> = fired.iter().map(|e| e.deadline.as_nanos()).collect();
    assert_eq!(deadlines, vec![10, 20, 30, 40, 50]);
    for fut in &futures {
        assert_eq!(timer.state(fut), WaitState::Ready);
    }
    assert_eq!(timer.advance_clock(at(2_000)).unwrap(), vec![]);
}

#[test]
fn advance_resolves_only_what_is_due() {
    let mut timer = Timer::new(at(0));
    let first = timer.wait_until(at(10)).unwrap();
    let second = timer.wait_until(at(20)).unwrap();
    let fired = timer.advance_clock(at(15)).unwrap();
    assert_eq!(fired, vec![TimerEntry { deadline: at(10), id: first.id() }]);
    assert_eq!(timer.state(&first), WaitState::Ready);
    assert_eq!(timer.state(&second), WaitState::Pending);
    let fired = timer.advance_clock(at(20)).unwrap();
    assert_eq!(fired, vec![TimerEntry { deadline: at(20), id: second.id() }]);
    assert_eq!(timer.state(&second), WaitState::Ready);
}

#[test]
fn a_deadline_resolves_when_the_clock_reaches_it_exactly() {
    let mut timer = Timer::new(at(0));
    let fut = timer.wait_until(at(10)).unwrap();
    assert_eq!(timer.advance_clock(at(9)).unwrap(), vec![]);
    assert_eq!(timer.state(&fut), WaitState::Pending);
    assert_eq!(timer.advance_clock(at(10)).unwrap().len(), 1);
    assert_eq!(timer.state(&fut), WaitState::Ready);
}

#[test]
fn ties_resolve_in_registration_order() {
    let mut timer = Timer::new(at(0));
    let first = timer.wait_until(at(10)).unwrap();
    let second = timer.wait_until(at(10)).unwrap();
    let fired = timer.advance_clock(at(10)).unwrap();
    assert_eq!(
        fired,
        vec![
            TimerEntry { deadline: at(10), id: first.id() },
            TimerEntry { deadline: at(10), id: second.id() },
        ]
    );
}

#[test]
fn ties_keep_registration_order_among_other_deadlines() {
    let mut timer = Timer::new(at(0));
    let a = timer.wait_until(at(20)).unwrap();
    let b = timer.wait_until(at(10)).unwrap();
    let c = timer.wait_until(at(20)).unwrap();
    let d = timer.wait_until(at(10)).unwrap();
    let fired = timer.advance_clock(at(20)).unwrap();
    let ids: Vec<u64> = fired.iter().map(|e| e.id).collect();
    assert_eq!(ids, vec![b.id(), d.id(), a.id(), c.id()]);
}

#[test]
fn identities_follow_registration() {
    let mut timer = Timer::new(at(0));
    let a = timer.wait_until(at(5)).unwrap();
    let b = timer.wait_until(at(0)).unwrap();
    let c = timer.wait_until(at(3)).unwrap();
    assert_eq!((a.id(), b.id(), c.id()), (0, 1, 2));
    assert_eq!((a.deadline(), b.deadline(), c.deadline()), (at(5), at(0), at(3)));
}

#[test]
fn a_deadline_already_reached_is_ready_at_once() {
    let mut timer = Timer::new(at(100));
    let mut now = timer.wait_until(at(100)).unwrap();
    let mut past = timer.wait_until(at(99)).unwrap();
    assert_eq!(timer.state(&now), WaitState::Ready);
    assert_eq!(timer.state(&past), WaitState::Ready);
    assert_eq!(timer.poll(&mut now), WaitState::Ready);
    assert_eq!(timer.poll(&mut past), WaitState::Ready);
}

#[test]
fn a_deadline_already_reached_creates_no_queue_entry() {
    let mut timer = Timer::new(at(100));
    let _ready = timer.wait_until(at(50)).unwrap();
    let pending = timer.wait_until(at(150)).unwrap();
    let fired = timer.advance_clock(at(200)).unwrap();
    assert_eq!(fired, vec![TimerEntry { deadline: at(150), id: pending.id() }]);
}

#[test]
fn a_cancelled_future_never_resolves() {
    let mut timer = Timer::new(at(0));
    let doomed = timer.wait_until(at(10)).unwrap();
    timer.cancel(doomed);
    assert_eq!(timer.advance_clock(at(100)).unwrap(), vec![]);
}

#[test]
fn cancellation_leaves_the_order_of_the_others() {
    let mut timer = Timer::new(at(0));
    let a = timer.wait_until(at(10)).unwrap();
    let b = timer.wait_until(at(20)).unwrap();
    let c = timer.wait_until(at(20)).unwrap();
    let d = timer.wait_until(at(30)).unwrap();
    timer.cancel(b);
    let fired = timer.advance_clock(at(30)).unwrap();
    assert_eq!(
        fired,
        vec![
            TimerEntry { deadline: at(10), id: a.id() },
            TimerEntry { deadline: at(20), id: c.id() },
            TimerEntry { deadline: at(30), id: d.id() },
        ]
    );
}

#[test]
fn cancelling_a_resolved_future_changes_nothing() {
    let mut timer = Timer::new(at(0));
    let resolved = timer.wait_until(at(10)).unwrap();
    let waiting = timer.wait_until(at(20)).unwrap();
    assert_eq!(timer.advance_clock(at(10)).unwrap().len(), 1);
    timer.cancel(resolved);
    assert_eq!(timer.state(&waiting), WaitState::Pending);
    let fired = timer.advance_clock(at(20)).unwrap();
    assert_eq!(fired, vec![TimerEntry { deadline: at(20), id: waiting.id() }]);
}

#[test]
fn a_ready_future_gives_its_completion_once() {
    let mut timer = Timer::new(at(0));
    let mut fut = timer.wait_until(at(10)).unwrap();
    assert_eq!(timer.poll(&mut fut), WaitState::Pending);
    assert_eq!(timer.poll(&mut fut), WaitState::Pending);
    timer.advance_clock(at(10)).unwrap();
    assert_eq!(timer.poll(&mut fut), WaitState::Ready);
    assert_eq!(timer.poll(&mut fut), WaitState::Consumed);
    assert_eq!(timer.state(&fut), WaitState::Consumed);
}

#[test]
fn asking_for_the_state_consumes_nothing() {
    let mut timer = Timer::new(at(0));
    let mut fut = timer.wait_until(at(10)).unwrap();
    timer.advance_clock(at(10)).unwrap();
    assert_eq!(timer.state(&fut), WaitState::Ready);
    assert_eq!(timer.state(&fut), WaitState::Ready);
    assert_eq!(timer.poll(&mut fut), WaitState::Ready);
}

#[test]
fn the_handle_gives_its_timer() {
    let mut handle = TimerRc(Timer::new(at(7)));
    assert_eq!(handle.timer().now(), at(7));
    handle.0.advance_clock(at(9)).unwrap();
    assert_eq!(handle.timer().now(), at(9));
}
