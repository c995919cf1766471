use mail_notifier::exp_backoff::State;
use mail_notifier::supervisor::{
    attempt_ended, attempt_started, run_scripted, Next, Outcome, SupervisorEvent,
};
use std::time::Duration;

type Event = SupervisorEvent<u32, String, String>;

fn policy() -> State {
    State {
        factor: 2,
        max: Duration::from_secs(30),
        value: Duration::from_secs(1),
    }
}

fn show(events: &[Event]) -> Vec<String> {
    events
        .iter()
        .map(|event| match event {
            SupervisorEvent::Started => "started".to_string(),
            SupervisorEvent::Done { value } => format!("done {value}"),
            SupervisorEvent::Error {
                error,
                next_retry_in,
            } => format!("error {error} {}", next_retry_in.as_secs()),
            SupervisorEvent::Panicked {
                panic_payload,
                next_retry_in,
            } => format!("panicked {panic_payload} {}", next_retry_in.as_secs()),
        })
        .collect()
}

#[test]
fn failures_then_success_are_reported_with_the_backoff_delays() {
    let outcomes = vec![
        Outcome::Error("a".to_string()),
        Outcome::Error("b".to_string()),
        Outcome::Error("c".to_string()),
        Outcome::Value(7),
    ];
    let events = run_scripted(policy(), outcomes);
    assert_eq!(
        show(&events),
        vec![
            "started", "error a 1", "started", "error b 2", "started", "error c 4", "started",
            "done 7"
        ]
    );
}

#[test]
fn delays_are_clamped_in_the_reports() {
    let outcomes: Vec<Outcome<u32, String, String>> =
        (0..7).map(|i| Outcome::Error(format!("{i}"))).collect();
    let events = run_scripted(policy(), outcomes);
    let delays: Vec<u64> = events
        .iter()
        .filter_map(|event| match event {
            SupervisorEvent::Error { next_retry_in, .. } => Some(next_retry_in.as_secs()),
            _ => None,
        })
        .collect();
    assert_eq!(delays, vec![1, 2, 4, 8, 16, 30, 30]);
}

#[test]
fn a_panic_is_contained_and_followed_by_a_retry() {
    let outcomes = vec![Outcome::Panic("boom".to_string()), Outcome::Value(1)];
    let events = run_scripted(policy(), outcomes);
    assert_eq!(
        show(&events),
        vec!["started", "panicked boom 1", "started", "done 1"]
    );
}

#[test]
fn success_at_once_is_started_and_done() {
    let events: Vec<Event> = run_scripted(policy(), vec![Outcome::Value(3)]);
    assert_eq!(show(&events), vec!["started", "done 3"]);
}

#[test]
fn nothing_follows_done() {
    let outcomes = vec![
        Outcome::Value(3),
        Outcome::Error("late".to_string()),
        Outcome::Value(4),
    ];
    let events = run_scripted(policy(), outcomes);
    assert_eq!(show(&events), vec!["started", "done 3"]);
}

#[test]
fn a_run_that_has_not_succeeded_has_started_its_next_attempt() {
    let events: Vec<Event> = run_scripted(policy(), vec![]);
    assert_eq!(show(&events), vec!["started"]);
    let events: Vec<Event> = run_scripted(policy(), vec![Outcome::Error("a".to_string())]);
    assert_eq!(show(&events), vec!["started", "error a 1", "started"]);
}

#[test]
fn a_value_leaves_the_backoff_untouched() {
    let mut backoff = policy();
    let verdict = attempt_ended::<u32, String, String>(&mut backoff, Outcome::Value(9));
    assert!(matches!(verdict.event, SupervisorEvent::Done { value: 9 }));
    assert!(matches!(verdict.next, Next::Finish));
    assert_eq!(backoff.value, Duration::from_secs(1));
}

#[test]
fn a_failure_advances_the_backoff_and_sleeps_the_reported_delay() {
    let mut backoff = policy();
    let verdict = attempt_ended::<u32, String, String>(&mut backoff, Outcome::Error("e".into()));
    match verdict.event {
        SupervisorEvent::Error {
            error,
            next_retry_in,
        } => {
            assert_eq!(error, "e");
            assert_eq!(next_retry_in, Duration::from_secs(1));
        }
        _ => panic!("an error is reported as an error"),
    }
    assert!(matches!(verdict.next, Next::RetryAfter(delay) if delay == Duration::from_secs(1)));
    assert_eq!(backoff.value, Duration::from_secs(2));

    let verdict = attempt_ended::<u32, String, String>(&mut backoff, Outcome::Panic("p".into()));
    match verdict.event {
        SupervisorEvent::Panicked {
            panic_payload,
            next_retry_in,
        } => {
            assert_eq!(panic_payload, "p");
            assert_eq!(next_retry_in, Duration::from_secs(2));
        }
        _ => panic!("a panic is reported as a panic"),
    }
    assert_eq!(backoff.value, Duration::from_secs(4));
}

#[test]
fn every_attempt_starts_with_started() {
    assert!(matches!(
        attempt_started::<u32, String, String>(),
        SupervisorEvent::Started
    ));
}
