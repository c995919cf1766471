use std::time::Duration;

use mail_notifier::imap_checker::{
    fetch_counts, is_new_mail, monitor_step, start_monitor, watch_scripted, Command, FetchCountsError,
    IdleResponse, MailboxCounts, MonitorError, MonitorState, Password, Reply,
};

const TIMEOUT: Duration = Duration::from_secs(300);

const IDLE: Command = Command::Idle { timeout: TIMEOUT };

fn status(total: u32, unread: u32) -> Reply<String> {
    Reply::Status {
        exists: total,
        unseen: Some(unread),
    }
}

fn counts(total: u32, unread: u32) -> MailboxCounts {
    MailboxCounts { total, unread }
}

#[test]
fn repeated_counts_are_not_reported_again() {
    let watch = watch_scripted(TIMEOUT, vec![
        Reply::Capabilities { idle: true },
        Reply::Selected,
        status(5, 2),
        Reply::Idle(IdleResponse::Timeout),
        status(5, 2),
        Reply::Idle(IdleResponse::NewData),
        status(7, 2),
    ]);
    assert_eq!(watch.notifications, vec![counts(5, 2), counts(7, 2)]);
    assert!(watch.error.is_none());
    assert_eq!(
        watch.commands,
        vec![
            Command::Capabilities,
            Command::Select,
            Command::Status,
            IDLE,
            Command::Status,
            IDLE,
            Command::Status,
            IDLE,
        ]
    );
}

#[test]
fn a_server_without_the_capability_is_refused_before_any_select_or_status() {
    let watch: mail_notifier::imap_checker::Watch<String> =
        watch_scripted(TIMEOUT, vec![Reply::Capabilities { idle: false }, Reply::Selected]);
    assert!(matches!(watch.error, Some(MonitorError::IdleNotSupported)));
    assert_eq!(watch.commands, vec![Command::Capabilities]);
    assert!(watch.notifications.is_empty());
}

#[test]
fn the_first_counts_are_reported_even_if_zero() {
    let watch = watch_scripted(TIMEOUT, vec![
        Reply::<String>::Capabilities { idle: true },
        Reply::Selected,
        Reply::Status {
            exists: 0,
            unseen: None,
        },
    ]);
    assert_eq!(watch.notifications, vec![counts(0, 0)]);
}

#[test]
fn decreases_are_reported_too() {
    let watch = watch_scripted(TIMEOUT, vec![
        Reply::Capabilities { idle: true },
        Reply::Selected,
        status(7, 3),
        Reply::Idle(IdleResponse::ManualInterrupt),
        status(6, 3),
        Reply::Idle(IdleResponse::Timeout),
        status(6, 0),
        Reply::Idle(IdleResponse::Timeout),
        status(6, 0),
    ]);
    assert_eq!(
        watch.notifications,
        vec![counts(7, 3), counts(6, 3), counts(6, 0)]
    );
}

#[test]
fn all_ways_out_of_the_wait_are_treated_alike() {
    for response in [
        IdleResponse::Timeout,
        IdleResponse::ManualInterrupt,
        IdleResponse::NewData,
    ] {
        let mut state = MonitorState::Idle(counts(1, 1));
        let step = monitor_step(&mut state, TIMEOUT, Reply::<String>::Idle(response));
        assert_eq!(state, MonitorState::Diffing(counts(1, 1)));
        assert!(step.notify.is_none());
        assert!(matches!(step.next, Ok(Command::Status)));
    }
}

#[test]
fn a_missing_unseen_count_is_zero() {
    assert_eq!(fetch_counts(12, None), counts(12, 0));
    assert_eq!(fetch_counts(12, Some(4)), counts(12, 4));
}

#[test]
fn a_failed_command_ends_the_monitor_with_its_error() {
    let (mut state, first) = start_monitor();
    assert_eq!(first, Command::Capabilities);
    let step = monitor_step(&mut state, TIMEOUT, Reply::Failed("reset".to_string()));
    assert!(matches!(step.next, Err(MonitorError::Imap(e)) if e == "reset"));
    assert_eq!(state, MonitorState::Failed);

    let mut state = MonitorState::Selecting;
    let step = monitor_step(&mut state, TIMEOUT, Reply::Failed("no such mailbox".to_string()));
    assert!(matches!(step.next, Err(MonitorError::Imap(_))));

    let mut state = MonitorState::Idle(counts(1, 0));
    let step = monitor_step(&mut state, TIMEOUT, Reply::Failed("closed".to_string()));
    assert!(matches!(step.next, Err(MonitorError::Imap(_))));
}

#[test]
fn a_failed_status_query_is_a_count_query_error() {
    for start in [MonitorState::InitialCounts, MonitorState::Diffing(counts(1, 0))] {
        let mut state = start;
        let step = monitor_step(&mut state, TIMEOUT, Reply::Failed("bad".to_string()));
        assert!(matches!(
            step.next,
            Err(MonitorError::FetchCounts(FetchCountsError::Imap(e))) if e == "bad"
        ));
        assert!(step.notify.is_none());
        assert_eq!(state, MonitorState::Failed);
    }
}

#[test]
fn a_reply_to_another_command_ends_the_monitor() {
    let mut state = MonitorState::Capabilities;
    let step = monitor_step(&mut state, TIMEOUT, Reply::<String>::Selected);
    assert!(matches!(step.next, Err(MonitorError::UnexpectedReply)));
    assert_eq!(state, MonitorState::Failed);
    let step = monitor_step(&mut state, TIMEOUT, Reply::<String>::Capabilities { idle: true });
    assert!(matches!(step.next, Err(MonitorError::UnexpectedReply)));
    assert_eq!(state, MonitorState::Failed);
}

#[test]
fn the_monitor_stops_at_the_first_error() {
    let watch = watch_scripted(TIMEOUT, vec![
        Reply::Capabilities { idle: true },
        Reply::Selected,
        status(1, 1),
        Reply::Failed("gone".to_string()),
        status(2, 2),
    ]);
    assert_eq!(watch.notifications, vec![counts(1, 1)]);
    assert!(matches!(watch.error, Some(MonitorError::Imap(e)) if e == "gone"));
    assert_eq!(
        watch.commands,
        vec![
            Command::Capabilities,
            Command::Select,
            Command::Status,
            IDLE
        ]
    );
}

#[test]
fn a_password_gives_back_its_value() {
    let password = Password::new("secret".to_string());
    assert_eq!(password.as_str(), "secret");
}

#[test]
fn more_messages_or_more_unread_ones_are_new_mail() {
    assert!(is_new_mail(counts(5, 2), counts(6, 2)));
    assert!(is_new_mail(counts(5, 2), counts(5, 3)));
    assert!(is_new_mail(counts(5, 2), counts(4, 3)));
    assert!(!is_new_mail(counts(5, 2), counts(5, 2)));
    assert!(!is_new_mail(counts(5, 2), counts(4, 2)));
    assert!(!is_new_mail(counts(5, 2), counts(5, 0)));
}

#[test]
fn the_wire_names_of_the_capability_and_the_status_items() {
    assert_eq!(mail_notifier::imap_checker::idle_capability(), "IDLE");
    assert_eq!(
        mail_notifier::imap_checker::status_data_items(),
        "(MESSAGES UNSEEN)"
    );
}

#[test]
fn every_wait_is_entered_with_the_configured_timeout() {
    let timeout = Duration::from_secs(17);
    let mut state = MonitorState::InitialCounts;
    let step = monitor_step(&mut state, timeout, status(1, 1));
    assert!(matches!(step.next, Ok(Command::Idle { timeout: t }) if t == timeout));
    let mut state = MonitorState::Diffing(counts(1, 1));
    let step = monitor_step(&mut state, timeout, status(1, 1));
    assert!(matches!(step.next, Ok(Command::Idle { timeout: t }) if t == timeout));
    let mut state = MonitorState::Diffing(counts(1, 1));
    let step = monitor_step(&mut state, timeout, status(2, 1));
    assert!(matches!(step.next, Ok(Command::Idle { timeout: t }) if t == timeout));
}
