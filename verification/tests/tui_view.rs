use mail_notifier::imap_checker::MailboxCounts;
use mail_notifier::supervisor::SupervisorEvent;
use mail_notifier::monitoring_workload_imap::entry_label;
use mail_notifier::tui_view::{
    decimal_text, entry_line, list_lines, on_counts, on_supervisor_event, EntryState,
};
use std::time::Duration;

fn entry(name: &str, unread: u32, active: bool) -> EntryState {
    EntryState {
        name: name.to_string(),
        unread,
        active,
    }
}

#[test]
fn numbers_are_written_in_decimal() {
    for n in [0u32, 1, 9, 10, 11, 99, 100, 101, 12345, 1_000_000, u32::MAX - 1, u32::MAX] {
        assert_eq!(decimal_text(n), n.to_string());
    }
}

#[test]
fn a_line_shows_the_name_and_the_new_messages() {
    let line = entry_line(&entry("primary / INBOX", 3, true));
    assert_eq!(line.text, "primary / INBOX \u{2014} 3 new");
    assert!(!line.italic);
    let line = entry_line(&entry("other", 0, false));
    assert_eq!(line.text, "other \u{2014} 0 new");
    assert!(line.italic);
}

#[test]
fn the_list_has_a_line_per_entry_or_says_that_there_are_none() {
    let lines = list_lines(&vec![]);
    assert_eq!(lines.len(), 1);
    assert_eq!(lines[0].text, "No mailboxes configured");
    assert!(!lines[0].italic);
    let lines = list_lines(&vec![entry("a", 1, true), entry("b", 20, false)]);
    assert_eq!(lines.len(), 2);
    assert_eq!(lines[0].text, "a \u{2014} 1 new");
    assert!(!lines[0].italic);
    assert_eq!(lines[1].text, "b \u{2014} 20 new");
    assert!(lines[1].italic);
}

#[test]
fn updates_change_what_they_are_about_and_nothing_else() {
    let mut state = entry("a", 1, false);
    on_counts(&mut state, MailboxCounts { total: 9, unread: 4 });
    assert_eq!((state.name.as_str(), state.unread, state.active), ("a", 4, false));
    on_supervisor_event(&mut state, &SupervisorEvent::<(), (), ()>::Started);
    assert_eq!((state.name.as_str(), state.unread, state.active), ("a", 4, true));
    on_supervisor_event(
        &mut state,
        &SupervisorEvent::<(), (), ()>::Error {
            error: (),
            next_retry_in: Duration::from_secs(1),
        },
    );
    assert!(!state.active);
    on_supervisor_event(&mut state, &SupervisorEvent::<(), (), ()>::Started);
    on_supervisor_event(
        &mut state,
        &SupervisorEvent::<(), (), ()>::Panicked {
            panic_payload: (),
            next_retry_in: Duration::from_secs(1),
        },
    );
    assert!(!state.active);
    on_supervisor_event(&mut state, &SupervisorEvent::<(), (), ()>::Started);
    on_supervisor_event(&mut state, &SupervisorEvent::<(), (), ()>::Done { value: () });
    assert!(!state.active);
    assert_eq!(state.unread, 4);
}

#[test]
fn a_label_names_the_server_and_the_mailbox() {
    assert_eq!(entry_label("primary", "INBOX"), "primary / INBOX");
    assert_eq!(entry_label("", ""), " / ");
}
