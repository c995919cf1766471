//! The mailbox watching protocol: which command follows which reply of the
//! server, and which counts are reported. The caller holds the session and
//! performs the commands; the decisions are made here.

use core::time::Duration;
use vstd::prelude::*;

verus! {

/// Mailbox counters.
#[derive(Debug, Clone, Copy, PartialEq, Eq, Structural)]
pub struct MailboxCounts {
    /// Total messages in the mailbox.
    pub total: u32,
    /// Messages that are unread.
    pub unread: u32,
}

/// How to secure the connection.
#[derive(Debug, Clone, Copy, PartialEq, Eq, Structural)]
pub enum TlsMode {
    /// Implicit TLS (usually port 993).
    Implicit,
    /// Start with plaintext and upgrade using STARTTLS (usually port 143).
    StartTls,
}

/// Wrapper for sensitive passwords.
#[derive(Clone)]
pub struct Password(String);

impl View for Password {
    type V = Seq<char>;

    /// The password.
    closed spec fn view(&self) -> Seq<char> {
        self.0@
    }
}

impl Password {
    /// Create a new password wrapper.
    pub fn new(value: String) -> (password: Self)
        ensures
            password@ == value@,
    {
        Password(value)
    }

    /// Expose the inner password value.
    pub fn as_str(&self) -> (value: &str)
        ensures
            value@ == self@,
    {
        self.0.as_str()
    }
}

/// Configuration required to connect to a server and watch one mailbox.
#[derive(Clone)]
pub struct ImapClientContext {
    /// Server hostname.
    pub server: String,
    /// Server port.
    pub port: u16,
    /// Username for authentication.
    pub username: String,
    /// Password for authentication.
    pub password: Password,
    /// Mailbox to monitor (usually `INBOX`).
    pub mailbox: String,
    /// TLS mode for the connection.
    pub tls_mode: TlsMode,
    /// IDLE keepalive timeout. Use less than 29 minutes to avoid server timeouts.
    pub idle_timeout: Duration,
}

/// Errors returned while querying mailbox counts.
#[derive(Debug)]
pub enum FetchCountsError<E> {
    /// Protocol error.
    Imap(E),
}

/// Errors returned by the monitor.
#[derive(Debug)]
pub enum MonitorError<E> {
    /// Mailbox count query error.
    FetchCounts(FetchCountsError<E>),
    /// The server does not advertise the IDLE capability.
    IdleNotSupported,
    /// Protocol error outside the count query.
    Imap(E),
    /// The reply does not answer the command that the monitor gave last.
    UnexpectedReply,
}

/// The counts that a status reply holds: the number of messages that exist,
/// and the number of unseen ones, which is zero where the reply has none.
pub fn fetch_counts(exists: u32, unseen: Option<u32>) -> (counts: MailboxCounts)
    ensures
        counts.total == exists,
        counts.unread == (match unseen {
            Some(n) => n,
            None => 0,
        }),
{
    MailboxCounts {
        total: exists,
        unread: match unseen {
            Some(n) => n,
            None => 0,
        },
    }
}

/// Whether counts that differ from the last ones show new mail: they do
/// where there are more messages or more unread ones than before.
pub fn is_new_mail(last: MailboxCounts, counts: MailboxCounts) -> (new_mail: bool)
    ensures
        new_mail == (counts.total > last.total || counts.unread > last.unread),
{
    counts.total > last.total || counts.unread > last.unread
}

/// The capability that a server has to advertise for its mailboxes to be
/// watched: `IDLE`.
pub fn idle_capability() -> (name: &'static str)
    ensures
        name@ == "IDLE"@,
{
    "IDLE"
}

/// The data items that a status query asks for: `(MESSAGES UNSEEN)`.
pub fn status_data_items() -> (items: &'static str)
    ensures
        items@ == "(MESSAGES UNSEEN)"@,
{
    "(MESSAGES UNSEEN)"
}

/// Why a long-poll wait returned.
#[derive(Debug, Clone, Copy, PartialEq, Eq, Structural)]
pub enum IdleResponse {
    /// The timeout elapsed.
    Timeout,
    /// The wait was interrupted by the client.
    ManualInterrupt,
    /// The server pushed a notice.
    NewData,
}

/// A command for the session.
#[derive(Debug, Clone, Copy, PartialEq, Eq)]
pub enum Command {
    /// Ask for the capabilities of the server.
    Capabilities,
    /// Select the mailbox.
    Select,
    /// Ask for the status of the mailbox: `(MESSAGES UNSEEN)`.
    Status,
    /// Enter the long-poll wait, and leave it after the timeout at the
    /// latest.
    Idle {
        /// The configured idle timeout.
        timeout: Duration,
    },
}

/// What the session answered to a command.
#[derive(Debug)]
pub enum Reply<E> {
    /// The capabilities of the server: whether `IDLE` is among them.
    Capabilities {
        /// Whether the server advertises the long-poll capability.
        idle: bool,
    },
    /// The mailbox is selected.
    Selected,
    /// The status of the mailbox.
    Status {
        /// The number of messages that exist.
        exists: u32,
        /// The number of unseen messages, if the reply has it.
        unseen: Option<u32>,
    },
    /// The long-poll wait returned.
    Idle(IdleResponse),
    /// The command failed.
    Failed(E),
}

/// Where the monitor stands: the command whose reply it waits for, and the
/// counts that it reported last.
#[derive(Debug, Clone, Copy, PartialEq, Eq, Structural)]
pub enum MonitorState {
    /// The capabilities were asked for.
    Capabilities,
    /// The mailbox is being selected.
    Selecting,
    /// The first status query is out; nothing has been reported yet.
    InitialCounts,
    /// The long-poll wait is on; these counts were reported last.
    Idle(MailboxCounts),
    /// The status query after a wait is out; these counts were reported last.
    Diffing(MailboxCounts),
    /// The monitor has failed and gives no further command.
    Failed,
}

/// What the monitor decides on a reply.
#[derive(Debug)]
pub struct Step<E> {
    /// The counts to report before anything else is done, if any.
    pub notify: Option<MailboxCounts>,
    /// The next command, or the error that ends the monitor.
    pub next: Result<Command, MonitorError<E>>,
}

/// The counts of a status reply.
pub open spec fn counts_of(exists: u32, unseen: Option<u32>) -> MailboxCounts {
    MailboxCounts {
        total: exists,
        unread: match unseen {
            Some(n) => n,
            None => 0,
        },
    }
}

/// The state that follows a reply.
pub open spec fn next_state<E>(state: MonitorState, reply: Reply<E>) -> MonitorState {
    match (state, reply) {
        (MonitorState::Capabilities, Reply::Capabilities { idle: true }) => MonitorState::Selecting,
        (MonitorState::Selecting, Reply::Selected) => MonitorState::InitialCounts,
        (MonitorState::InitialCounts, Reply::Status { exists, unseen }) => MonitorState::Idle(
            counts_of(exists, unseen),
        ),
        (MonitorState::Idle(last), Reply::Idle(_)) => MonitorState::Diffing(last),
        (MonitorState::Diffing(_), Reply::Status { exists, unseen }) => MonitorState::Idle(
            counts_of(exists, unseen),
        ),
        _ => MonitorState::Failed,
    }
}

/// The counts that are reported on a reply: the first counts always, later
/// ones where they differ from those reported last.
pub open spec fn notified<E>(state: MonitorState, reply: Reply<E>) -> Option<MailboxCounts> {
    match (state, reply) {
        (MonitorState::InitialCounts, Reply::Status { exists, unseen }) => Some(
            counts_of(exists, unseen),
        ),
        (MonitorState::Diffing(last), Reply::Status { exists, unseen }) => if counts_of(
            exists,
            unseen,
        ) != last {
            Some(counts_of(exists, unseen))
        } else {
            None
        },
        _ => None,
    }
}

/// The command that follows a reply, or the error that ends the monitor: a
/// failed command gives its error, as a count query error where the command
/// was a status query; a server without the long-poll capability gives
/// `IdleNotSupported`; a reply that does not answer the last command gives
/// `UnexpectedReply`.
pub open spec fn next_command<E>(
    state: MonitorState,
    idle_timeout: Duration,
    reply: Reply<E>,
) -> Result<Command, MonitorError<E>> {
    match (state, reply) {
        (MonitorState::Failed, _) => Err(MonitorError::UnexpectedReply),
        (MonitorState::InitialCounts, Reply::Failed(e)) => Err(
            MonitorError::FetchCounts(FetchCountsError::Imap(e)),
        ),
        (MonitorState::Diffing(_), Reply::Failed(e)) => Err(
            MonitorError::FetchCounts(FetchCountsError::Imap(e)),
        ),
        (_, Reply::Failed(e)) => Err(MonitorError::Imap(e)),
        (MonitorState::Capabilities, Reply::Capabilities { idle }) => if idle {
            Ok(Command::Select)
        } else {
            Err(MonitorError::IdleNotSupported)
        },
        (MonitorState::Selecting, Reply::Selected) => Ok(Command::Status),
        (MonitorState::InitialCounts, Reply::Status { .. }) => Ok(
            Command::Idle { timeout: idle_timeout },
        ),
        (MonitorState::Idle(_), Reply::Idle(_)) => Ok(Command::Status),
        (MonitorState::Diffing(_), Reply::Status { .. }) => Ok(
            Command::Idle { timeout: idle_timeout },
        ),
        _ => Err(MonitorError::UnexpectedReply),
    }
}

/// Start watching over an established session: the first command asks for
/// the capabilities of the server.
pub fn start_monitor() -> (r: (MonitorState, Command))
    ensures
        r.0 == MonitorState::Capabilities,
        r.1 == Command::Capabilities,
{
    (MonitorState::Capabilities, Command::Capabilities)
}

/// Take the reply to the last command: move to the next state, and say
/// which counts to report and which command to give next. Every wait is
/// entered with the configured idle timeout.
pub fn monitor_step<E>(state: &mut MonitorState, idle_timeout: Duration, reply: Reply<E>) -> (step:
    Step<E>)
    ensures
        *final(state) == next_state(*old(state), reply),
        step.notify == notified(*old(state), reply),
        step.next == next_command(*old(state), idle_timeout, reply),
        step.next is Err <==> *final(state) == MonitorState::Failed,
{
    let current = *state;
    match (current, reply) {
        (MonitorState::Failed, _) => {
            Step { notify: None, next: Err(MonitorError::UnexpectedReply) }
        },
        (MonitorState::InitialCounts, Reply::Failed(e)) => {
            *state = MonitorState::Failed;
            Step { notify: None, next: Err(MonitorError::FetchCounts(FetchCountsError::Imap(e))) }
        },
        (MonitorState::Diffing(_), Reply::Failed(e)) => {
            *state = MonitorState::Failed;
            Step { notify: None, next: Err(MonitorError::FetchCounts(FetchCountsError::Imap(e))) }
        },
        (_, Reply::Failed(e)) => {
            *state = MonitorState::Failed;
            Step { notify: None, next: Err(MonitorError::Imap(e)) }
        },
        (MonitorState::Capabilities, Reply::Capabilities { idle }) => {
            if idle {
                *state = MonitorState::Selecting;
                Step { notify: None, next: Ok(Command::Select) }
            } else {
                *state = MonitorState::Failed;
                Step { notify: None, next: Err(MonitorError::IdleNotSupported) }
            }
        },
        (MonitorState::Selecting, Reply::Selected) => {
            *state = MonitorState::InitialCounts;
            Step { notify: None, next: Ok(Command::Status) }
        },
        (MonitorState::InitialCounts, Reply::Status { exists, unseen }) => {
            let counts = fetch_counts(exists, unseen);
            *state = MonitorState::Idle(counts);
            Step { notify: Some(counts), next: Ok(Command::Idle { timeout: idle_timeout }) }
        },
        (MonitorState::Idle(last), Reply::Idle(_)) => {
            *state = MonitorState::Diffing(last);
            Step { notify: None, next: Ok(Command::Status) }
        },
        (MonitorState::Diffing(last), Reply::Status { exists, unseen }) => {
            let counts = fetch_counts(exists, unseen);
            *state = MonitorState::Idle(counts);
            if counts != last {
                Step { notify: Some(counts), next: Ok(Command::Idle { timeout: idle_timeout }) }
            } else {
                Step { notify: None, next: Ok(Command::Idle { timeout: idle_timeout }) }
            }
        },
        _ => {
            *state = MonitorState::Failed;
            Step { notify: None, next: Err(MonitorError::UnexpectedReply) }
        },
    }
}

/// The counts that are reported on the replies from number `i` on, in order.
pub open spec fn notifications_from<E>(state: MonitorState, replies: Seq<Reply<E>>, i: int) -> Seq<
    MailboxCounts,
>
    decreases replies.len() - i,
{
    if i < 0 || i >= replies.len() {
        Seq::empty()
    } else {
        let rest = notifications_from(next_state(state, replies[i]), replies, i + 1);
        match notified(state, replies[i]) {
            Some(counts) => seq![counts] + rest,
            None => rest,
        }
    }
}

/// The commands that are given on the replies from number `i` on, in order,
/// up to the first error.
pub open spec fn commands_from<E>(
    state: MonitorState,
    idle_timeout: Duration,
    replies: Seq<Reply<E>>,
    i: int,
) -> Seq<Command>
    decreases replies.len() - i,
{
    if i < 0 || i >= replies.len() {
        Seq::empty()
    } else {
        match next_command(state, idle_timeout, replies[i]) {
            Ok(command) => seq![command] + commands_from(
                next_state(state, replies[i]),
                idle_timeout,
                replies,
                i + 1,
            ),
            Err(_) => Seq::empty(),
        }
    }
}

/// The error that ends the monitor on the replies from number `i` on, if
/// one of them does.
pub open spec fn failure_from<E>(
    state: MonitorState,
    idle_timeout: Duration,
    replies: Seq<Reply<E>>,
    i: int,
) -> Option<MonitorError<E>>
    decreases replies.len() - i,
{
    if i < 0 || i >= replies.len() {
        None
    } else {
        match next_command(state, idle_timeout, replies[i]) {
            Ok(_) => failure_from(next_state(state, replies[i]), idle_timeout, replies, i + 1),
            Err(e) => Some(e),
        }
    }
}

/// What a monitor did over a session whose replies were given.
#[derive(Debug)]
pub struct Watch<E> {
    /// The commands that the monitor gave, the first one included.
    pub commands: Vec<Command>,
    /// The counts that the monitor reported.
    pub notifications: Vec<MailboxCounts>,
    /// The error that ended the monitor, if one did.
    pub error: Option<MonitorError<E>>,
}

/// Run the monitor, with the given idle timeout, over a session that
/// answers with the given replies, in order, and return what it did. The
/// monitor stops at the first error.
#[verifier::rlimit(50)]
pub fn watch_scripted<E>(idle_timeout: Duration, replies: Vec<Reply<E>>) -> (watch: Watch<E>)
    ensures
        watch.commands@ == seq![Command::Capabilities] + commands_from(
            MonitorState::Capabilities,
            idle_timeout,
            replies@,
            0,
        ),
        watch.notifications@ == notifications_from(MonitorState::Capabilities, replies@, 0),
        watch.error == failure_from(MonitorState::Capabilities, idle_timeout, replies@, 0),
{
    let (mut state, first) = start_monitor();
    let mut commands: Vec<Command> = Vec::new();
    let mut notifications: Vec<MailboxCounts> = Vec::new();
    let mut error: Option<MonitorError<E>> = None;
    commands.push(first);
    let ghost all = replies@;
    let ghost start = MonitorState::Capabilities;
    for reply in iter: replies
        invariant
            iter.seq() == all,
            start == MonitorState::Capabilities,
            error is Some ==> state == MonitorState::Failed,
            error is Some ==> {
                &&& commands@ == seq![Command::Capabilities] + commands_from(start, idle_timeout, all, 0)
                &&& notifications@ == notifications_from(start, all, 0)
                &&& error == failure_from(start, idle_timeout, all, 0)
            },
            error is None ==> {
                &&& commands@ + commands_from(state, idle_timeout, all, iter.index() as int) == seq![
                    Command::Capabilities,
                ] + commands_from(start, idle_timeout, all, 0)
                &&& notifications@ + notifications_from(state, all, iter.index() as int)
                    == notifications_from(start, all, 0)
                &&& failure_from(state, idle_timeout, all, iter.index() as int) == failure_from(start, idle_timeout, all, 0)
            },
    {
        if error.is_none() {
            let ghost i = iter.index() as int;
            let ghost before = state;
            let ghost commands_before = commands@;
            let ghost notifications_before = notifications@;
            let step = monitor_step(&mut state, idle_timeout, reply);
            match step.notify {
                Some(counts) => {
                    notifications.push(counts);
                },
                None => {},
            }
            match step.next {
                Ok(command) => {
                    commands.push(command);
                },
                Err(e) => {
                    error = Some(e);
                },
            }
            proof {
                lemma_failed_is_silent(all, i + 1);
                assert(notifications@ + notifications_from(state, all, i + 1)
                    =~= notifications_before + notifications_from(before, all, i));
                if error is None {
                    assert(commands@ + commands_from(state, idle_timeout, all, i + 1) =~= commands_before
                        + commands_from(before, idle_timeout, all, i));
                } else {
                    assert(commands_from(before, idle_timeout, all, i) =~= Seq::<Command>::empty());
                    assert(commands@ =~= commands_before + commands_from(before, idle_timeout, all, i));
                    assert(notifications@ + Seq::<MailboxCounts>::empty() =~= notifications@);
                }
            }
        }
    }
    proof {
        if error is None {
            assert(commands@ + Seq::<Command>::empty() =~= commands@);
            assert(notifications@ + Seq::<MailboxCounts>::empty() =~= notifications@);
        }
    }
    Watch { commands, notifications, error }
}

/// A monitor that has failed reports nothing more.
pub proof fn lemma_failed_is_silent<E>(replies: Seq<Reply<E>>, i: int)
    ensures
        notifications_from(MonitorState::Failed, replies, i) == Seq::<MailboxCounts>::empty(),
    decreases replies.len() - i,
{
    if 0 <= i < replies.len() {
        lemma_failed_is_silent(replies, i + 1);
    }
}

/// The replies of a session that goes well: the server has the long-poll
/// capability, the mailbox is selected, the first status query gives
/// `counts[0]`, and each wait that follows returns as `idles` says and is
/// followed by a status query that gives the next of `counts`.
pub open spec fn session_replies<E>(counts: Seq<MailboxCounts>, idles: Seq<IdleResponse>) -> Seq<
    Reply<E>,
> {
    Seq::new(
        (1 + 2 * counts.len()) as nat,
        |i: int|
            if i == 0 {
                Reply::Capabilities { idle: true }
            } else if i == 1 {
                Reply::Selected
            } else if i % 2 == 0 {
                Reply::Status { exists: counts[i / 2 - 1].total, unseen: Some(counts[i / 2 - 1].unread) }
            } else {
                Reply::Idle(idles[i / 2 - 1])
            },
    )
}

/// The counts from number `k` on that differ from the counts before them.
pub open spec fn changes(counts: Seq<MailboxCounts>, k: int) -> Seq<MailboxCounts>
    decreases counts.len() - k,
{
    if k < 1 || k >= counts.len() {
        Seq::empty()
    } else if counts[k] != counts[k - 1] {
        seq![counts[k]] + changes(counts, k + 1)
    } else {
        changes(counts, k + 1)
    }
}

/// What is reported from poll `k` on of a session that goes well.
pub proof fn lemma_polls_report_changes<E>(
    counts: Seq<MailboxCounts>,
    idles: Seq<IdleResponse>,
    k: int,
)
    requires
        1 <= k <= counts.len(),
    ensures
        notifications_from(
            MonitorState::Idle(counts[k - 1]),
            session_replies::<E>(counts, idles),
            2 * k + 1,
        ) == changes(counts, k),
    decreases counts.len() - k,
{
    let replies = session_replies::<E>(counts, idles);
    if k < counts.len() {
        lemma_polls_report_changes::<E>(counts, idles, k + 1);
        let i = 2 * k + 1;
        assert(i % 2 == 1 && i / 2 - 1 == k - 1);
        assert((i + 1) % 2 == 0 && (i + 1) / 2 - 1 == k);
        assert(replies[i] == Reply::<E>::Idle(idles[k - 1]));
        assert(replies[i + 1] == Reply::<E>::Status {
            exists: counts[k].total,
            unseen: Some(counts[k].unread),
        });
        assert(counts_of(counts[k].total, Some(counts[k].unread)) == counts[k]);
        let waiting = MonitorState::Idle(counts[k - 1]);
        let diffing = MonitorState::Diffing(counts[k - 1]);
        assert(next_state(waiting, replies[i]) == diffing);
        assert(next_state(diffing, replies[i + 1]) == MonitorState::Idle(counts[k]));
        assert(notifications_from(waiting, replies, i) == notifications_from(
            diffing,
            replies,
            i + 1,
        ));
    }
}

/// Diff suppression: over a session that goes well, the monitor reports the
/// first counts, and after that exactly the counts that differ from those
/// of the query before, in order.
pub proof fn lemma_reports_first_and_changes<E>(
    counts: Seq<MailboxCounts>,
    idles: Seq<IdleResponse>,
)
    requires
        counts.len() >= 1,
    ensures
        notifications_from(MonitorState::Capabilities, session_replies::<E>(counts, idles), 0)
            == seq![counts[0]] + changes(counts, 1),
{
    let replies = session_replies::<E>(counts, idles);
    lemma_polls_report_changes::<E>(counts, idles, 1);
    assert(replies[0] == Reply::<E>::Capabilities { idle: true });
    assert(replies[1] == Reply::<E>::Selected);
    assert(replies[2] == Reply::<E>::Status {
        exists: counts[0].total,
        unseen: Some(counts[0].unread),
    });
    assert(counts_of(counts[0].total, Some(counts[0].unread)) == counts[0]);
    assert(notifications_from(MonitorState::Selecting, replies, 1) == notifications_from(
        MonitorState::InitialCounts,
        replies,
        2,
    ));
    assert(notifications_from(MonitorState::Capabilities, replies, 0) == notifications_from(
        MonitorState::Selecting,
        replies,
        1,
    ));
}

/// Capability gate: where the server does not advertise the long-poll
/// capability, the monitor fails with `IdleNotSupported` at once: it gives
/// no command after the first and reports nothing.
pub proof fn lemma_capability_gate<E>(idle_timeout: Duration, replies: Seq<Reply<E>>)
    requires
        replies.len() >= 1,
        replies[0] == (Reply::<E>::Capabilities { idle: false }),
    ensures
        commands_from(MonitorState::Capabilities, idle_timeout, replies, 0) == Seq::<
            Command,
        >::empty(),
        notifications_from(MonitorState::Capabilities, replies, 0) == Seq::<
            MailboxCounts,
        >::empty(),
        failure_from(MonitorState::Capabilities, idle_timeout, replies, 0) == Some(
            MonitorError::<E>::IdleNotSupported,
        ),
{
    lemma_failed_is_silent(replies, 1);
}

} // verus!
