//! Supervised execution of a fallible workload: what to report and what to
//! do next when an attempt ends. The caller runs the workload and sleeps;
//! the decisions are made here.

use crate::exp_backoff::{delay_at, duration_nanos, next_delay, State};
use core::time::Duration;
use vstd::prelude::*;

verus! {

/// Event sent to the notifier.
#[derive(Debug)]
pub enum SupervisorEvent<T, E, P> {
    /// The work is about to be invoked.
    Started,
    /// The work has completed without an error or panic.
    ///
    /// It won't be restarted.
    Done {
        /// The returned value.
        value: T,
    },
    /// The work returned an error.
    ///
    /// It may be restarted.
    Error {
        /// The error that was returned by the work.
        error: E,
        /// The time to wait before the next attempt.
        next_retry_in: Duration,
    },
    /// The work panicked.
    ///
    /// It will be restarted.
    Panicked {
        /// The captured panic payload.
        panic_payload: P,
        /// The time to wait before the next attempt.
        next_retry_in: Duration,
    },
}

/// Parameters of a supervised run: the work, the sink for events, the sleep
/// timer and the backoff for the retries.
pub struct Params<Work, Notifier, Sleep> {
    /// The work to run.
    pub work: Work,
    /// Notifier for events.
    pub notifier: Notifier,
    /// Sleep timer.
    pub sleep: Sleep,
    /// The exponential backoff configuration for the retries.
    pub retries_backoff: State,
}

/// How one attempt of the work ended.
#[derive(Debug)]
pub enum Outcome<T, E, P> {
    /// The work returned a value.
    Value(T),
    /// The work returned an error.
    Error(E),
    /// The work panicked, with this payload.
    Panic(P),
}

/// What the supervisor does after it has reported the end of an attempt.
#[derive(Debug)]
pub enum Next {
    /// Return: the work is done and is not started again.
    Finish,
    /// Sleep for the delay, then start the next attempt.
    RetryAfter(Duration),
}

/// The report on the end of an attempt, and what follows it.
#[derive(Debug)]
pub struct Verdict<T, E, P> {
    /// The event to send to the notifier.
    pub event: SupervisorEvent<T, E, P>,
    /// What to do after the event is sent.
    pub next: Next,
}

/// The event that is sent before every attempt, the first and each retry.
pub fn attempt_started<T, E, P>() -> (event: SupervisorEvent<T, E, P>)
    ensures
        event == SupervisorEvent::<T, E, P>::Started,
{
    SupervisorEvent::Started
}

/// Decide what follows the end of an attempt. A value ends the run and
/// leaves the backoff untouched; an error or a panic is reported with the
/// current delay of the backoff, which is then slept, and advances the
/// backoff.
pub fn attempt_ended<T, E, P>(retries_backoff: &mut State, outcome: Outcome<T, E, P>) -> (verdict:
    Verdict<T, E, P>)
    ensures
        match outcome {
            Outcome::Value(value) => {
                &&& verdict.event == SupervisorEvent::<T, E, P>::Done { value }
                &&& verdict.next == Next::Finish
                &&& *final(retries_backoff) == *old(retries_backoff)
            },
            Outcome::Error(error) => {
                &&& verdict.event == SupervisorEvent::<T, E, P>::Error {
                    error,
                    next_retry_in: old(retries_backoff).value,
                }
                &&& verdict.next == Next::RetryAfter(old(retries_backoff).value)
                &&& advanced(*old(retries_backoff), *final(retries_backoff))
            },
            Outcome::Panic(panic_payload) => {
                &&& verdict.event == SupervisorEvent::<T, E, P>::Panicked {
                    panic_payload,
                    next_retry_in: old(retries_backoff).value,
                }
                &&& verdict.next == Next::RetryAfter(old(retries_backoff).value)
                &&& advanced(*old(retries_backoff), *final(retries_backoff))
            },
        },
{
    match outcome {
        Outcome::Value(value) => Verdict { event: SupervisorEvent::Done { value }, next: Next::Finish },
        Outcome::Error(error) => {
            let delay = retries_backoff.advance();
            Verdict {
                event: SupervisorEvent::Error { error, next_retry_in: delay },
                next: Next::RetryAfter(delay),
            }
        },
        Outcome::Panic(panic_payload) => {
            let delay = retries_backoff.advance();
            Verdict {
                event: SupervisorEvent::Panicked { panic_payload, next_retry_in: delay },
                next: Next::RetryAfter(delay),
            }
        },
    }
}

/// Whether `after` is the backoff `before` after one call of `advance`.
pub open spec fn advanced(before: State, after: State) -> bool {
    &&& after.factor == before.factor
    &&& after.max == before.max
    &&& after.value_nanos() == next_delay(
        before.value_nanos(),
        before.factor as nat,
        before.max_nanos(),
    )
}

/// What an event says, with its delay in nanoseconds.
pub enum Report<T, E, P> {
    /// An attempt is about to start.
    Started,
    /// The work returned this value.
    Done(T),
    /// The work returned this error; the next attempt follows after the delay.
    Error(E, nat),
    /// The work panicked with this payload; the next attempt follows after
    /// the delay.
    Panicked(P, nat),
}

impl<T, E, P> SupervisorEvent<T, E, P> {
    /// What the event says, with its delay in nanoseconds.
    pub open spec fn report(self) -> Report<T, E, P> {
        match self {
            SupervisorEvent::Started => Report::Started,
            SupervisorEvent::Done { value } => Report::Done(value),
            SupervisorEvent::Error { error, next_retry_in } => Report::Error(
                error,
                duration_nanos(next_retry_in),
            ),
            SupervisorEvent::Panicked { panic_payload, next_retry_in } => Report::Panicked(
                panic_payload,
                duration_nanos(next_retry_in),
            ),
        }
    }
}

/// What a run reports whose attempts end as `outcomes` say, from outcome `i`
/// on, with `value` the current delay of the backoff: `Started` before each
/// attempt, then the end of the attempt. A value ends the run; where the
/// outcomes end before a value, the next attempt has started.
pub open spec fn reports_from<T, E, P>(
    outcomes: Seq<Outcome<T, E, P>>,
    i: int,
    value: nat,
    factor: nat,
    max: nat,
) -> Seq<Report<T, E, P>>
    decreases outcomes.len() - i,
{
    if i < 0 || i >= outcomes.len() {
        seq![Report::Started]
    } else {
        match outcomes[i] {
            Outcome::Value(v) => seq![Report::Started, Report::Done(v)],
            Outcome::Error(e) => seq![Report::Started, Report::Error(e, value)] + reports_from(
                outcomes,
                i + 1,
                next_delay(value, factor, max),
                factor,
                max,
            ),
            Outcome::Panic(p) => seq![Report::Started, Report::Panicked(p, value)] + reports_from(
                outcomes,
                i + 1,
                next_delay(value, factor, max),
                factor,
                max,
            ),
        }
    }
}

/// What a run reports whose attempts end as `outcomes` say.
pub open spec fn reports<T, E, P>(outcomes: Seq<Outcome<T, E, P>>, backoff: State) -> Seq<
    Report<T, E, P>,
> {
    reports_from(outcomes, 0, backoff.value_nanos(), backoff.factor as nat, backoff.max_nanos())
}

/// The reports of a sequence of events.
pub open spec fn reports_of<T, E, P>(events: Seq<SupervisorEvent<T, E, P>>) -> Seq<
    Report<T, E, P>,
> {
    events.map_values(|e: SupervisorEvent<T, E, P>| e.report())
}

/// What is reported of the end of an attempt: a failure with the delay
/// before the next attempt, a value as done.
pub open spec fn end_report<T, E, P>(outcome: Outcome<T, E, P>, delay: nat) -> Report<T, E, P> {
    match outcome {
        Outcome::Value(v) => Report::Done(v),
        Outcome::Error(e) => Report::Error(e, delay),
        Outcome::Panic(p) => Report::Panicked(p, delay),
    }
}

/// The reports from attempt `j` on, where the attempts before attempt `k`
/// fail and attempt `k` returns a value.
pub proof fn lemma_reports_until_value<T, E, P>(
    outcomes: Seq<Outcome<T, E, P>>,
    j: nat,
    k: nat,
    value: nat,
    factor: nat,
    max: nat,
)
    requires
        j <= k < outcomes.len(),
        forall|i: int| 0 <= i < k ==> !(#[trigger] outcomes[i] is Value),
        outcomes[k as int] is Value,
    ensures
        ({
            let r = reports_from(outcomes, j as int, delay_at(value, factor, max, j), factor, max);
            &&& r.len() == 2 * (k - j) + 2
            &&& forall|i: int|
                j <= i < k ==> r[2 * (i - j)] == Report::<T, E, P>::Started && r[2 * (i - j) + 1]
                    == end_report(#[trigger] outcomes[i], delay_at(value, factor, max, i as nat))
            &&& r[2 * (k - j)] == Report::<T, E, P>::Started
            &&& r[2 * (k - j) + 1] == end_report(outcomes[k as int], 0)
        }),
    decreases k - j,
{
    if j < k {
        lemma_reports_until_value(outcomes, j + 1, k, value, factor, max);
        let r = reports_from(outcomes, j as int, delay_at(value, factor, max, j), factor, max);
        let tail = reports_from(
            outcomes,
            j + 1 as int,
            delay_at(value, factor, max, j + 1),
            factor,
            max,
        );
        assert(!(outcomes[j as int] is Value));
        assert(r =~= seq![
            Report::<T, E, P>::Started,
            end_report(outcomes[j as int], delay_at(value, factor, max, j)),
        ] + tail);
        assert forall|i: int| j <= i < k implies r[2 * (i - j)] == Report::<T, E, P>::Started
            && r[2 * (i - j) + 1] == end_report(
            #[trigger] outcomes[i],
            delay_at(value, factor, max, i as nat),
        ) by {
            if i > j {
                assert(r[2 * (i - j)] == tail[2 * (i - (j + 1))]);
                assert(r[2 * (i - j) + 1] == tail[2 * (i - (j + 1)) + 1]);
            }
        }
        assert(r[2 * (k - j)] == tail[2 * (k - (j + 1))]);
        assert(r[2 * (k - j) + 1] == tail[2 * (k - (j + 1)) + 1]);
    }
}

/// A workload that fails its first `k` attempts, by an error or a panic, and
/// returns a value from the next one is reported as `k` times `Started` and
/// the failure, each failure with the delay that the backoff holds for it,
/// and then `Started` and `Done` with the value.
pub proof fn lemma_failures_then_value<T, E, P>(
    outcomes: Seq<Outcome<T, E, P>>,
    k: nat,
    backoff: State,
)
    requires
        k < outcomes.len(),
        forall|i: int| 0 <= i < k ==> !(#[trigger] outcomes[i] is Value),
        outcomes[k as int] is Value,
    ensures
        ({
            let r = reports(outcomes, backoff);
            &&& r.len() == 2 * k + 2
            &&& forall|i: int|
                0 <= i < k ==> r[2 * i] == Report::<T, E, P>::Started && r[2 * i + 1]
                    == end_report(
                    #[trigger] outcomes[i],
                    delay_at(
                        backoff.value_nanos(),
                        backoff.factor as nat,
                        backoff.max_nanos(),
                        i as nat,
                    ),
                )
            &&& r[2 * k as int] == Report::<T, E, P>::Started
            &&& r[2 * k as int + 1] == Report::<T, E, P>::Done(outcomes[k as int]->Value_0)
        }),
{
    lemma_reports_until_value(
        outcomes,
        0,
        k,
        backoff.value_nanos(),
        backoff.factor as nat,
        backoff.max_nanos(),
    );
}

/// The reports from attempt `j` on of a run in which every attempt fails.
pub proof fn lemma_reports_of_failures<T, E, P>(
    outcomes: Seq<Outcome<T, E, P>>,
    j: nat,
    value: nat,
    factor: nat,
    max: nat,
)
    requires
        j <= outcomes.len(),
        forall|i: int| 0 <= i < outcomes.len() ==> !(#[trigger] outcomes[i] is Value),
    ensures
        ({
            let r = reports_from(outcomes, j as int, value, factor, max);
            &&& r.len() == 2 * (outcomes.len() - j) + 1
            &&& r[r.len() - 1] == Report::<T, E, P>::Started
            &&& forall|i: int| 0 <= i < r.len() ==> !(#[trigger] r[i] is Done)
        }),
    decreases outcomes.len() - j,
{
    if j < outcomes.len() {
        lemma_reports_of_failures(outcomes, j + 1, next_delay(value, factor, max), factor, max);
        let r = reports_from(outcomes, j as int, value, factor, max);
        let tail = reports_from(outcomes, j + 1 as int, next_delay(value, factor, max), factor, max);
        assert(!(outcomes[j as int] is Value));
        assert(r =~= seq![Report::<T, E, P>::Started, end_report(outcomes[j as int], value)]
            + tail);
        assert forall|i: int| 0 <= i < r.len() implies !(#[trigger] r[i] is Done) by {
            if i >= 2 {
                assert(r[i] == tail[i - 2]);
            }
        }
        assert(r[r.len() - 1] == tail[tail.len() - 1]);
    }
}

/// A workload that keeps failing is never reported as done: every failure
/// is followed by the start of another attempt.
pub proof fn lemma_failures_never_finish<T, E, P>(outcomes: Seq<Outcome<T, E, P>>, backoff: State)
    requires
        forall|i: int| 0 <= i < outcomes.len() ==> !(#[trigger] outcomes[i] is Value),
    ensures
        ({
            let r = reports(outcomes, backoff);
            &&& r.len() == 2 * outcomes.len() + 1
            &&& r[r.len() - 1] == Report::<T, E, P>::Started
            &&& forall|i: int| 0 <= i < r.len() ==> !(#[trigger] r[i] is Done)
        }),
{
    lemma_reports_of_failures(
        outcomes,
        0,
        backoff.value_nanos(),
        backoff.factor as nat,
        backoff.max_nanos(),
    );
}

/// Run the supervisor over attempts whose ends are given, and return the
/// events that it sends, in order.
#[verifier::rlimit(50)]
pub fn run_scripted<T, E, P>(retries_backoff: State, outcomes: Vec<Outcome<T, E, P>>) -> (events:
    Vec<SupervisorEvent<T, E, P>>)
    ensures
        reports_of(events@) == reports(outcomes@, retries_backoff),
{
    let mut backoff = retries_backoff;
    let mut events: Vec<SupervisorEvent<T, E, P>> = Vec::new();
    let ghost all = outcomes@;
    let ghost factor = backoff.factor as nat;
    let ghost max = backoff.max_nanos();
    let mut finished = false;
    for outcome in iter: outcomes
        invariant
            iter.seq() == all,
            backoff.factor == factor,
            backoff.max_nanos() == max,
            !finished ==> reports_of(events@) + reports_from(
                all,
                iter.index() as int,
                backoff.value_nanos(),
                factor,
                max,
            ) == reports(all, retries_backoff),
            finished ==> reports_of(events@) == reports(all, retries_backoff),
    {
        if !finished {
            let ghost before = reports_of(events@);
            let ghost value = backoff.value_nanos();
            let ghost i = iter.index() as int;
            events.push(attempt_started());
            let verdict = attempt_ended(&mut backoff, outcome);
            match verdict.next {
                Next::Finish => {
                    finished = true;
                },
                Next::RetryAfter(_) => {},
            }
            events.push(verdict.event);
            proof {
                let tail = reports_from(all, i + 1, backoff.value_nanos(), factor, max);
                assert(reports_of(events@) =~= before + seq![
                    Report::Started,
                    events@[events@.len() - 1].report(),
                ]);
                if finished {
                    assert(before + reports_from(all, i, value, factor, max) =~= reports_of(
                        events@,
                    ));
                } else {
                    assert(reports_of(events@) + tail =~= before + reports_from(
                        all,
                        i,
                        value,
                        factor,
                        max,
                    ));
                }
            }
        }
    }
    if !finished {
        let ghost before = reports_of(events@);
        events.push(attempt_started());
        assert(reports_of(events@) =~= before + seq![Report::Started]);
    }
    events
}

} // verus!
