//! Fan-out of monitoring targets: one supervised task per configured
//! workload, each tagged with the identity that the caller registered for
//! it.

use crate::exp_backoff::{duration_from_secs, State, NANOS_PER_SEC};
use vstd::prelude::*;

verus! {

/// Generic update produced by the engine.
///
/// `Entry` identifies which entry the update refers to and `Payload`
/// carries the actual update data.
#[derive(Debug)]
pub struct Update<Entry, Payload> {
    /// The entry this update belongs to.
    pub entry: Entry,
    /// The payload of the update.
    pub payload: Payload,
}

impl<Entry: Clone, Payload> Update<Entry, Payload> {
    /// Wrap a payload for the sink: the update carries a clone of the
    /// task's identity and the payload as it is.
    pub fn tagged(entry: &Entry, payload: Payload) -> (update: Self)
        ensures
            cloned(*entry, update.entry),
            update.payload == payload,
    {
        Update { entry: entry.clone(), payload }
    }
}

/// One task to spawn: a workload item under supervision, with the identity
/// that tags what it reports.
pub struct MonitorTask<Entry, Item> {
    /// The identity that the caller registered for the item.
    pub entry: Entry,
    /// The workload item, cloned for the task.
    pub item: Item,
    /// The backoff of the task's supervisor.
    pub retries_backoff: State,
}

/// The backoff of every task's supervisor: the first retry after one
/// second, each delay twice the one before, and none above thirty seconds.
pub fn retry_policy() -> (backoff: State)
    ensures
        backoff.factor == 2,
        backoff.value_nanos() == 1 * NANOS_PER_SEC,
        backoff.max_nanos() == 30 * NANOS_PER_SEC,
{
    State { factor: 2, max: duration_from_secs(30), value: duration_from_secs(1) }
}

/// Register every workload item, in order, and return the tasks to spawn,
/// in the same order: task `i` holds a clone of item `i` and the identity
/// that the registration returned for it.
pub fn plan_monitors<Item: Clone, Entry, Register: FnMut(&Item) -> Entry>(
    workload_items: &[Item],
    mut register_state: Register,
) -> (tasks: Vec<MonitorTask<Entry, Item>>)
    requires
        forall|i: int|
            0 <= i < workload_items@.len() ==> call_requires(
                register_state,
                (&#[trigger] workload_items@[i],),
            ),
    ensures
        tasks@.len() == workload_items@.len(),
        forall|k: int|
            0 <= k < tasks@.len() ==> {
                &&& call_ensures(
                    register_state,
                    (&workload_items@[k],),
                    #[trigger] tasks@[k].entry,
                )
                &&& cloned(workload_items@[k], tasks@[k].item)
                &&& tasks@[k].retries_backoff.factor == 2
                &&& tasks@[k].retries_backoff.value_nanos() == 1 * NANOS_PER_SEC
                &&& tasks@[k].retries_backoff.max_nanos() == 30 * NANOS_PER_SEC
            },
{
    let mut tasks: Vec<MonitorTask<Entry, Item>> = Vec::new();
    let ghost register = register_state;
    let n = workload_items.len();
    let mut i: usize = 0;
    while i < n
        invariant
            n == workload_items@.len(),
            i <= n,
            tasks@.len() == i,
            register_state == register,
            forall|k: int|
                0 <= k < workload_items@.len() ==> call_requires(
                    register_state,
                    (&#[trigger] workload_items@[k],),
                ),
            forall|k: int|
                0 <= k < i ==> {
                    &&& call_ensures(
                        register_state,
                        (&workload_items@[k],),
                        #[trigger] tasks@[k].entry,
                    )
                    &&& cloned(workload_items@[k], tasks@[k].item)
                    &&& tasks@[k].retries_backoff.factor == 2
                    &&& tasks@[k].retries_backoff.value_nanos() == 1 * NANOS_PER_SEC
                    &&& tasks@[k].retries_backoff.max_nanos() == 30 * NANOS_PER_SEC
                },
        decreases n - i,
    {
        let item = &workload_items[i];
        let entry = register_state(item);
        tasks.push(MonitorTask { entry, item: item.clone(), retries_backoff: retry_policy() });
        i += 1;
    }
    tasks
}

} // verus!
