//! What a monitoring workload is made of.

use vstd::prelude::*;

verus! {

/// A monitoring workload: what specifies it, what it reports and how it
/// fails. Running it is left to the caller, who owns the runtime.
pub trait Workload {
    /// An item that specifies the workload.
    type Item: Clone;

    /// An update from the workload.
    type Update;

    /// An error that the workload may fail with.
    type Error;
}

} // verus!
