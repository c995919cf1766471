//! When an access token is refreshed.

use crate::exp_backoff::{duration_is_shorter, duration_nanos};
use core::time::Duration;
use vstd::prelude::*;

verus! {

/// What is known of the expiry of a token.
#[derive(Debug, Clone, Copy)]
pub enum Expiry {
    /// The token is not known to expire.
    Unknown,
    /// The token has expired.
    Passed,
    /// The token expires after this time.
    In(Duration),
}

/// Whether a token is refreshed before it is used: it is, where it has
/// expired, or expires in less than the tolerance.
pub fn needs_refresh(expiry: Expiry, tolerance: Duration) -> (refresh: bool)
    ensures
        refresh == (match expiry {
            Expiry::Unknown => false,
            Expiry::Passed => true,
            Expiry::In(left) => duration_nanos(left) < duration_nanos(tolerance),
        }),
{
    match expiry {
        Expiry::Unknown => false,
        Expiry::Passed => true,
        Expiry::In(left) => duration_is_shorter(left, tolerance),
    }
}

} // verus!
