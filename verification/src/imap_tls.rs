//! How the connection to a server is secured.

use vstd::prelude::*;

verus! {

/// How to secure the connection.
#[derive(Debug, Clone, Copy, PartialEq, Eq, Structural)]
pub enum TlsMode {
    /// Implicit TLS (usually port 993).
    Implicit,
    /// Start with plaintext and upgrade using STARTTLS (usually port 143).
    StartTls,
}

} // verus!
