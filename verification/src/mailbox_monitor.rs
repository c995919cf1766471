//! The configuration of one monitored mailbox.

use crate::imap_tls::TlsMode;
use crate::imap_utf7::ImapUtf7String;
use core::time::Duration;
use vstd::prelude::*;

verus! {

/// Fully resolved mailbox monitoring configuration.
#[derive(Debug, Clone, PartialEq)]
pub struct MailboxMonitorConfig {
    /// Human-friendly name for logging and identification.
    pub server_name: String,
    /// Hostname or IP address of the server.
    pub host: String,
    /// Port.
    pub port: u16,
    /// TLS mode.
    pub tls_mode: TlsMode,
    /// TLS server name (SNI).
    pub tls_server_name: String,
    /// Username for authentication.
    pub username: String,
    /// Password for authentication.
    pub password: String,
    /// Mailbox name (e.g. INBOX), in its wire form.
    pub mailbox: ImapUtf7String,
    /// Idle timeout.
    pub idle_timeout: Duration,
}

} // verus!
