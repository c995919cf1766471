//! The mailbox workload: what a monitor of one brought-up mailbox is set up
//! with.

use crate::config_bringup::{Mailbox, Server, ServerAuth};
use crate::imap_session::{Params as AuthParams, SetupParams};
use crate::imap_utf7::ImapUtf7Str;
use core::time::Duration;
use vstd::prelude::*;
use vstd::string::StringExecFns;

verus! {

/// What a monitor is set up with.
#[derive(Debug, Clone, Copy)]
pub struct Params<'a> {
    /// What the session is set up with.
    pub session: SetupParams<'a>,
    /// The mailbox to watch, in its wire form.
    pub mailbox: ImapUtf7Str<'a>,
    /// Idle timeout.
    pub idle_timeout: Duration,
}

/// Set up the workload: the session connects to the mailbox's server and
/// authenticates as the server's configuration says, with a login or with a
/// token.
pub fn setup(mailbox: &Mailbox) -> (params: Params<'_>)
    ensures
        params.session.host@ == mailbox.server.host@,
        params.session.port == mailbox.server.port,
        params.session.tls_mode == mailbox.server.tls_mode,
        params.session.tls_server_name@ == mailbox.server.tls_server_name@,
        match mailbox.server.auth {
            ServerAuth::Login { username, password } => params.session.auth matches AuthParams::Login {
                username: u,
                password: p,
            } && u@ == username@ && p@ == password@,
            ServerAuth::OAuth2Credentials { user, access_token } => params.session.auth matches AuthParams::OAuth2 {
                user: u,
                access_token: t,
            } && u@ == user@ && t@ == access_token@,
        },
        params.mailbox@ == mailbox.mailbox@,
        params.idle_timeout == mailbox.idle_timeout,
{
    let server: &Server = &mailbox.server;
    let auth = match &server.auth {
        ServerAuth::Login { username, password } => AuthParams::Login {
            username: username.as_str(),
            password: password.as_str(),
        },
        ServerAuth::OAuth2Credentials { user, access_token } => AuthParams::OAuth2 {
            user: user.as_str(),
            access_token: access_token.as_str(),
        },
    };
    Params {
        session: SetupParams {
            host: server.host.as_str(),
            port: server.port,
            tls_mode: server.tls_mode,
            tls_server_name: server.tls_server_name.as_str(),
            auth,
        },
        mailbox: mailbox.mailbox.as_imap_utf7_str(),
        idle_timeout: mailbox.idle_timeout,
    }
}

/// The label of a monitored mailbox: the name of its server, a slash, and
/// its own name.
pub fn entry_label(server_name: &str, mailbox: &str) -> (label: String)
    ensures
        label@ == server_name@ + " / "@ + mailbox@,
{
    let mut label = server_name.to_owned();
    label.append(" / ");
    label.append(mailbox);
    label
}

} // verus!
