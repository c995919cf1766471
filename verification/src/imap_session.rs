//! What a session is set up with: where to connect and how to
//! authenticate.

use crate::imap_tls::TlsMode;
use vstd::prelude::*;
use vstd::string::StringExecFns;

verus! {

/// Auth params.
#[derive(Debug, Clone, Copy, PartialEq)]
pub enum Params<'a> {
    /// Username/password login.
    Login {
        /// Username for authentication.
        ///
        /// Typically an email address.
        username: &'a str,
        /// Password for authentication.
        password: &'a str,
    },
    /// OAuth 2 authentication.
    OAuth2 {
        /// The user for authentication.
        ///
        /// Typically an email address.
        user: &'a str,
        /// The access token for authentication.
        access_token: &'a str,
    },
}

/// Session params.
#[derive(Debug, Clone, Copy, PartialEq)]
pub struct SetupParams<'a> {
    /// Hostname or IP address of the server.
    pub host: &'a str,
    /// Port.
    pub port: u16,
    /// TLS mode.
    pub tls_mode: TlsMode,
    /// TLS server name (SNI).
    pub tls_server_name: &'a str,
    /// Params for authentication.
    pub auth: Params<'a>,
}

/// The client's answer in the bearer-token mechanism: `user=`, the user,
/// a byte 1, `auth=Bearer `, the token, and two bytes 1.
pub open spec fn bearer_response(user: Seq<char>, access_token: Seq<char>) -> Seq<char> {
    "user="@ + user + seq!['\u{1}'] + "auth=Bearer "@ + access_token + seq!['\u{1}', '\u{1}']
}

/// Build the client's answer in the bearer-token mechanism.
pub fn oauth2_response(user: &str, access_token: &str) -> (response: String)
    ensures
        response@ == bearer_response(user@, access_token@),
{
    proof {
        reveal_strlit("\u{1}");
        reveal_strlit("\u{1}\u{1}");
    }
    let mut response = "user=".to_owned();
    response.append(user);
    response.append("\u{1}");
    response.append("auth=Bearer ");
    response.append(access_token);
    response.append("\u{1}\u{1}");
    assert("\u{1}"@ =~= seq!['\u{1}']);
    assert("\u{1}\u{1}"@ =~= seq!['\u{1}', '\u{1}']);
    response
}

} // verus!
