//! The monitor's fully resolved configuration, and the choice of how its
//! session authenticates.


use crate::imap_session::Params;
use crate::imap_tls::TlsMode;
use crate::imap_utf7::ImapUtf7String;
use core::time::Duration;
use vstd::prelude::*;

verus! {

/// Fully-resolved authentication config.
#[derive(Debug)]
pub enum Auth<OAuth2SessionAccessTokenProvider> {
    /// Login with username/password.
    Login {
        /// Username for authentication.
        username: String,
        /// Password for authentication.
        password: String,
    },
    /// Authenticate with the static OAuth 2 credentials.
    OAuth2Credentials {
        /// Username for OAuth 2 authentication.
        user: String,
        /// Access token for OAuth 2 authentication.
        access_token: String,
    },
    /// Authenticate with a token that a provider hands out.
    OAuth2Session {
        /// Username for OAuth 2 authentication.
        user: String,
        /// Token provider for the OAuth 2 authentication.
        access_token_provider: OAuth2SessionAccessTokenProvider,
    },
}

/// Fully resolved mailbox monitoring configuration.
#[derive(Debug)]
pub struct Config<OAuth2SessionAccessTokenProvider> {
    /// Human-friendly name for logging and identification.
    pub server_name: String,
    /// Hostname or IP address of the server.
    pub host: String,
    /// Port.
    pub port: u16,
    /// TLS mode.
    pub tls_mode: TlsMode,
    /// TLS server name (SNI).
    pub tls_server_name: String,
    /// Authentication.
    pub auth: Auth<OAuth2SessionAccessTokenProvider>,
    /// Mailbox name (e.g. INBOX), in its wire form.
    pub mailbox: ImapUtf7String,
    /// Idle timeout.
    pub idle_timeout: Duration,
}

/// Errors returned while monitoring a mailbox.
#[derive(Debug)]
pub enum MonitorError<TokenError, SetupError, ProtocolError> {
    /// OAuth 2 session error.
    OAuth2SessionGetToken(TokenError),
    /// Session setup error.
    ImapSessionSetup(SetupError),
    /// Monitor error.
    Monitor(crate::imap_checker::MonitorError<ProtocolError>),
}

/// What the session authenticates with, as far as the configuration says.
#[derive(Debug)]
pub enum AuthChoice<'a, Provider> {
    /// The params are at hand.
    Ready(Params<'a>),
    /// The provider has to hand out a token for this user first.
    TokenNeeded {
        /// The user for authentication.
        user: &'a str,
        /// The provider to ask for the token.
        provider: &'a Provider,
    },
}

/// Choose how the session authenticates: with the configured login, with
/// the configured token, or with a token that the provider is asked for.
pub fn choose_auth<'a, Provider>(auth: &'a Auth<Provider>) -> (choice: AuthChoice<'a, Provider>)
    ensures
        match *auth {
            Auth::Login { username, password } => choice matches AuthChoice::Ready(
                Params::Login { username: u, password: p },
            ) && u@ == username@ && p@ == password@,
            Auth::OAuth2Credentials { user, access_token } => choice matches AuthChoice::Ready(
                Params::OAuth2 { user: u, access_token: t },
            ) && u@ == user@ && t@ == access_token@,
            Auth::OAuth2Session { user, access_token_provider } => choice matches AuthChoice::TokenNeeded {
                user: u,
                provider,
            } && u@ == user@ && *provider == access_token_provider,
        },
{
    match auth {
        Auth::Login { username, password } => AuthChoice::Ready(
            Params::Login { username: username.as_str(), password: password.as_str() },
        ),
        Auth::OAuth2Credentials { user, access_token } => AuthChoice::Ready(
            Params::OAuth2 { user: user.as_str(), access_token: access_token.as_str() },
        ),
        Auth::OAuth2Session { user, access_token_provider } => AuthChoice::TokenNeeded {
            user: user.as_str(),
            provider: access_token_provider,
        },
    }
}

/// The params of a session that authenticates with a token that the
/// provider handed out.
pub fn auth_with_token<'a>(user: &'a str, access_token: &'a str) -> (params: Params<'a>)
    ensures
        params matches Params::OAuth2 { user: u, access_token: t } && u@ == user@ && t@
            == access_token@,
{
    Params::OAuth2 { user, access_token }
}

} // verus!
