//! Lifting the configuration as written into what a monitor needs:
//! defaults filled in, the mailbox name in its wire form, and for every
//! secret the place where it is to be had.

use crate::config_core::{
    Auth, Config, KeyringRef, LoginCredentials, MailboxConfig, OAuth2ClientConfig, PasswordSource,
    ServerConfig,
};
use crate::exp_backoff::{duration_from_secs, duration_nanos, NANOS_PER_SEC};
use crate::imap_utf7::wire::encode_spec;
use crate::imap_utf7::ImapUtf7String;
use core::time::Duration;
use std::sync::Arc;
use vstd::prelude::*;
use vstd::utf8::encode_utf8;

verus! {

/// Default IDLE timeout (seconds) when not specified in config.
pub const DEFAULT_IDLE_TIMEOUT_SECS: u64 = 300;

/// How long before its expiry a token is refreshed (seconds) when not
/// specified in config.
pub const DEFAULT_EXPIRATION_TOLERANCE_SECS: u64 = 3600;

/// Default keyring service name.
pub fn default_keyring_service() -> (service: &'static str)
    ensures
        service@ == "mail-notifier"@,
{
    "mail-notifier"
}

/// Fully resolved bringup configuration shared across mailboxes.
#[derive(Debug, Clone)]
pub struct Server {
    /// Human-friendly name for logging and identification.
    pub server_name: String,
    /// Hostname or IP address of the server.
    pub host: String,
    /// Port.
    pub port: u16,
    /// TLS mode.
    pub tls_mode: crate::imap_tls::TlsMode,
    /// TLS server name (SNI).
    pub tls_server_name: String,
    /// Authentication.
    pub auth: ServerAuth,
}

/// Fully-resolved authentication config.
#[derive(Debug, Clone)]
pub enum ServerAuth {
    /// Login with username/password.
    Login {
        /// Username for authentication.
        username: String,
        /// Password for authentication.
        password: String,
    },
    /// Authenticate with the static OAuth 2 credentials.
    OAuth2Credentials {
        /// Username for OAuth2 authentication.
        user: String,
        /// Access token for OAuth2 authentication.
        access_token: String,
    },
}

/// Fully resolved bringup configuration of one mailbox.
#[derive(Debug, Clone)]
pub struct Mailbox {
    /// A shared server.
    pub server: Arc<Server>,
    /// Mailbox name (e.g. INBOX), in its wire form.
    pub mailbox: ImapUtf7String,
    /// Idle timeout.
    pub idle_timeout: Duration,
}

/// Keyring service/account pair.
#[derive(Debug, Clone, Copy, PartialEq, Eq)]
pub struct ServiceAccount<'a> {
    /// Keyring service name.
    pub service: &'a str,
    /// Keyring account name.
    pub account: &'a str,
}

/// Keyring service/account pair.
#[derive(Debug, Clone, Copy, PartialEq, Eq)]
pub struct KeyringServiceAccount<'a> {
    /// Keyring service name.
    pub service: &'a str,
    /// Keyring account name.
    pub account: &'a str,
}

/// Errors returned while resolving password.
#[derive(Debug)]
pub enum ResolvePasswordError<KeyringError> {
    /// Failed to read the password from the keyring.
    Keyring(KeyringError),
}

/// Server auth bringup error.
#[derive(Debug)]
pub enum ServerAuthError<KeyringError, StorageError> {
    /// Failed to read the password from the keyring.
    ResolvePassword(ResolvePasswordError<KeyringError>),
    /// The OAuth 2 client with the given name was not found.
    OAuth2ClientNotFound {
        /// The name of the client that was missing.
        name: String,
    },
    /// OAuth 2 session keyring init error.
    OAuth2KeyringInit(StorageError),
}

/// Server bringup error.
#[derive(Debug)]
pub enum ServerError<KeyringError, StorageError> {
    /// Failed to bringup server auth.
    ServerAuth(ServerAuthError<KeyringError, StorageError>),
}

/// The connection mode that a configured TLS mode stands for.
pub open spec fn tls_mode_of(mode: crate::config_core::TlsMode) -> crate::imap_tls::TlsMode {
    match mode {
        crate::config_core::TlsMode::Implicit => crate::imap_tls::TlsMode::Implicit,
        crate::config_core::TlsMode::StartTls => crate::imap_tls::TlsMode::StartTls,
    }
}

/// The port that a connection mode is usually served on.
pub open spec fn port_of(mode: crate::imap_tls::TlsMode) -> u16 {
    match mode {
        crate::imap_tls::TlsMode::Implicit => 993,
        crate::imap_tls::TlsMode::StartTls => 143,
    }
}

/// Convert config TLS mode to the connection's TLS mode.
pub fn map_tls_mode(mode: crate::config_core::TlsMode) -> (r: crate::imap_tls::TlsMode)
    ensures
        r == tls_mode_of(mode),
{
    match mode {
        crate::config_core::TlsMode::Implicit => crate::imap_tls::TlsMode::Implicit,
        crate::config_core::TlsMode::StartTls => crate::imap_tls::TlsMode::StartTls,
    }
}

/// Default port for the given TLS mode.
pub fn default_port(mode: crate::imap_tls::TlsMode) -> (port: u16)
    ensures
        port == port_of(mode),
{
    match mode {
        crate::imap_tls::TlsMode::Implicit => 993,
        crate::imap_tls::TlsMode::StartTls => 143,
    }
}

/// A configured name, or the default where none is configured.
pub open spec fn name_or(configured: Option<String>, default: Seq<char>) -> Seq<char> {
    match configured {
        Some(name) => name@,
        None => default,
    }
}

/// A configured name, or the default where none is configured.
fn configured_or<'a>(configured: &'a Option<String>, default: &'a str) -> (name: &'a str)
    ensures
        name@ == name_or(*configured, default@),
{
    match configured {
        Some(name) => name.as_str(),
        None => default,
    }
}

/// Resolve the keyring service/account for the given keyring reference: the
/// service is the configured one or the default, the account the configured
/// one or the username.
pub fn service_account<'a>(
    keyring: &'a KeyringRef,
    username: &'a str,
    default_service: &'a str,
) -> (r: ServiceAccount<'a>)
    ensures
        r.service@ == name_or(keyring.service, default_service@),
        r.account@ == name_or(keyring.account, username@),
{
    let service = configured_or(&keyring.service, default_service);
    let account = configured_or(&keyring.account, username);
    ServiceAccount { service, account }
}

/// Resolve the keyring service/account for the given keyring reference,
/// with the application's service as the default.
pub fn keyring_service_account<'a>(keyring: &'a KeyringRef, username: &'a str) -> (r:
    KeyringServiceAccount<'a>)
    ensures
        r.service@ == name_or(keyring.service, "mail-notifier"@),
        r.account@ == name_or(keyring.account, username@),
{
    let service = configured_or(&keyring.service, default_keyring_service());
    let account = configured_or(&keyring.account, username);
    KeyringServiceAccount { service, account }
}

/// Whether a server logs in with a password that is kept in the keyring.
pub open spec fn uses_keyring(server: ServerConfig) -> bool {
    match server.auth {
        Auth::Login(credentials) => credentials.password is Keyring,
        _ => false,
    }
}

/// Whether the configuration references keyring credentials, so that the
/// keyring store has to be initialized.
pub fn needs_keyring(config: &Config) -> (needed: bool)
    ensures
        needed <==> exists|i: int| 0 <= i < config.servers@.len() && uses_keyring(#[trigger] config.servers@[i]),
{
    let n = config.servers.len();
    let mut i: usize = 0;
    while i < n
        invariant
            n == config.servers@.len(),
            i <= n,
            forall|k: int| 0 <= k < i ==> !uses_keyring(#[trigger] config.servers@[k]),
        decreases n - i,
    {
        match &config.servers[i].auth {
            Auth::Login(credentials) => {
                match &credentials.password {
                    PasswordSource::Keyring { .. } => {
                        return true;
                    },
                    PasswordSource::Plain(_) => {},
                }
            },
            _ => {},
        }
        i += 1;
    }
    false
}

/// The idle timeout of a mailbox in seconds: its own, else its server's,
/// else the default.
pub open spec fn idle_timeout_secs_of(server: ServerConfig, mailbox: MailboxConfig) -> u64 {
    match mailbox.idle_timeout_secs {
        Some(secs) => secs,
        None => match server.idle_timeout_secs {
            Some(secs) => secs,
            None => DEFAULT_IDLE_TIMEOUT_SECS,
        },
    }
}

/// The idle timeout of a mailbox in seconds.
pub fn idle_timeout_secs(server: &ServerConfig, mailbox: &MailboxConfig) -> (secs: u64)
    ensures
        secs == idle_timeout_secs_of(*server, *mailbox),
{
    match mailbox.idle_timeout_secs {
        Some(secs) => secs,
        None => match server.idle_timeout_secs {
            Some(secs) => secs,
            None => DEFAULT_IDLE_TIMEOUT_SECS,
        },
    }
}

/// Build a mailbox config: the name in its wire form, and the idle timeout
/// of the mailbox, else of its server, else the default.
pub fn mailbox(
    bringup_server: Arc<Server>,
    core_server: &ServerConfig,
    core_mailbox: &MailboxConfig,
) -> (r: Mailbox)
    ensures
        r.server == bringup_server,
        encode_utf8(r.mailbox@) == encode_spec(core_mailbox.name@),
        duration_nanos(r.idle_timeout) == idle_timeout_secs_of(*core_server, *core_mailbox)
            * NANOS_PER_SEC,
{
    let secs = idle_timeout_secs(core_server, core_mailbox);
    Mailbox {
        server: bringup_server,
        mailbox: ImapUtf7String::from_utf8(core_mailbox.name.as_str()),
        idle_timeout: duration_from_secs(secs),
    }
}

/// Build the configs of all mailboxes of a server, in their order: each
/// shares the server, and has its name in the wire form and its idle
/// timeout.
pub fn server_mailboxes(bringup_server: Arc<Server>, core_server: &ServerConfig) -> (r: Vec<Mailbox>)
    ensures
        r@.len() == core_server.mailboxes@.len(),
        forall|i: int|
            0 <= i < r@.len() ==> {
                &&& (#[trigger] r@[i]).server == bringup_server
                &&& encode_utf8(r@[i].mailbox@) == encode_spec(core_server.mailboxes@[i].name@)
                &&& duration_nanos(r@[i].idle_timeout) == idle_timeout_secs_of(
                    *core_server,
                    core_server.mailboxes@[i],
                ) * NANOS_PER_SEC
            },
{
    let mut mailboxes: Vec<Mailbox> = Vec::new();
    let n = core_server.mailboxes.len();
    let mut i: usize = 0;
    while i < n
        invariant
            n == core_server.mailboxes@.len(),
            i <= n,
            mailboxes@.len() == i,
            forall|k: int|
                0 <= k < i ==> {
                    &&& (#[trigger] mailboxes@[k]).server == bringup_server
                    &&& encode_utf8(mailboxes@[k].mailbox@) == encode_spec(
                        core_server.mailboxes@[k].name@,
                    )
                    &&& duration_nanos(mailboxes@[k].idle_timeout) == idle_timeout_secs_of(
                        *core_server,
                        core_server.mailboxes@[k],
                    ) * NANOS_PER_SEC
                },
        decreases n - i,
    {
        mailboxes.push(mailbox(bringup_server.clone(), core_server, &core_server.mailboxes[i]));
        i += 1;
    }
    mailboxes
}

/// Bring up a server config with its resolved authentication: the port is
/// the configured one or the default of the TLS mode, the TLS server name
/// the configured one or the host.
pub fn server(core_server: &ServerConfig, auth: ServerAuth) -> (r: Server)
    ensures
        r.server_name@ == core_server.name@,
        r.host@ == core_server.host@,
        r.tls_mode == tls_mode_of(core_server.tls.mode),
        r.port == (match core_server.port {
            Some(port) => port,
            None => port_of(tls_mode_of(core_server.tls.mode)),
        }),
        r.tls_server_name@ == name_or(core_server.tls.server_name, core_server.host@),
        r.auth == auth,
{
    let tls_mode = map_tls_mode(core_server.tls.mode);
    let port = match core_server.port {
        Some(port) => port,
        None => default_port(tls_mode),
    };
    let tls_server_name = match &core_server.tls.server_name {
        Some(name) => name.clone(),
        None => core_server.host.clone(),
    };
    Server {
        server_name: core_server.name.clone(),
        host: core_server.host.clone(),
        port,
        tls_mode,
        tls_server_name,
        auth,
    }
}

/// Fully resolved bringup configuration of a server, for monitors that may
/// authenticate with a managed session.
#[derive(Debug)]
pub struct BringupServerConfig<OAuth2SessionAccessTokenProvider> {
    /// Human-friendly name for logging and identification.
    pub server_name: String,
    /// Hostname or IP address of the server.
    pub host: String,
    /// Port.
    pub port: u16,
    /// TLS mode.
    pub tls_mode: crate::imap_tls::TlsMode,
    /// TLS server name (SNI).
    pub tls_server_name: String,
    /// Authentication.
    pub auth: crate::imap_monitor::Auth<OAuth2SessionAccessTokenProvider>,
}

/// Build a resolved bringup server config from its configuration and its
/// resolved authentication: the port is the configured one or the default
/// of the TLS mode, the TLS server name the configured one or the host.
pub fn bringup_server_config<Provider>(
    core_server: &ServerConfig,
    auth: crate::imap_monitor::Auth<Provider>,
) -> (r: BringupServerConfig<Provider>)
    ensures
        r.server_name@ == core_server.name@,
        r.host@ == core_server.host@,
        r.tls_mode == tls_mode_of(core_server.tls.mode),
        r.port == (match core_server.port {
            Some(port) => port,
            None => port_of(tls_mode_of(core_server.tls.mode)),
        }),
        r.tls_server_name@ == name_or(core_server.tls.server_name, core_server.host@),
        r.auth == auth,
{
    let tls_mode = map_tls_mode(core_server.tls.mode);
    let port = match core_server.port {
        Some(port) => port,
        None => default_port(tls_mode),
    };
    let tls_server_name = match &core_server.tls.server_name {
        Some(name) => name.clone(),
        None => core_server.host.clone(),
    };
    BringupServerConfig {
        server_name: core_server.name.clone(),
        host: core_server.host.clone(),
        port,
        tls_mode,
        tls_server_name,
        auth,
    }
}

/// Build a resolved mailbox monitor config from the configuration of the
/// server and of the mailbox, and the server's resolved authentication: the
/// server's part as `bringup_server_config` gives it, the mailbox name in
/// its wire form, and the idle timeout of the mailbox, else of its server,
/// else the default.
pub fn bringup_monitor_config<Provider>(
    core_server: &ServerConfig,
    core_mailbox: &MailboxConfig,
    auth: crate::imap_monitor::Auth<Provider>,
) -> (r: crate::imap_monitor::Config<Provider>)
    ensures
        r.server_name@ == core_server.name@,
        r.host@ == core_server.host@,
        r.tls_mode == tls_mode_of(core_server.tls.mode),
        r.port == (match core_server.port {
            Some(port) => port,
            None => port_of(tls_mode_of(core_server.tls.mode)),
        }),
        r.tls_server_name@ == name_or(core_server.tls.server_name, core_server.host@),
        r.auth == auth,
        encode_utf8(r.mailbox@) == encode_spec(core_mailbox.name@),
        duration_nanos(r.idle_timeout) == idle_timeout_secs_of(*core_server, *core_mailbox)
            * NANOS_PER_SEC,
{
    let server_config = bringup_server_config(core_server, auth);
    let secs = idle_timeout_secs(core_server, core_mailbox);
    crate::imap_monitor::Config {
        server_name: server_config.server_name,
        host: server_config.host,
        port: server_config.port,
        tls_mode: server_config.tls_mode,
        tls_server_name: server_config.tls_server_name,
        auth: server_config.auth,
        mailbox: ImapUtf7String::from_utf8(core_mailbox.name.as_str()),
        idle_timeout: duration_from_secs(secs),
    }
}

/// Where the password of a login is to be had.
#[derive(Debug)]
pub enum PasswordPlan {
    /// The password itself, as configured.
    Plain(String),
    /// The keyring entry that holds the password.
    Keyring {
        /// Keyring service name.
        service: String,
        /// Keyring account name.
        account: String,
    },
}

/// Say where the password of a login is to be had: in the config itself, or
/// in the keyring under the configured service (else the application's) and
/// account (else the username).
pub fn resolve_password(credentials: &LoginCredentials) -> (plan: PasswordPlan)
    ensures
        match credentials.password {
            PasswordSource::Plain(password) => plan matches PasswordPlan::Plain(p) && p@
                == password@,
            PasswordSource::Keyring { keyring } => plan matches PasswordPlan::Keyring {
                service,
                account,
            } && service@ == name_or(keyring.service, "mail-notifier"@) && account@ == name_or(
                keyring.account,
                credentials.username@,
            ),
        },
{
    match &credentials.password {
        PasswordSource::Plain(password) => PasswordPlan::Plain(password.clone()),
        PasswordSource::Keyring { keyring } => {
            let resolved = service_account(
                keyring,
                credentials.username.as_str(),
                default_keyring_service(),
            );
            PasswordPlan::Keyring {
                service: resolved.service.to_owned(),
                account: resolved.account.to_owned(),
            }
        },
    }
}

/// The position of the first client with the given name, if there is one.
pub open spec fn client_index(clients: Seq<(String, OAuth2ClientConfig)>, name: Seq<char>) -> Option<
    int,
>
    decreases clients.len(),
{
    if clients.len() == 0 {
        None
    } else if clients[0].0@ == name {
        Some(0)
    } else {
        match client_index(clients.drop_first(), name) {
            Some(i) => Some(i + 1),
            None => None,
        }
    }
}

/// Find the OAuth 2 client with the given name: the first one, where the
/// name is configured more than once.
pub fn find_oauth2_client<'a>(clients: &'a Vec<(String, OAuth2ClientConfig)>, name: &String) -> (r:
    Option<&'a OAuth2ClientConfig>)
    ensures
        match r {
            Some(client) => client_index(clients@, name@) matches Some(i) && 0 <= i < clients@.len()
                && *client == clients@[i].1,
            None => client_index(clients@, name@) is None,
        },
{
    let n = clients.len();
    let mut i: usize = 0;
    assert(clients@.skip(0) =~= clients@);
    while i < n
        invariant
            n == clients@.len(),
            i <= n,
            client_index(clients@, name@) == (match client_index(clients@.skip(i as int), name@) {
                Some(k) => Some(k + i),
                None => None,
            }),
        decreases n - i,
    {
        proof {
            assert(clients@.skip(i as int).drop_first() =~= clients@.skip(i + 1));
            assert(clients@.skip(i as int)[0] == clients@[i as int]);
        }
        if clients[i].0 == *name {
            return Some(&clients[i].1);
        }
        i += 1;
    }
    assert(clients@.skip(n as int).len() == 0);
    None
}

/// How a server authenticates, with for every secret the place where it is
/// to be had.
#[derive(Debug)]
pub enum AuthPlan<'a> {
    /// Login with a username and the password from the given place.
    Login {
        /// Username for authentication.
        username: String,
        /// Where the password is to be had.
        password: PasswordPlan,
    },
    /// Authenticate with the static OAuth 2 credentials.
    OAuth2Credentials {
        /// Username for OAuth 2 authentication.
        user: String,
        /// Access token for OAuth 2 authentication.
        access_token: String,
    },
    /// Authenticate with a managed OAuth 2 session.
    OAuth2Session {
        /// Username for OAuth 2 authentication.
        user: String,
        /// The name of the OAuth 2 client to refresh the token with.
        client_name: String,
        /// The OAuth 2 client to refresh the token with.
        client: &'a OAuth2ClientConfig,
        /// The keyring service that holds the token, where one is
        /// configured.
        service: Option<String>,
        /// The keyring account that holds the token.
        account: String,
        /// How long before its expiry the token is refreshed (seconds).
        expiration_tolerance_secs: u64,
    },
}

/// Say how a server authenticates. A managed session names its client,
/// which has to be configured; its token is kept under the configured
/// account, else under the user; and it is refreshed the configured time
/// before it expires, else an hour.
pub fn server_auth<'a, KeyringError, StorageError>(
    auth: &Auth,
    oauth2_clients: &'a Vec<(String, OAuth2ClientConfig)>,
) -> (r: Result<AuthPlan<'a>, ServerAuthError<KeyringError, StorageError>>)
    ensures
        match *auth {
            Auth::Login(credentials) => r matches Ok(AuthPlan::Login { username, password })
                && username@ == credentials.username@ && (match credentials.password {
                PasswordSource::Plain(configured) => password matches PasswordPlan::Plain(p) && p@
                    == configured@,
                PasswordSource::Keyring { keyring } => password matches PasswordPlan::Keyring {
                    service,
                    account,
                } && service@ == name_or(keyring.service, "mail-notifier"@) && account@
                    == name_or(keyring.account, credentials.username@),
            }),
            Auth::OAuth2Credentials(oauth2) => r matches Ok(
                AuthPlan::OAuth2Credentials { user, access_token },
            ) && user@ == oauth2.user@ && access_token@ == oauth2.access_token@,
            Auth::OAuth2Session(oauth2) => match client_index(
                oauth2_clients@,
                oauth2.oauth2_client@,
            ) {
                None => r matches Err(ServerAuthError::OAuth2ClientNotFound { name }) && name@
                    == oauth2.oauth2_client@,
                Some(i) => r matches Ok(
                    AuthPlan::OAuth2Session {
                        user,
                        client_name,
                        client,
                        service,
                        account,
                        expiration_tolerance_secs,
                    },
                ) && user@ == oauth2.user@ && client_name@ == oauth2.oauth2_client@ && *client
                    == oauth2_clients@[i].1 && account@
                    == name_or(oauth2.keyring.account, oauth2.user@) && (match (
                    service,
                    oauth2.keyring.service,
                ) {
                    (Some(a), Some(b)) => a@ == b@,
                    (None, None) => true,
                    _ => false,
                }) && expiration_tolerance_secs == (match oauth2.expiration_immenance_tolerance_secs {
                    Some(secs) => secs,
                    None => DEFAULT_EXPIRATION_TOLERANCE_SECS,
                }),
            },
        },
{
    match auth {
        Auth::Login(credentials) => Ok(
            AuthPlan::Login {
                username: credentials.username.clone(),
                password: resolve_password(credentials),
            },
        ),
        Auth::OAuth2Credentials(oauth2) => Ok(
            AuthPlan::OAuth2Credentials {
                user: oauth2.user.clone(),
                access_token: oauth2.access_token.clone(),
            },
        ),
        Auth::OAuth2Session(oauth2) => {
            match find_oauth2_client(oauth2_clients, &oauth2.oauth2_client) {
                None => Err(
                    ServerAuthError::OAuth2ClientNotFound { name: oauth2.oauth2_client.clone() },
                ),
                Some(client) => {
                    let account = configured_or(&oauth2.keyring.account, oauth2.user.as_str());
                    Ok(
                        AuthPlan::OAuth2Session {
                            user: oauth2.user.clone(),
                            client_name: oauth2.oauth2_client.clone(),
                            client,
                            service: match &oauth2.keyring.service {
                                Some(name) => Some(name.clone()),
                                None => None,
                            },
                            account: account.to_owned(),
                            expiration_tolerance_secs: match oauth2.expiration_immenance_tolerance_secs {
                                Some(secs) => secs,
                                None => DEFAULT_EXPIRATION_TOLERANCE_SECS,
                            },
                        },
                    )
                },
            }
        },
    }
}

/// How many of the first `n` servers have the given name.
pub open spec fn servers_named(servers: Seq<ServerConfig>, name: Seq<char>, n: int) -> nat
    decreases n,
{
    if n <= 0 {
        0
    } else {
        servers_named(servers, name, n - 1) + (if servers[n - 1].name@ == name {
            1nat
        } else {
            0nat
        })
    }
}

/// Why no single server is selected by a name.
#[derive(Debug, Clone, Copy, PartialEq, Eq, Structural)]
pub enum SelectServerError {
    /// No server has the name.
    NotFound,
    /// More than one server has the name.
    Ambiguous,
}

/// Select the server with the given name, which has to be the only one of
/// that name.
pub fn select_server<'a>(config: &'a Config, name: &String) -> (r: Result<
    &'a ServerConfig,
    SelectServerError,
>)
    ensures
        match r {
            Ok(server) => {
                &&& servers_named(config.servers@, name@, config.servers@.len() as int) == 1
                &&& server.name@ == name@
                &&& exists|i: int|
                    0 <= i < config.servers@.len() && *server == #[trigger] config.servers@[i]
            },
            Err(SelectServerError::NotFound) => servers_named(
                config.servers@,
                name@,
                config.servers@.len() as int,
            ) == 0,
            Err(SelectServerError::Ambiguous) => servers_named(
                config.servers@,
                name@,
                config.servers@.len() as int,
            ) > 1,
        },
{
    let n = config.servers.len();
    let mut found: Option<usize> = None;
    let mut i: usize = 0;
    while i < n
        invariant
            n == config.servers@.len(),
            i <= n,
            match found {
                None => servers_named(config.servers@, name@, i as int) == 0,
                Some(k) => k < i && config.servers@[k as int].name@ == name@ && servers_named(
                    config.servers@,
                    name@,
                    i as int,
                ) == 1,
            },
        decreases n - i,
    {
        if config.servers[i].name == *name {
            match found {
                Some(_) => {
                    proof {
                        lemma_servers_named_grows(config.servers@, name@, i + 1, n as int);
                    }
                    return Err(SelectServerError::Ambiguous);
                },
                None => {
                    found = Some(i);
                },
            }
        }
        i += 1;
    }
    match found {
        Some(k) => Ok(&config.servers[k]),
        None => Err(SelectServerError::NotFound),
    }
}

/// Among more servers, at least as many have the name.
pub proof fn lemma_servers_named_grows(servers: Seq<ServerConfig>, name: Seq<char>, k: int, n: int)
    requires
        k <= n,
    ensures
        servers_named(servers, name, k) <= servers_named(servers, name, n),
    decreases n - k,
{
    if k < n {
        lemma_servers_named_grows(servers, name, k, n - 1);
    }
}

/// The keyring entry that holds the password of a server: there is one
/// where the server logs in with a password from the keyring; its service
/// is the configured one or the default, its account the configured one or
/// the username.
pub fn keyring_entry<'a>(core_server: &'a ServerConfig, default_service: &'a str) -> (r: Option<
    ServiceAccount<'a>,
>)
    ensures
        match core_server.auth {
            Auth::Login(
                LoginCredentials { username, password: PasswordSource::Keyring { keyring } },
            ) => r matches Some(entry) && entry.service@ == name_or(
                keyring.service,
                default_service@,
            ) && entry.account@ == name_or(keyring.account, username@),
            _ => r is None,
        },
{
    match &core_server.auth {
        Auth::Login(credentials) => match &credentials.password {
            PasswordSource::Keyring { keyring } => Some(
                service_account(keyring, credentials.username.as_str(), default_service),
            ),
            PasswordSource::Plain(_) => None,
        },
        _ => None,
    }
}

/// How many characters of a text are left without the line breaks at its
/// end.
pub open spec fn trimmed_len(text: Seq<char>) -> nat
    decreases text.len(),
{
    if text.len() > 0 && (text.last() == '\n' || text.last() == '\r') {
        trimmed_len(text.drop_last())
    } else {
        text.len()
    }
}

/// The password that was typed: the input without the line breaks at its
/// end, where that is not empty.
pub fn typed_password(input: &str) -> (r: Option<String>)
    ensures
        match r {
            Some(password) => trimmed_len(input@) > 0 && password@ == input@.take(
                trimmed_len(input@) as int,
            ),
            None => trimmed_len(input@) == 0,
        },
{
    let n = input.unicode_len();
    let mut k: usize = n;
    assert(input@.take(n as int) =~= input@);
    while k > 0
        invariant
            n == input@.len(),
            k <= n,
            trimmed_len(input@) == trimmed_len(input@.take(k as int)),
        ensures
            k <= n,
            n == input@.len(),
            trimmed_len(input@) == k,
        decreases k,
    {
        let c = input.get_char(k - 1);
        proof {
            assert(input@.take(k as int).last() == c);
            assert(input@.take(k as int).drop_last() =~= input@.take(k - 1));
        }
        if c == '\n' || c == '\r' {
            k -= 1;
        } else {
            break ;
        }
    }
    if k == 0 {
        None
    } else {
        let password = input.substring_char(0, k).to_owned();
        assert(input@.subrange(0, k as int) =~= input@.take(k as int));
        Some(password)
    }
}

} // verus!
