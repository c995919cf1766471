use mail_notifier::config_bringup::{
    default_port, find_oauth2_client, idle_timeout_secs, keyring_service_account, mailbox,
    map_tls_mode, needs_keyring, resolve_password, server, server_auth, service_account, AuthPlan,
    PasswordPlan, Server, ServerAuth, ServerAuthError,
};
use mail_notifier::config_core::{
    Auth, Config, KeyringRef, LoginCredentials, MailboxConfig, OAuth2ClientConfig,
    OAuth2Credentials, OAuth2Session, PasswordSource, ServerConfig, TlsConfig, TlsMode,
};
use mail_notifier::imap_tls;
use std::sync::Arc;
use std::time::Duration;

fn login(password: PasswordSource) -> Auth {
    Auth::Login(LoginCredentials {
        username: "user@example.com".to_string(),
        password,
    })
}

fn server_config(auth: Auth) -> ServerConfig {
    ServerConfig {
        name: "primary".to_string(),
        host: "imap.example.com".to_string(),
        port: None,
        tls: TlsConfig {
            mode: TlsMode::Implicit,
            server_name: None,
        },
        auth,
        mailboxes: vec![],
        idle_timeout_secs: None,
    }
}

fn client(id: &str) -> OAuth2ClientConfig {
    OAuth2ClientConfig {
        client_id: id.to_string(),
        client_secret: "s".to_string(),
        token_url: "https://example.com/token".to_string(),
        auth_url: None,
        device_authorization_url: None,
    }
}

#[test]
fn tls_modes_map_one_to_one_and_have_their_ports() {
    assert_eq!(map_tls_mode(TlsMode::Implicit), imap_tls::TlsMode::Implicit);
    assert_eq!(map_tls_mode(TlsMode::StartTls), imap_tls::TlsMode::StartTls);
    assert_eq!(default_port(imap_tls::TlsMode::Implicit), 993);
    assert_eq!(default_port(imap_tls::TlsMode::StartTls), 143);
}

#[test]
fn keyring_entries_default_to_the_service_and_the_username() {
    let empty = KeyringRef {
        service: None,
        account: None,
    };
    let resolved = service_account(&empty, "user@example.com", "fallback");
    assert_eq!(resolved.service, "fallback");
    assert_eq!(resolved.account, "user@example.com");
    let resolved = keyring_service_account(&empty, "user@example.com");
    assert_eq!(resolved.service, "mail-notifier");
    assert_eq!(resolved.account, "user@example.com");

    let full = KeyringRef {
        service: Some("svc".to_string()),
        account: Some("acc".to_string()),
    };
    let resolved = service_account(&full, "user@example.com", "fallback");
    assert_eq!(resolved.service, "svc");
    assert_eq!(resolved.account, "acc");
    let resolved = keyring_service_account(&full, "user@example.com");
    assert_eq!(resolved.service, "svc");
    assert_eq!(resolved.account, "acc");
}

#[test]
fn the_keyring_is_needed_only_for_logins_with_keyring_passwords() {
    let keyring = PasswordSource::Keyring {
        keyring: KeyringRef {
            service: None,
            account: None,
        },
    };
    let plain = PasswordSource::Plain("secret".to_string());
    let token = Auth::OAuth2Credentials(OAuth2Credentials {
        user: "u".to_string(),
        access_token: "t".to_string(),
    });
    let config = |auths: Vec<Auth>| Config {
        servers: auths.into_iter().map(server_config).collect(),
        oauth2_clients: vec![],
    };
    assert!(!needs_keyring(&config(vec![])));
    assert!(!needs_keyring(&config(vec![login(plain.clone()), token.clone()])));
    assert!(needs_keyring(&config(vec![
        token.clone(),
        login(plain),
        login(keyring)
    ])));
}

#[test]
fn the_idle_timeout_is_the_mailbox_s_then_the_server_s_then_five_minutes() {
    let mut core_server = server_config(login(PasswordSource::Plain("x".to_string())));
    let mut core_mailbox = MailboxConfig {
        name: "INBOX".to_string(),
        idle_timeout_secs: None,
    };
    assert_eq!(idle_timeout_secs(&core_server, &core_mailbox), 300);
    core_server.idle_timeout_secs = Some(120);
    assert_eq!(idle_timeout_secs(&core_server, &core_mailbox), 120);
    core_mailbox.idle_timeout_secs = Some(60);
    assert_eq!(idle_timeout_secs(&core_server, &core_mailbox), 60);
}

#[test]
fn a_mailbox_is_brought_up_with_its_wire_name_and_timeout() {
    let core_server = server_config(login(PasswordSource::Plain("x".to_string())));
    let core_mailbox = MailboxConfig {
        name: "Entw\u{fc}rfe & Co".to_string(),
        idle_timeout_secs: Some(90),
    };
    let resolved = Arc::new(server(
        &core_server,
        ServerAuth::Login {
            username: "user@example.com".to_string(),
            password: "x".to_string(),
        },
    ));
    let brought = mailbox(resolved.clone(), &core_server, &core_mailbox);
    assert!(Arc::ptr_eq(&brought.server, &resolved));
    assert_eq!(brought.mailbox.as_str(), "Entw&APw-rfe &- Co");
    assert_eq!(brought.mailbox.decode(), "Entw\u{fc}rfe & Co");
    assert_eq!(brought.idle_timeout, Duration::from_secs(90));
}

#[test]
fn a_server_is_brought_up_with_defaults_filled_in() {
    let auth = ServerAuth::OAuth2Credentials {
        user: "u".to_string(),
        access_token: "t".to_string(),
    };
    let core_server = server_config(login(PasswordSource::Plain("x".to_string())));
    let brought: Server = server(&core_server, auth.clone());
    assert_eq!(brought.server_name, "primary");
    assert_eq!(brought.host, "imap.example.com");
    assert_eq!(brought.port, 993);
    assert_eq!(brought.tls_mode, imap_tls::TlsMode::Implicit);
    assert_eq!(brought.tls_server_name, "imap.example.com");
    assert!(matches!(brought.auth, ServerAuth::OAuth2Credentials { .. }));

    let mut core_server = core_server;
    core_server.tls.mode = TlsMode::StartTls;
    assert_eq!(server(&core_server, auth.clone()).port, 143);
    core_server.port = Some(1143);
    core_server.tls.server_name = Some("mail.example.com".to_string());
    let brought = server(&core_server, auth);
    assert_eq!(brought.port, 1143);
    assert_eq!(brought.tls_mode, imap_tls::TlsMode::StartTls);
    assert_eq!(brought.tls_server_name, "mail.example.com");
}

#[test]
fn a_password_is_plain_or_in_the_keyring() {
    let credentials = LoginCredentials {
        username: "user@example.com".to_string(),
        password: PasswordSource::Plain("secret".to_string()),
    };
    assert!(matches!(resolve_password(&credentials), PasswordPlan::Plain(p) if p == "secret"));
    let credentials = LoginCredentials {
        username: "user@example.com".to_string(),
        password: PasswordSource::Keyring {
            keyring: KeyringRef {
                service: None,
                account: Some("other".to_string()),
            },
        },
    };
    assert!(matches!(
        resolve_password(&credentials),
        PasswordPlan::Keyring { service, account } if service == "mail-notifier" && account == "other"
    ));
}

#[test]
fn the_first_client_of_a_name_is_found() {
    let clients = vec![
        ("a".to_string(), client("1")),
        ("b".to_string(), client("2")),
        ("a".to_string(), client("3")),
    ];
    assert_eq!(
        find_oauth2_client(&clients, &"a".to_string()).map(|c| c.client_id.as_str()),
        Some("1")
    );
    assert_eq!(
        find_oauth2_client(&clients, &"b".to_string()).map(|c| c.client_id.as_str()),
        Some("2")
    );
    assert!(find_oauth2_client(&clients, &"c".to_string()).is_none());
    assert!(find_oauth2_client(&vec![], &"a".to_string()).is_none());
}

#[test]
fn a_session_needs_its_client_to_be_configured() {
    let session = Auth::OAuth2Session(OAuth2Session {
        user: "user@example.com".to_string(),
        oauth2_client: "google".to_string(),
        keyring: KeyringRef {
            service: Some("tokens".to_string()),
            account: None,
        },
        expiration_immenance_tolerance_secs: None,
    });
    let none: Vec<(String, OAuth2ClientConfig)> = vec![];
    let refused = server_auth::<String, String>(&session, &none);
    assert!(matches!(
        refused,
        Err(ServerAuthError::OAuth2ClientNotFound { name }) if name == "google"
    ));
    let clients = vec![("google".to_string(), client("id"))];
    match server_auth::<String, String>(&session, &clients) {
        Ok(AuthPlan::OAuth2Session {
            user,
            client_name,
            client,
            service,
            account,
            expiration_tolerance_secs,
        }) => {
            assert_eq!(user, "user@example.com");
            assert_eq!(client_name, "google");
            assert_eq!(client.client_id, "id");
            assert_eq!(service.as_deref(), Some("tokens"));
            assert_eq!(account, "user@example.com");
            assert_eq!(expiration_tolerance_secs, 3600);
        }
        other => panic!("unexpected plan: {other:?}"),
    }
}

#[test]
fn logins_and_static_tokens_need_no_client() {
    let none: Vec<(String, OAuth2ClientConfig)> = vec![];
    let plan = server_auth::<String, String>(
        &login(PasswordSource::Plain("secret".to_string())),
        &none,
    );
    assert!(matches!(
        plan,
        Ok(AuthPlan::Login { username, password: PasswordPlan::Plain(p) })
            if username == "user@example.com" && p == "secret"
    ));
    let token = Auth::OAuth2Credentials(OAuth2Credentials {
        user: "u".to_string(),
        access_token: "t".to_string(),
    });
    assert!(matches!(
        server_auth::<String, String>(&token, &none),
        Ok(AuthPlan::OAuth2Credentials { user, access_token }) if user == "u" && access_token == "t"
    ));
}

#[test]
fn all_mailboxes_of_a_server_share_it() {
    let mut core_server = server_config(login(PasswordSource::Plain("x".to_string())));
    core_server.idle_timeout_secs = Some(100);
    core_server.mailboxes = vec![
        MailboxConfig {
            name: "INBOX".to_string(),
            idle_timeout_secs: None,
        },
        MailboxConfig {
            name: "\u{e9}".to_string(),
            idle_timeout_secs: Some(7),
        },
    ];
    let resolved = Arc::new(server(
        &core_server,
        ServerAuth::Login {
            username: "u".to_string(),
            password: "p".to_string(),
        },
    ));
    let mailboxes = mail_notifier::config_bringup::server_mailboxes(resolved.clone(), &core_server);
    assert_eq!(mailboxes.len(), 2);
    assert!(mailboxes.iter().all(|m| Arc::ptr_eq(&m.server, &resolved)));
    assert_eq!(mailboxes[0].mailbox.as_str(), "INBOX");
    assert_eq!(mailboxes[0].idle_timeout, Duration::from_secs(100));
    assert_eq!(mailboxes[1].mailbox.as_str(), "&AOk-");
    assert_eq!(mailboxes[1].idle_timeout, Duration::from_secs(7));
}

#[test]
fn a_workload_is_set_up_from_its_mailbox() {
    let core_server = server_config(login(PasswordSource::Plain("x".to_string())));
    let core_mailbox = MailboxConfig {
        name: "Sent & Drafts".to_string(),
        idle_timeout_secs: Some(42),
    };
    let resolved = Arc::new(server(
        &core_server,
        ServerAuth::OAuth2Credentials {
            user: "u".to_string(),
            access_token: "t".to_string(),
        },
    ));
    let brought = mailbox(resolved, &core_server, &core_mailbox);
    let params = mail_notifier::monitoring_workload_imap::setup(&brought);
    assert_eq!(params.session.host, "imap.example.com");
    assert_eq!(params.session.port, 993);
    assert_eq!(params.session.tls_mode, imap_tls::TlsMode::Implicit);
    assert_eq!(params.session.tls_server_name, "imap.example.com");
    assert!(matches!(
        params.session.auth,
        mail_notifier::imap_session::Params::OAuth2 { user: "u", access_token: "t" }
    ));
    assert_eq!(params.mailbox.as_str(), "Sent &- Drafts");
    assert_eq!(params.idle_timeout, Duration::from_secs(42));
}

#[test]
fn a_monitor_config_is_brought_up_from_server_and_mailbox() {
    let mut core_server = server_config(login(PasswordSource::Plain("x".to_string())));
    core_server.tls.mode = TlsMode::StartTls;
    let core_mailbox = MailboxConfig {
        name: "\u{65e5}\u{672c}\u{8a9e}".to_string(),
        idle_timeout_secs: None,
    };
    let auth: mail_notifier::imap_monitor::Auth<u8> = mail_notifier::imap_monitor::Auth::Login {
        username: "u".to_string(),
        password: "p".to_string(),
    };
    let config =
        mail_notifier::config_bringup::bringup_monitor_config(&core_server, &core_mailbox, auth);
    assert_eq!(config.server_name, "primary");
    assert_eq!(config.host, "imap.example.com");
    assert_eq!(config.port, 143);
    assert_eq!(config.tls_mode, imap_tls::TlsMode::StartTls);
    assert_eq!(config.tls_server_name, "imap.example.com");
    assert!(matches!(
        config.auth,
        mail_notifier::imap_monitor::Auth::Login { ref username, ref password }
            if username == "u" && password == "p"
    ));
    assert_eq!(config.mailbox.as_str(), "&ZeVnLIqe-");
    assert_eq!(config.idle_timeout, Duration::from_secs(300));

    let session: mail_notifier::imap_monitor::Auth<u8> =
        mail_notifier::imap_monitor::Auth::OAuth2Session {
            user: "u".to_string(),
            access_token_provider: 9,
        };
    let brought = mail_notifier::config_bringup::bringup_server_config(&core_server, session);
    assert_eq!(brought.port, 143);
    assert!(matches!(
        brought.auth,
        mail_notifier::imap_monitor::Auth::OAuth2Session { access_token_provider: 9, .. }
    ));
}

#[test]
fn a_server_is_selected_by_its_name_if_it_is_the_only_one() {
    use_select_server();
}

fn use_select_server() {
    let named = |name: &str| {
        let mut server = server_config(login(PasswordSource::Plain("x".to_string())));
        server.name = name.to_string();
        server
    };
    let config = Config {
        servers: vec![named("a"), named("b"), named("a"), named("c")],
        oauth2_clients: vec![],
    };
    let select = |name: &str| mail_notifier::config_bringup::select_server(&config, &name.to_string());
    assert_eq!(select("b").map(|s| s.name.as_str()), Ok("b"));
    assert_eq!(select("c").map(|s| s.name.as_str()), Ok("c"));
    assert_eq!(
        select("a").unwrap_err(),
        mail_notifier::config_bringup::SelectServerError::Ambiguous
    );
    assert_eq!(
        select("d").unwrap_err(),
        mail_notifier::config_bringup::SelectServerError::NotFound
    );
}

#[test]
fn only_keyring_logins_have_a_keyring_entry() {
    let keyring = PasswordSource::Keyring {
        keyring: KeyringRef {
            service: None,
            account: Some("acc".to_string()),
        },
    };
    let with_keyring = server_config(login(keyring));
    let entry = mail_notifier::config_bringup::keyring_entry(&with_keyring, "svc").unwrap();
    assert_eq!(entry.service, "svc");
    assert_eq!(entry.account, "acc");
    let plain = server_config(login(PasswordSource::Plain("x".to_string())));
    assert!(mail_notifier::config_bringup::keyring_entry(&plain, "svc").is_none());
    let token = server_config(Auth::OAuth2Credentials(OAuth2Credentials {
        user: "u".to_string(),
        access_token: "t".to_string(),
    }));
    assert!(mail_notifier::config_bringup::keyring_entry(&token, "svc").is_none());
}

#[test]
fn a_typed_password_loses_the_line_breaks_at_its_end() {
    let typed = mail_notifier::config_bringup::typed_password;
    assert_eq!(typed("secret\n").as_deref(), Some("secret"));
    assert_eq!(typed("secret\r\n\n\r").as_deref(), Some("secret"));
    assert_eq!(typed("secret").as_deref(), Some("secret"));
    assert_eq!(typed("se\ncret \n").as_deref(), Some("se\ncret "));
    assert_eq!(typed("p\u{e4}ss\u{1f600}\n").as_deref(), Some("p\u{e4}ss\u{1f600}"));
    assert_eq!(typed(""), None);
    assert_eq!(typed("\n"), None);
    assert_eq!(typed("\r\n\r\n"), None);
}
