use mail_notifier::imap_monitor::{auth_with_token, choose_auth, Auth, AuthChoice};
use mail_notifier::imap_session::{oauth2_response, Params};
use mail_notifier::oauth2_session::{needs_refresh, Expiry};
use std::time::Duration;

#[test]
fn the_bearer_response_frames_user_and_token() {
    assert_eq!(
        oauth2_response("user@example.com", "abc"),
        "user=user@example.com\x01auth=Bearer abc\x01\x01"
    );
    assert_eq!(oauth2_response("", ""), "user=\x01auth=Bearer \x01\x01");
}

#[test]
fn configured_credentials_are_ready_and_sessions_need_a_token() {
    let auth: Auth<()> = Auth::Login {
        username: "u".to_string(),
        password: "p".to_string(),
    };
    assert!(matches!(
        choose_auth(&auth),
        AuthChoice::Ready(Params::Login { username: "u", password: "p" })
    ));
    let auth: Auth<()> = Auth::OAuth2Credentials {
        user: "u".to_string(),
        access_token: "t".to_string(),
    };
    assert!(matches!(
        choose_auth(&auth),
        AuthChoice::Ready(Params::OAuth2 { user: "u", access_token: "t" })
    ));
    let auth = Auth::OAuth2Session {
        user: "u".to_string(),
        access_token_provider: 5u8,
    };
    assert!(matches!(
        choose_auth(&auth),
        AuthChoice::TokenNeeded { user: "u", provider: &5u8 }
    ));
    assert!(matches!(
        auth_with_token("u", "fresh"),
        Params::OAuth2 { user: "u", access_token: "fresh" }
    ));
}

#[test]
fn a_token_is_refreshed_when_less_than_the_tolerance_is_left() {
    let hour = Duration::from_secs(3600);
    assert!(!needs_refresh(Expiry::Unknown, hour));
    assert!(needs_refresh(Expiry::Passed, hour));
    assert!(needs_refresh(Expiry::Passed, Duration::ZERO));
    assert!(needs_refresh(Expiry::In(Duration::ZERO), hour));
    assert!(needs_refresh(Expiry::In(Duration::from_secs(3599)), hour));
    assert!(!needs_refresh(Expiry::In(hour), hour));
    assert!(!needs_refresh(Expiry::In(Duration::from_secs(7200)), hour));
    assert!(!needs_refresh(Expiry::In(Duration::ZERO), Duration::ZERO));
}
