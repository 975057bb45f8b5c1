use warehouse::auth::login::{accepted_token, login_base_url, me_url, session_after_check, token_url, SessionStart, TokenCheck};
use warehouse::models::user::{LoginPayload, LoginResponse};

#[test]
fn login_base_url_uses_the_form_or_the_configuration() {
    assert_eq!(login_base_url("", "https://conf"), "https://conf");
    assert_eq!(login_base_url("https://other//", "https://conf"), "https://other");
    assert_eq!(login_base_url("https://other", "https://conf"), "https://other");
    let once = login_base_url("https://x/", "c");
    assert_eq!(login_base_url(&once, "c"), once);
}

#[test]
fn token_endpoints() {
    assert_eq!(token_url("https://h"), "https://h/user/token");
    assert_eq!(me_url("https://h"), "https://h/user/me");
}

#[test]
fn a_login_is_accepted_exactly_when_a_token_comes_back() {
    let ok = LoginResponse { access_token: Some("tok".to_string()), message: None };
    let no = LoginResponse { access_token: None, message: Some("bad credentials".to_string()) };
    assert_eq!(accepted_token(&ok), Some("tok".to_string()));
    assert_eq!(accepted_token(&no), None);
    let p = LoginPayload::new("ana", "secret");
    assert_eq!((p.username.as_str(), p.password.as_str()), ("ana", "secret"));
}

#[test]
fn start_up_session_follows_the_token_check() {
    assert!(matches!(session_after_check("old".into(), TokenCheck::Accepted(Some("new".into()))),
        SessionStart::Online(t) if t == "new"));
    assert!(matches!(session_after_check("old".into(), TokenCheck::Accepted(None)),
        SessionStart::Online(t) if t == "old"));
    assert!(matches!(session_after_check("old".into(), TokenCheck::Unreachable),
        SessionStart::Offline(t) if t == "old"));
    assert!(matches!(session_after_check("old".into(), TokenCheck::Refused), SessionStart::SignedOut));
}
