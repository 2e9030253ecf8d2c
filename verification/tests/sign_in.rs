use email_tool::auth::{
    auth_begin, auth_on_exchange, auth_on_profile, auth_on_redirect, auth_on_refresh,
    client_credentials, decide_redirect, redirect_code, AuthAction, AuthError,
};
use email_tool::model::CachedToken;
use email_tool::redirect::request_target;

fn token(access: &str, refresh: Option<&str>) -> CachedToken {
    CachedToken { access_token: access.to_string(), refresh_token: refresh.map(|s| s.to_string()) }
}

#[test]
fn request_target_is_second_word_of_first_line() {
    assert_eq!(request_target("GET /?code=a&state=b HTTP/1.1\r\nHost: x\r\n\r\n"), "/?code=a&state=b");
    assert_eq!(request_target("GET\r\n/?code=a HTTP/1.1"), "/?");
    assert_eq!(request_target(""), "/?");
    assert_eq!(request_target("\n"), "/?");
}

#[test]
fn redirect_with_matching_state_yields_code() {
    let r = redirect_code("GET /?code=4%2F0Ab&state=s3cret&scope=x HTTP/1.1\r\n\r\n", "s3cret");
    assert_eq!(r.unwrap(), "4/0Ab");
}

#[test]
fn redirect_decodes_plus_as_space() {
    let r = redirect_code("GET /?state=a+b&code=c+d HTTP/1.1", "a b");
    assert_eq!(r.unwrap(), "c d");
}

#[test]
fn redirect_with_wrong_state_is_refused() {
    let r = redirect_code("GET /?code=abc&state=other HTTP/1.1", "s3cret");
    assert!(matches!(r, Err(AuthError::CsrfMismatch)));
    assert_eq!(r.unwrap_err().message(), "CSRF token mismatch");
}

#[test]
fn redirect_without_state_checks_against_empty() {
    assert_eq!(redirect_code("GET /?code=abc HTTP/1.1", "").unwrap(), "abc");
    assert!(matches!(redirect_code("GET /?code=abc HTTP/1.1", "x"), Err(AuthError::CsrfMismatch)));
}

#[test]
fn redirect_without_code_is_refused() {
    let r = redirect_code("GET /?state=s HTTP/1.1", "s");
    assert!(matches!(r, Err(AuthError::MissingCode)));
    assert_eq!(r.unwrap_err().message(), "no code in redirect");
    assert!(matches!(redirect_code("", "s"), Err(AuthError::MissingCode)));
}

#[test]
fn redirect_error_parameter_wins() {
    let r = redirect_code("GET /?code=abc&state=s&error=access_denied HTTP/1.1", "s");
    match r {
        Err(AuthError::OAuthDenied(v)) => assert_eq!(v, "access_denied"),
        other => panic!("unexpected {other:?}"),
    }
    let e = AuthError::OAuthDenied("access_denied".to_string());
    assert_eq!(e.message(), "Google OAuth error: access_denied");
}

#[test]
fn redirect_with_unparsable_target_is_refused() {
    let r = redirect_code("GET :99999999 HTTP/1.1", "s");
    assert!(matches!(r, Err(AuthError::RedirectUrlInvalid)));
    assert_eq!(r.unwrap_err().message(), "failed to parse redirect URL");
}

#[test]
fn decide_redirect_keeps_the_last_code() {
    let pairs = vec![
        ("code".to_string(), "one".to_string()),
        ("state".to_string(), "s".to_string()),
        ("code".to_string(), "two".to_string()),
    ];
    assert_eq!(decide_redirect(&pairs, "s").unwrap(), "two");
}

#[test]
fn cached_token_is_checked_first() {
    match auth_begin(Some(token("acc", None))) {
        AuthAction::CheckProfile(t) => assert_eq!(t, "acc"),
        other => panic!("unexpected {other:?}"),
    }
    assert!(matches!(auth_begin(None), AuthAction::Authorize));
}

#[test]
fn working_cached_token_is_used() {
    match auth_on_profile(token("acc", Some("ref")), Ok(true)) {
        AuthAction::Finish(t) => assert_eq!(t, "acc"),
        other => panic!("unexpected {other:?}"),
    }
}

#[test]
fn stale_token_is_refreshed_or_reauthorized() {
    match auth_on_profile(token("acc", Some("ref")), Ok(false)) {
        AuthAction::Refresh(t) => assert_eq!(t, "ref"),
        other => panic!("unexpected {other:?}"),
    }
    assert!(matches!(auth_on_profile(token("acc", None), Ok(false)), AuthAction::Authorize));
}

#[test]
fn refreshed_token_keeps_its_refresh_token() {
    match auth_on_refresh("ref".to_string(), Some("new".to_string())) {
        AuthAction::SaveAndFinish(t) => {
            assert_eq!(t.access_token, "new");
            assert_eq!(t.refresh_token.as_deref(), Some("ref"));
        },
        other => panic!("unexpected {other:?}"),
    }
    assert!(matches!(auth_on_refresh("ref".to_string(), None), AuthAction::Authorize));
}

#[test]
fn redirect_and_exchange_steps() {
    match auth_on_redirect("GET /?code=c&state=s HTTP/1.1", "s") {
        AuthAction::ExchangeCode(c) => assert_eq!(c, "c"),
        other => panic!("unexpected {other:?}"),
    }
    assert!(matches!(
        auth_on_redirect("GET /?code=c&state=t HTTP/1.1", "s"),
        AuthAction::Fail(AuthError::CsrfMismatch)
    ));
    match auth_on_exchange("a".to_string(), None) {
        AuthAction::SaveAndFinish(t) => {
            assert_eq!(t.access_token, "a");
            assert!(t.refresh_token.is_none());
        },
        other => panic!("unexpected {other:?}"),
    }
}

#[test]
fn credentials_need_both_variables() {
    let r = client_credentials(None, Some("s".to_string()));
    assert!(matches!(r, Err(AuthError::MissingClientId)));
    assert_eq!(r.unwrap_err().message(), "GMAIL_CLIENT_ID env var not set");
    let r = client_credentials(Some("i".to_string()), None);
    assert!(matches!(r, Err(AuthError::MissingClientSecret)));
    assert_eq!(r.unwrap_err().message(), "GMAIL_CLIENT_SECRET env var not set");
    assert_eq!(
        client_credentials(Some("i".to_string()), Some("s".to_string())).unwrap(),
        ("i".to_string(), "s".to_string())
    );
    assert_eq!(
        AuthError::TokenExchange("bad".to_string()).message(),
        "token exchange failed: bad"
    );
}

#[test]
fn sign_in_settings() {
    let s = email_tool::auth::oauth_settings();
    assert_eq!(s.auth_url, "https://accounts.google.com/o/oauth2/v2/auth");
    assert_eq!(s.token_url, "https://oauth2.googleapis.com/token");
    assert_eq!(s.redirect_url, "http://127.0.0.1:8080");
    assert_eq!(s.listen_addr, "127.0.0.1:8080");
    assert_eq!(s.scope, "https://www.googleapis.com/auth/gmail.modify");
    assert_eq!(
        s.extra_params,
        vec![("access_type".to_string(), "offline".to_string()), ("prompt".to_string(), "consent".to_string())]
    );
}

#[test]
fn refresh_answer_needs_an_access_token() {
    assert_eq!(email_tool::auth::refreshed_access_token(Some("new".to_string())).unwrap(), "new");
    let e = email_tool::auth::refreshed_access_token(None).unwrap_err();
    assert!(matches!(e, AuthError::NoAccessToken));
    assert_eq!(e.message(), "no access_token in refresh response");
}

#[test]
fn profile_check_that_cannot_be_made_ends_the_sign_in() {
    match auth_on_profile(token("acc", Some("ref")), Err("connection refused".to_string())) {
        AuthAction::Fail(e) => {
            assert!(matches!(e, AuthError::Transport(_)));
            assert_eq!(e.message(), "connection refused");
        },
        other => panic!("unexpected {other:?}"),
    }
}
