//! The decisions of the OAuth sign-in: when the cached token is used, when it is
//! refreshed, when the browser flow runs, and what the browser's redirect means.
//! Each step takes what the last action brought back and names the next action.
use vstd::prelude::*;
use crate::model::CachedToken;
use crate::redirect::{
    opt_view, pair_views, parse_url, query_pairs, redirect_verdict, request_target, scan_redirect,
    spec_redirect_url, url_parses, url_query_pairs, RedirectVerdict,
};
use crate::text::{str_concat, str_eq};

verus! {

/// Why signing in failed.
#[derive(Debug)]
pub enum AuthError {
    /// The provider redirected back with an `error` parameter.
    OAuthDenied(String),
    /// The redirect target does not make a URL.
    RedirectUrlInvalid,
    /// The redirect carried no authorization code.
    MissingCode,
    /// The redirect's state is not the secret of the authorization request.
    CsrfMismatch,
    /// `GMAIL_CLIENT_ID` is not set.
    MissingClientId,
    /// `GMAIL_CLIENT_SECRET` is not set.
    MissingClientSecret,
    /// The token endpoint refused the code; the reason it gave.
    TokenExchange(String),
    /// The answer to a refresh carried no access token.
    NoAccessToken,
    /// A request of the sign-in could not be made; the reason given.
    Transport(String),
}

/// The text of each sign-in error.
pub open spec fn auth_error_text(e: AuthError) -> Seq<char> {
    match e {
        AuthError::OAuthDenied(v) => "Google OAuth error: "@ + v@,
        AuthError::RedirectUrlInvalid => "failed to parse redirect URL"@,
        AuthError::MissingCode => "no code in redirect"@,
        AuthError::CsrfMismatch => "CSRF token mismatch"@,
        AuthError::MissingClientId => "GMAIL_CLIENT_ID env var not set"@,
        AuthError::MissingClientSecret => "GMAIL_CLIENT_SECRET env var not set"@,
        AuthError::TokenExchange(v) => "token exchange failed: "@ + v@,
        AuthError::NoAccessToken => "no access_token in refresh response"@,
        AuthError::Transport(v) => v@,
    }
}

impl AuthError {
    /// The text shown for this error.
    pub fn message(&self) -> (r: String)
        ensures
            r@ == auth_error_text(*self),
    {
        match self {
            AuthError::OAuthDenied(v) => str_concat("Google OAuth error: ", v.as_str()),
            AuthError::RedirectUrlInvalid => String::from_str("failed to parse redirect URL"),
            AuthError::MissingCode => String::from_str("no code in redirect"),
            AuthError::CsrfMismatch => String::from_str("CSRF token mismatch"),
            AuthError::MissingClientId => String::from_str("GMAIL_CLIENT_ID env var not set"),
            AuthError::MissingClientSecret => String::from_str("GMAIL_CLIENT_SECRET env var not set"),
            AuthError::TokenExchange(v) => str_concat("token exchange failed: ", v.as_str()),
            AuthError::NoAccessToken => String::from_str("no access_token in refresh response"),
            AuthError::Transport(v) => v.clone(),
        }
    }
}

/// `r` is what the verdict `v` says the redirect comes to.
pub open spec fn verdict_result(r: Result<String, AuthError>, v: RedirectVerdict) -> bool {
    match v {
        RedirectVerdict::Code(c) => r matches Ok(s) && s@ == c,
        RedirectVerdict::Denied(e) => r matches Err(AuthError::OAuthDenied(s)) && s@ == e,
        RedirectVerdict::NoCode => r matches Err(AuthError::MissingCode),
        RedirectVerdict::Mismatch => r matches Err(AuthError::CsrfMismatch),
    }
}

/// Judges the redirect parameters against the CSRF secret.
pub fn decide_redirect(pairs: &Vec<(String, String)>, csrf: &str) -> (r: Result<String, AuthError>)
    ensures
        verdict_result(r, redirect_verdict(pair_views(pairs@), csrf@)),
{
    let ghost pv = pair_views(pairs@);
    let mut code: Option<String> = None;
    let mut state: Option<String> = None;
    let mut i: usize = 0;
    assert(pv.skip(0) =~= pv);
    while i < pairs.len()
        invariant
            pv == pair_views(pairs@),
            i <= pairs@.len(),
            scan_redirect(pv, None, None) == scan_redirect(pv.skip(i as int), opt_view(code), opt_view(state)),
        decreases pairs@.len() - i,
    {
        let k = &pairs[i].0;
        let v = &pairs[i].1;
        assert(pv.skip(i as int)[0] == (k@, v@));
        assert(pv.skip(i as int).drop_first() =~= pv.skip(i + 1));
        if str_eq(k.as_str(), "code") {
            code = Some(v.clone());
        } else if str_eq(k.as_str(), "state") {
            state = Some(v.clone());
        } else if str_eq(k.as_str(), "error") {
            return Err(AuthError::OAuthDenied(v.clone()));
        }
        i = i + 1;
    }
    assert(pv.skip(i as int) =~= Seq::<(Seq<char>, Seq<char>)>::empty());
    match code {
        None => Err(AuthError::MissingCode),
        Some(c) => {
            let s = match state {
                Some(s) => s,
                None => String::new(),
            };
            if str_eq(s.as_str(), csrf) {
                Ok(c)
            } else {
                Err(AuthError::CsrfMismatch)
            }
        },
    }
}

/// What the redirect request of the browser comes to: the authorization code, or
/// why there is none.
pub fn redirect_code(request: &str, csrf: &str) -> (r: Result<String, AuthError>)
    ensures
        !url_parses(spec_redirect_url(request@)) ==> r matches Err(AuthError::RedirectUrlInvalid),
        url_parses(spec_redirect_url(request@)) ==> verdict_result(
            r,
            redirect_verdict(url_query_pairs(spec_redirect_url(request@)), csrf@),
        ),
{
    let target = request_target(request);
    let url = str_concat("http://localhost", target.as_str());
    match parse_url(url.as_str()) {
        Err(_) => Err(AuthError::RedirectUrlInvalid),
        Ok(u) => {
            let pairs = query_pairs(&u);
            decide_redirect(&pairs, csrf)
        },
    }
}

/// The next thing the sign-in does.
#[derive(Debug)]
pub enum AuthAction {
    /// Ask the profile endpoint whether this access token still works.
    CheckProfile(String),
    /// Ask the token endpoint for a new access token with this refresh token.
    Refresh(String),
    /// Run the browser flow: listen, print the authorization URL, await the redirect.
    Authorize,
    /// Exchange this authorization code for tokens.
    ExchangeCode(String),
    /// Store this token (a failure to store is ignored) and sign in with its access token.
    SaveAndFinish(CachedToken),
    /// Sign in with this access token.
    Finish(String),
    /// Give up with this error.
    Fail(AuthError),
}

/// First step: a cached token is checked before anything else; without one the
/// browser flow runs.
pub fn auth_begin(cached: Option<CachedToken>) -> (a: AuthAction)
    ensures
        match cached {
            Some(t) => a matches AuthAction::CheckProfile(s) && s == t.access_token,
            None => a is Authorize,
        },
{
    match cached {
        Some(t) => AuthAction::CheckProfile(t.access_token),
        None => AuthAction::Authorize,
    }
}

/// After the profile check of the cached token (`Ok` with whether the token was
/// accepted, or `Err` with why the check could not be made): a working token is
/// used as it is; a rejected one is refreshed when there is a refresh token, and
/// the browser flow runs when there is none; a check that could not be made
/// ends the sign-in with its reason.
pub fn auth_on_profile(cached: CachedToken, check: Result<bool, String>) -> (a: AuthAction)
    ensures
        check == Ok::<bool, String>(true) ==> (a matches AuthAction::Finish(s) && s == cached.access_token),
        check == Ok::<bool, String>(false) ==> match cached.refresh_token {
            Some(rt) => a matches AuthAction::Refresh(s) && s == rt,
            None => a is Authorize,
        },
        check matches Err(e) ==> (a matches AuthAction::Fail(AuthError::Transport(v)) && v == e),
{
    match check {
        Err(e) => AuthAction::Fail(AuthError::Transport(e)),
        Ok(true) => AuthAction::Finish(cached.access_token),
        Ok(false) => match cached.refresh_token {
            Some(rt) => AuthAction::Refresh(rt),
            None => AuthAction::Authorize,
        },
    }
}

/// The new access token of a refresh answer, from its `access_token` field (the
/// field's text when it is a string, `None` otherwise).
pub fn refreshed_access_token(access_token: Option<String>) -> (r: Result<String, AuthError>)
    ensures
        match access_token {
            Some(t) => r == Ok::<String, AuthError>(t),
            None => r matches Err(AuthError::NoAccessToken),
        },
{
    match access_token {
        Some(t) => Ok(t),
        None => Err(AuthError::NoAccessToken),
    }
}

/// After a refresh attempt: a new access token is stored with the refresh token
/// that obtained it; any failure falls back to the browser flow.
pub fn auth_on_refresh(refresh_token: String, fresh: Option<String>) -> (a: AuthAction)
    ensures
        match fresh {
            Some(access) => a matches AuthAction::SaveAndFinish(t) && t.access_token == access
                && t.refresh_token == Some(refresh_token),
            None => a is Authorize,
        },
{
    match fresh {
        Some(access) => AuthAction::SaveAndFinish(
            CachedToken { access_token: access, refresh_token: Some(refresh_token) },
        ),
        None => AuthAction::Authorize,
    }
}

/// After the browser's redirect arrived: its code is exchanged, or the sign-in fails.
pub fn auth_on_redirect(request: &str, csrf: &str) -> (a: AuthAction)
    ensures
        !url_parses(spec_redirect_url(request@)) ==> a matches AuthAction::Fail(
            AuthError::RedirectUrlInvalid,
        ),
        url_parses(spec_redirect_url(request@)) ==> match redirect_verdict(
            url_query_pairs(spec_redirect_url(request@)),
            csrf@,
        ) {
            RedirectVerdict::Code(c) => a matches AuthAction::ExchangeCode(s) && s@ == c,
            RedirectVerdict::Denied(e) => a matches AuthAction::Fail(AuthError::OAuthDenied(s))
                && s@ == e,
            RedirectVerdict::NoCode => a matches AuthAction::Fail(AuthError::MissingCode),
            RedirectVerdict::Mismatch => a matches AuthAction::Fail(AuthError::CsrfMismatch),
        },
{
    match redirect_code(request, csrf) {
        Ok(code) => AuthAction::ExchangeCode(code),
        Err(e) => AuthAction::Fail(e),
    }
}

/// After the code exchange: the tokens are stored and the access token is used.
pub fn auth_on_exchange(access_token: String, refresh_token: Option<String>) -> (a: AuthAction)
    ensures
        a matches AuthAction::SaveAndFinish(t) && t.access_token == access_token && t.refresh_token
            == refresh_token,
{
    AuthAction::SaveAndFinish(CachedToken { access_token, refresh_token })
}

/// The OAuth client credentials, from the values of `GMAIL_CLIENT_ID` and
/// `GMAIL_CLIENT_SECRET`; the id is checked first.
pub fn client_credentials(client_id: Option<String>, client_secret: Option<String>) -> (r: Result<
    (String, String),
    AuthError,
>)
    ensures
        client_id is None ==> r matches Err(AuthError::MissingClientId),
        client_id is Some && client_secret is None ==> r matches Err(AuthError::MissingClientSecret),
        client_id is Some && client_secret is Some ==> r == Ok::<(String, String), AuthError>(
            (client_id->0, client_secret->0),
        ),
{
    match client_id {
        None => Err(AuthError::MissingClientId),
        Some(id) => match client_secret {
            None => Err(AuthError::MissingClientSecret),
            Some(secret) => Ok((id, secret)),
        },
    }
}

/// Where and how the browser sign-in asks for authorization.
#[derive(Debug)]
pub struct OAuthSettings {
    /// Google's authorization endpoint.
    pub auth_url: String,
    /// Google's token endpoint.
    pub token_url: String,
    /// Where the browser is sent back to; the server listens there.
    pub redirect_url: String,
    /// The address the server listens on for the redirect.
    pub listen_addr: String,
    /// The access asked for.
    pub scope: String,
    /// Further authorization parameters, in order.
    pub extra_params: Vec<(String, String)>,
}

/// The sign-in settings: offline access to read and modify the mailbox, with a
/// fresh consent prompt, redirected to the local listener.
pub fn oauth_settings() -> (r: OAuthSettings)
    ensures
        r.auth_url@ == "https://accounts.google.com/o/oauth2/v2/auth"@,
        r.token_url@ == "https://oauth2.googleapis.com/token"@,
        r.redirect_url@ == "http://127.0.0.1:8080"@,
        r.listen_addr@ == "127.0.0.1:8080"@,
        r.scope@ == "https://www.googleapis.com/auth/gmail.modify"@,
        pair_views(r.extra_params@) == seq![("access_type"@, "offline"@), ("prompt"@, "consent"@)],
{
    let mut extra: Vec<(String, String)> = Vec::new();
    extra.push((String::from_str("access_type"), String::from_str("offline")));
    extra.push((String::from_str("prompt"), String::from_str("consent")));
    assert(pair_views(extra@) =~= seq![("access_type"@, "offline"@), ("prompt"@, "consent"@)]);
    OAuthSettings {
        auth_url: String::from_str("https://accounts.google.com/o/oauth2/v2/auth"),
        token_url: String::from_str("https://oauth2.googleapis.com/token"),
        redirect_url: String::from_str("http://127.0.0.1:8080"),
        listen_addr: String::from_str("127.0.0.1:8080"),
        scope: String::from_str("https://www.googleapis.com/auth/gmail.modify"),
        extra_params: extra,
    }
}

} // verus!
