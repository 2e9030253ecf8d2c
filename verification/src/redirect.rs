//! Reading the OAuth redirect that the browser sends back to the local listener.
use vstd::prelude::*;
use url::Url;
use crate::text::{is_ws, lemma_tokens_leading_ws, lemma_tokens_word, token_at, tokens};

verus! {

/// `url::Url`, held opaque.
#[verifier::external_type_specification]
#[verifier::external_body]
pub struct ExUrl(Url);

/// `url::ParseError`, held opaque.
#[verifier::external_type_specification]
#[verifier::external_body]
pub struct ExUrlParseError(url::ParseError);

/// Whether `url::Url::parse` accepts `input` as an absolute URL.
pub uninterp spec fn url_parses(input: Seq<char>) -> bool;

/// The decoded name/value pairs of the query of the URL that `url::Url::parse`
/// reads from `input`, in order, as `Url::query_pairs` yields them.
pub uninterp spec fn url_query_pairs(input: Seq<char>) -> Seq<(Seq<char>, Seq<char>)>;

/// A parsed URL, with the text it was parsed from.
pub struct ParsedUrl {
    url: Url,
    text: Ghost<Seq<char>>,
}

impl View for ParsedUrl {
    type V = Seq<char>;

    /// The text the URL was parsed from.
    closed spec fn view(&self) -> Seq<char> {
        self.text@
    }
}

/// Calls `url::Url::parse`.  Claims that it succeeds exactly when `url_parses`
/// holds of the input, and keeps the input beside the result; what the parsed
/// URL holds is left to `url_query_pairs`.
#[verifier::external_body]
pub(crate) fn parse_url(input: &str) -> (r: Result<ParsedUrl, url::ParseError>)
    ensures
        r is Ok <==> url_parses(input@),
        r matches Ok(u) ==> u@ == input@,
{
    match Url::parse(input) {
        Ok(url) => Ok(ParsedUrl { url, text: Ghost(input@) }),
        Err(e) => Err(e),
    }
}

/// The character contents of name/value pairs.
pub open spec fn pair_views(v: Seq<(String, String)>) -> Seq<(Seq<char>, Seq<char>)> {
    v.map_values(|p: (String, String)| (p.0@, p.1@))
}

/// Calls `Url::query_pairs` and takes each decoded pair as two owned strings.
/// Claims that the pairs are those `url_query_pairs` names for the URL's text.
#[verifier::external_body]
pub(crate) fn query_pairs(u: &ParsedUrl) -> (r: Vec<(String, String)>)
    ensures
        pair_views(r@) == url_query_pairs(u@),
{
    u.url.query_pairs().into_owned().collect()
}

/// The first line of `s`: everything before the first line feed.  (`str::lines`
/// also drops a carriage return before the line feed; the words of the line are
/// the same either way, since a carriage return is whitespace.)
pub open spec fn first_line(s: Seq<char>) -> Seq<char>
    decreases s.len(),
{
    if s.len() == 0 || s[0] == '\n' {
        seq![]
    } else {
        seq![s[0]] + first_line(s.drop_first())
    }
}

/// The request target of an HTTP request: the second word of its first line,
/// or `/?` when there is none.
pub open spec fn spec_request_target(request: Seq<char>) -> Seq<char> {
    let words = tokens(first_line(request));
    if words.len() >= 2 {
        words[1]
    } else {
        "/?"@
    }
}

proof fn lemma_first_line_prefix(a: Seq<char>, b: Seq<char>)
    requires
        forall|i: int| 0 <= i < a.len() ==> #[trigger] a[i] != '\n',
    ensures
        first_line(a + b) == a + first_line(b),
    decreases a.len(),
{
    if a.len() > 0 {
        assert((a + b).drop_first() =~= a.drop_first() + b);
        assert forall|i: int| 0 <= i < a.drop_first().len() implies #[trigger] a.drop_first()[i] != '\n' by {
            assert(a.drop_first()[i] == a[i + 1]);
        }
        lemma_first_line_prefix(a.drop_first(), b);
        assert((a + b)[0] == a[0]);
        assert(seq![a[0]] + (a.drop_first() + first_line(b)) =~= a + first_line(b));
    } else {
        assert(a + b =~= b);
        assert(a + first_line(b) =~= first_line(b));
    }
}

/// The redirect target is the second word of the request line: for a request
/// that starts with a method word, one space and a target word (neither with
/// whitespace), followed by whitespace, a line end or nothing, the target is
/// that word, read as a URL on `http://localhost`.
pub proof fn lemma_request_target(method: Seq<char>, target: Seq<char>, rest: Seq<char>)
    requires
        method.len() > 0,
        target.len() > 0,
        forall|i: int| 0 <= i < method.len() ==> !is_ws(#[trigger] method[i]),
        forall|i: int| 0 <= i < target.len() ==> !is_ws(#[trigger] target[i]),
        rest.len() == 0 || is_ws(rest[0]),
    ensures
        spec_request_target(method + seq![' '] + target + rest) == target,
        spec_redirect_url(method + seq![' '] + target + rest) == "http://localhost"@ + target,
{
    assert forall|i: int| 0 <= i < method.len() implies #[trigger] method[i] != '\n' by {
        assert(!is_ws(method[i]));
    }
    assert forall|i: int| 0 <= i < target.len() implies #[trigger] target[i] != '\n' by {
        assert(!is_ws(target[i]));
    }
    let head = method + seq![' '] + target;
    assert forall|i: int| 0 <= i < head.len() implies #[trigger] head[i] != '\n' by {
        if i < method.len() {
            assert(head[i] == method[i]);
        } else if i > method.len() {
            assert(head[i] == target[i - method.len() - 1]);
        }
    }
    lemma_first_line_prefix(head, rest);
    let fl = first_line(rest);
    assert(fl.len() == 0 || is_ws(fl[0]));
    assert(head + fl =~= method + (seq![' '] + (target + fl)));
    lemma_tokens_word(method, seq![' '] + (target + fl));
    lemma_tokens_leading_ws(' ', target + fl);
    lemma_tokens_word(target, fl);
    let words = tokens(head + fl);
    assert(words == seq![method] + (seq![target] + tokens(fl)));
    assert(words[1] == target);
}

fn first_line_of(s: &str) -> (r: &str)
    ensures
        r@ == first_line(s@),
{
    let v = crate::text::chars_of(s);
    let mut i: usize = 0;
    assert(v@.skip(0) =~= v@);
    assert(v@.take(0) + first_line(v@) =~= first_line(v@));
    while i < v.len() && v[i] != '\n'
        invariant
            i <= v.len(),
            v@ == s@,
            first_line(s@) == v@.take(i as int) + first_line(v@.skip(i as int)),
        decreases v.len() - i,
    {
        assert(v@.skip(i as int).drop_first() =~= v@.skip(i + 1));
        assert(v@.take(i + 1) =~= v@.take(i as int) + seq![v@[i as int]]);
        assert(first_line(v@.skip(i as int)) == seq![v@[i as int]] + first_line(v@.skip(i + 1)));
        i = i + 1;
    }
    assert(first_line(v@.skip(i as int)) =~= seq![]);
    assert(v@.take(i as int) + seq![] =~= v@.subrange(0, i as int));
    s.substring_char(0, i)
}

/// The request target of the HTTP request the browser sent.
pub fn request_target(request: &str) -> (r: String)
    ensures
        r@ == spec_request_target(request@),
{
    let line = first_line_of(request);
    match token_at(line, 1) {
        Some(t) => t,
        None => String::from_str("/?"),
    }
}

/// The URL whose query holds the redirect parameters.
pub open spec fn spec_redirect_url(request: Seq<char>) -> Seq<char> {
    "http://localhost"@ + spec_request_target(request)
}

/// What the redirect parameters say, before the state is checked.
pub enum RedirectScan {
    /// An `error` parameter with this value came before the end of the query.
    Denied(Seq<char>),
    /// The query ended; the last `code` and the last `state` seen, if any.
    Found(Option<Seq<char>>, Option<Seq<char>>),
}

/// Reads the pairs in order: `code` and `state` are remembered (the last one
/// wins), `error` stops the reading, any other name is ignored.
pub open spec fn scan_redirect(
    pairs: Seq<(Seq<char>, Seq<char>)>,
    code: Option<Seq<char>>,
    state: Option<Seq<char>>,
) -> RedirectScan
    decreases pairs.len(),
{
    if pairs.len() == 0 {
        RedirectScan::Found(code, state)
    } else {
        let (k, v) = pairs[0];
        if k == "code"@ {
            scan_redirect(pairs.drop_first(), Some(v), state)
        } else if k == "state"@ {
            scan_redirect(pairs.drop_first(), code, Some(v))
        } else if k == "error"@ {
            RedirectScan::Denied(v)
        } else {
            scan_redirect(pairs.drop_first(), code, state)
        }
    }
}

/// How a redirect is judged against the CSRF secret of the authorization request.
pub enum RedirectVerdict {
    /// Exchange this authorization code.
    Code(Seq<char>),
    /// The provider reported this error.
    Denied(Seq<char>),
    /// No authorization code came back.
    NoCode,
    /// The state (empty when absent) is not the CSRF secret.
    Mismatch,
}

/// The verdict on redirect parameters `pairs` for the secret `csrf`.
pub open spec fn redirect_verdict(pairs: Seq<(Seq<char>, Seq<char>)>, csrf: Seq<char>) -> RedirectVerdict {
    match scan_redirect(pairs, None, None) {
        RedirectScan::Denied(v) => RedirectVerdict::Denied(v),
        RedirectScan::Found(None, _) => RedirectVerdict::NoCode,
        RedirectScan::Found(Some(c), state) => {
            let s = match state {
                Some(s) => s,
                None => seq![],
            };
            if s == csrf {
                RedirectVerdict::Code(c)
            } else {
                RedirectVerdict::Mismatch
            }
        },
    }
}

/// The character contents of an optional string.
pub open spec fn opt_view(o: Option<String>) -> Option<Seq<char>> {
    match o {
        Some(s) => Some(s@),
        None => None,
    }
}

/// The value of the first `error` parameter, if any.
pub open spec fn first_error(pairs: Seq<(Seq<char>, Seq<char>)>) -> Option<Seq<char>>
    decreases pairs.len(),
{
    if pairs.len() == 0 {
        None
    } else if pairs[0].0 == "error"@ {
        Some(pairs[0].1)
    } else {
        first_error(pairs.drop_first())
    }
}

proof fn lemma_scan_error(
    pairs: Seq<(Seq<char>, Seq<char>)>,
    code: Option<Seq<char>>,
    state: Option<Seq<char>>,
)
    ensures
        first_error(pairs) matches Some(v) ==> scan_redirect(pairs, code, state) == RedirectScan::Denied(v),
        first_error(pairs) is None ==> scan_redirect(pairs, code, state) is Found,
    decreases pairs.len(),
{
    reveal_strlit("error");
    reveal_strlit("code");
    reveal_strlit("state");
    assert("error"@.len() != "code"@.len());
    assert("error"@[0] != "state"@[0]);
    if pairs.len() > 0 {
        let (k, v) = pairs[0];
        if k == "code"@ {
            lemma_scan_error(pairs.drop_first(), Some(v), state);
        } else if k == "state"@ {
            lemma_scan_error(pairs.drop_first(), code, Some(v));
        } else if k != "error"@ {
            lemma_scan_error(pairs.drop_first(), code, state);
        }
    }
}

/// An `error` parameter anywhere in the redirect refuses the sign-in with the
/// value of the first one, whatever code and state come with it; without one
/// the sign-in is never refused as denied.
pub proof fn lemma_error_parameter_denies(pairs: Seq<(Seq<char>, Seq<char>)>, csrf: Seq<char>)
    ensures
        first_error(pairs) matches Some(v) ==> redirect_verdict(pairs, csrf) == RedirectVerdict::Denied(v),
        first_error(pairs) is None ==> !(redirect_verdict(pairs, csrf) is Denied),
{
    lemma_scan_error(pairs, None, None);
}

/// The value of the last pair named `key` is `v`: such a pair exists and no
/// pair named `key` follows it.
pub open spec fn last_is(pairs: Seq<(Seq<char>, Seq<char>)>, key: Seq<char>, v: Seq<char>) -> bool {
    exists|i: int|
        0 <= i < pairs.len() && #[trigger] pairs[i] == (key, v) && forall|j: int|
            i < j < pairs.len() ==> (#[trigger] pairs[j]).0 != key
}

/// No pair is named `key`.
pub open spec fn absent(pairs: Seq<(Seq<char>, Seq<char>)>, key: Seq<char>) -> bool {
    forall|i: int| 0 <= i < pairs.len() ==> (#[trigger] pairs[i]).0 != key
}

proof fn lemma_last_is_shift(pairs: Seq<(Seq<char>, Seq<char>)>, key: Seq<char>, v: Seq<char>)
    requires
        pairs.len() > 0,
        last_is(pairs.drop_first(), key, v),
    ensures
        last_is(pairs, key, v),
{
    let rest = pairs.drop_first();
    let i = choose|i: int|
        0 <= i < rest.len() && #[trigger] rest[i] == (key, v) && forall|j: int|
            i < j < rest.len() ==> (#[trigger] rest[j]).0 != key;
    assert(pairs[i + 1] == rest[i]);
    assert forall|j: int| i + 1 < j < pairs.len() implies (#[trigger] pairs[j]).0 != key by {
        assert(pairs[j] == rest[j - 1]);
    }
}

proof fn lemma_absent_shift(pairs: Seq<(Seq<char>, Seq<char>)>, key: Seq<char>)
    requires
        pairs.len() > 0,
        absent(pairs.drop_first(), key),
    ensures
        pairs[0].0 != key ==> absent(pairs, key),
        pairs[0].0 == key ==> last_is(pairs, key, pairs[0].1),
{
    assert forall|j: int| 0 < j < pairs.len() implies (#[trigger] pairs[j]).0 != key by {
        assert(pairs[j] == pairs.drop_first()[j - 1]);
    }
}

proof fn lemma_scan_found(
    pairs: Seq<(Seq<char>, Seq<char>)>,
    code: Option<Seq<char>>,
    state: Option<Seq<char>>,
)
    ensures
        scan_redirect(pairs, code, state) matches RedirectScan::Found(c, st) ==> {
            &&& ((c is Some && last_is(pairs, "code"@, c->0)) || (c == code && absent(pairs, "code"@)))
            &&& ((st is Some && last_is(pairs, "state"@, st->0)) || (st == state && absent(pairs, "state"@)))
        },
    decreases pairs.len(),
{
    reveal_strlit("code");
    reveal_strlit("state");
    reveal_strlit("error");
    assert("code"@.len() != "state"@.len());
    assert("error"@.len() != "code"@.len());
    assert("error"@[0] != "state"@[0]);
    if pairs.len() > 0 && pairs[0].0 != "error"@ {
        let (k, v) = pairs[0];
        let rest = pairs.drop_first();
        let code2 = if k == "code"@ { Some(v) } else { code };
        let state2 = if k == "state"@ { Some(v) } else { state };
        assert(scan_redirect(pairs, code, state) == scan_redirect(rest, code2, state2));
        lemma_scan_found(rest, code2, state2);
        if let RedirectScan::Found(c, st) = scan_redirect(rest, code2, state2) {
            if c is Some && last_is(rest, "code"@, c->0) {
                lemma_last_is_shift(pairs, "code"@, c->0);
            } else {
                lemma_absent_shift(pairs, "code"@);
            }
            if st is Some && last_is(rest, "state"@, st->0) {
                lemma_last_is_shift(pairs, "state"@, st->0);
            } else {
                lemma_absent_shift(pairs, "state"@);
            }
        }
    } else if pairs.len() == 0 {
        assert(absent(pairs, "code"@));
        assert(absent(pairs, "state"@));
    }
}

/// Only the last `code` and the last `state` of the redirect count: a code is
/// taken only when it is the value of the last `code` parameter and the value
/// of the last `state` parameter is the secret (or, for an empty secret, no
/// `state` came); the state is found wrong when the last `state` differs from
/// the secret (or none came for a non-empty secret); no code is reported
/// missing while a `code` parameter is present.
pub proof fn lemma_code_needs_state(pairs: Seq<(Seq<char>, Seq<char>)>, csrf: Seq<char>)
    ensures
        redirect_verdict(pairs, csrf) matches RedirectVerdict::Code(c) ==> last_is(pairs, "code"@, c),
        redirect_verdict(pairs, csrf) is Code ==> (last_is(pairs, "state"@, csrf) || (csrf.len() == 0 && absent(
            pairs,
            "state"@,
        ))),
        redirect_verdict(pairs, csrf) is Mismatch ==> !last_is(pairs, "state"@, csrf) && (csrf.len() > 0 || !absent(
            pairs,
            "state"@,
        )),
        redirect_verdict(pairs, csrf) is NoCode ==> absent(pairs, "code"@),
{
    lemma_scan_found(pairs, None, None);
    if redirect_verdict(pairs, csrf) is Mismatch {
        if let RedirectScan::Found(c, st) = scan_redirect(pairs, None, None) {
            if csrf.len() == 0 && absent(pairs, "state"@) {
                if st is Some && last_is(pairs, "state"@, st->0) {
                    let i = choose|i: int|
                        0 <= i < pairs.len() && #[trigger] pairs[i] == ("state"@, st->0) && forall|j: int|
                            i < j < pairs.len() ==> (#[trigger] pairs[j]).0 != "state"@;
                    assert(pairs[i].0 == "state"@);
                }
                assert(csrf =~= Seq::<char>::empty());
            }
            if last_is(pairs, "state"@, csrf) {
                if st is Some && last_is(pairs, "state"@, st->0) {
                    let i = choose|i: int|
                        0 <= i < pairs.len() && #[trigger] pairs[i] == ("state"@, csrf) && forall|j: int|
                            i < j < pairs.len() ==> (#[trigger] pairs[j]).0 != "state"@;
                    let i2 = choose|i: int|
                        0 <= i < pairs.len() && #[trigger] pairs[i] == ("state"@, st->0) && forall|j: int|
                            i < j < pairs.len() ==> (#[trigger] pairs[j]).0 != "state"@;
                    if i < i2 {
                        assert(pairs[i2].0 == "state"@);
                    } else if i2 < i {
                        assert(pairs[i].0 == "state"@);
                    }
                } else {
                    let i = choose|i: int|
                        0 <= i < pairs.len() && #[trigger] pairs[i] == ("state"@, csrf) && forall|j: int|
                            i < j < pairs.len() ==> (#[trigger] pairs[j]).0 != "state"@;
                    assert(pairs[i].0 == "state"@);
                }
            }
        }
    }
}

} // verus!
