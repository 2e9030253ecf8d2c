//! The Gmail REST calls the server makes, described as plain requests, and the
//! reading of what comes back.
use vstd::prelude::*;
use crate::model::Label;
use crate::redirect::pair_views;
use crate::text::{str_concat, decimal, decimal_string, digits_value, lemma_decimal_reads_back, str_eq};
use crate::tools::ToolError;

verus! {

/// The HTTP method of a request.
#[derive(Debug, Clone, Copy, PartialEq, Eq, Structural)]
pub enum HttpMethod {
    Get,
    Post,
}

/// The body of a request.
#[derive(Debug)]
pub enum RequestBody {
    /// JSON `{"name": name}`.
    CreateLabel { name: String },
    /// JSON `{"addLabelIds": add, "removeLabelIds": remove}`.
    ModifyLabels { add: Vec<String>, remove: Vec<String> },
    /// An HTML form with these fields, in order.
    Form(Vec<(String, String)>),
}

/// An HTTP request to make.
#[derive(Debug)]
pub struct ApiRequest {
    pub method: HttpMethod,
    pub url: String,
    /// Query parameters, in order.
    pub query: Vec<(String, String)>,
    pub body: Option<RequestBody>,
    /// Whether the request carries the access token as a bearer token.
    pub authorized: bool,
}

/// The contents of a request body.
pub enum BodyView {
    CreateLabel(Seq<char>),
    ModifyLabels(Seq<Seq<char>>, Seq<Seq<char>>),
    Form(Seq<(Seq<char>, Seq<char>)>),
}

/// The contents of a request.
pub struct RequestView {
    pub method: HttpMethod,
    pub url: Seq<char>,
    pub query: Seq<(Seq<char>, Seq<char>)>,
    pub body: Option<BodyView>,
    pub authorized: bool,
}

/// The character contents of a list of strings.
pub open spec fn text_list(v: Seq<String>) -> Seq<Seq<char>> {
    v.map_values(|s: String| s@)
}

impl View for RequestBody {
    type V = BodyView;

    open spec fn view(&self) -> BodyView {
        match self {
            RequestBody::CreateLabel { name } => BodyView::CreateLabel(name@),
            RequestBody::ModifyLabels { add, remove } => BodyView::ModifyLabels(
                text_list(add@),
                text_list(remove@),
            ),
            RequestBody::Form(fields) => BodyView::Form(pair_views(fields@)),
        }
    }
}

impl View for ApiRequest {
    type V = RequestView;

    open spec fn view(&self) -> RequestView {
        RequestView {
            method: self.method,
            url: self.url@,
            query: pair_views(self.query@),
            body: match self.body {
                Some(b) => Some(b@),
                None => None,
            },
            authorized: self.authorized,
        }
    }
}

/// The root of the Gmail API for the signed-in user.
pub open spec fn api_root() -> Seq<char> {
    "https://gmail.googleapis.com/gmail/v1/users/me"@
}

fn endpoint(path: &str) -> (r: String)
    ensures
        r@ == api_root() + path@,
{
    str_concat("https://gmail.googleapis.com/gmail/v1/users/me", path)
}

fn get(url: String, query: Vec<(String, String)>) -> (r: ApiRequest)
    ensures
        r.method == HttpMethod::Get,
        r.url == url,
        r.query == query,
        r.body is None,
        r.authorized,
{
    ApiRequest { method: HttpMethod::Get, url, query, body: None, authorized: true }
}

fn text_pair(name: &str, value: &str) -> (r: (String, String))
    ensures
        r.0@ == name@,
        r.1@ == value@,
{
    (String::from_str(name), String::from_str(value))
}

/// The profile of the signed-in user; it tells whether an access token works.
pub fn profile_request() -> (r: ApiRequest)
    ensures
        r@ == (RequestView {
            method: HttpMethod::Get,
            url: api_root() + "/profile"@,
            query: seq![],
            body: None,
            authorized: true,
        }),
{
    let r = get(endpoint("/profile"), Vec::new());
    assert(pair_views(r.query@) =~= seq![]);
    r
}

/// All labels of the mailbox.
pub fn list_labels_request() -> (r: ApiRequest)
    ensures
        r@ == (RequestView {
            method: HttpMethod::Get,
            url: api_root() + "/labels"@,
            query: seq![],
            body: None,
            authorized: true,
        }),
{
    let r = get(endpoint("/labels"), Vec::new());
    assert(pair_views(r.query@) =~= seq![]);
    r
}

/// The page-token parameter, when there is a token.
pub open spec fn page_param(page_token: Option<Seq<char>>) -> Seq<(Seq<char>, Seq<char>)> {
    match page_token {
        Some(t) => seq![("pageToken"@, t)],
        None => seq![],
    }
}

/// One `labelIds` parameter per label.
pub open spec fn label_params(labels: Seq<Seq<char>>) -> Seq<(Seq<char>, Seq<char>)> {
    labels.map_values(|l: Seq<char>| ("labelIds"@, l))
}

/// The character contents of an optional string slice.
pub open spec fn opt_str_view(o: Option<&str>) -> Option<Seq<char>> {
    match o {
        Some(s) => Some(s@),
        None => None,
    }
}

fn push_page_param(query: &mut Vec<(String, String)>, page_token: Option<&str>)
    ensures
        pair_views(final(query)@) == pair_views(old(query)@) + page_param(opt_str_view(page_token)),
{
    let ghost before = query@;
    match page_token {
        Some(t) => {
            query.push(text_pair("pageToken", t));
            assert(pair_views(query@) =~= pair_views(before) + page_param(opt_str_view(page_token)));
        },
        None => {
            assert(pair_views(query@) =~= pair_views(before) + page_param(opt_str_view(page_token)));
        },
    }
}

/// The request for one page of message ids: at most `max_results` of them,
/// after `page_token` when given, restricted to `label_ids` when given.
pub open spec fn spec_list_messages(
    max_results: u32,
    page_token: Option<Seq<char>>,
    label_ids: Option<Seq<Seq<char>>>,
) -> RequestView {
    RequestView {
        method: HttpMethod::Get,
        url: api_root() + "/messages"@,
        query: seq![("maxResults"@, decimal(max_results as nat))] + page_param(page_token)
            + match label_ids {
            Some(ls) => label_params(ls),
            None => seq![],
        },
        body: None,
        authorized: true,
    }
}

/// A listing of message ids is a GET of the `messages` endpoint with the bearer
/// token and no body; its query asks first for `maxResults` written in decimal,
/// then for the page token when there is one, then for each label of the
/// restriction in order, and for nothing else.
pub proof fn lemma_list_messages_request(
    max_results: u32,
    page_token: Option<Seq<char>>,
    label_ids: Option<Seq<Seq<char>>>,
)
    ensures
        ({
            let r = spec_list_messages(max_results, page_token, label_ids);
            let p: int = if page_token is Some { 1 } else { 0 };
            let labels = match label_ids {
                Some(ls) => ls,
                None => seq![],
            };
            &&& r.method == HttpMethod::Get
            &&& r.url == "https://gmail.googleapis.com/gmail/v1/users/me/messages"@
            &&& r.body is None
            &&& r.authorized
            &&& r.query.len() == 1 + p + labels.len()
            &&& r.query[0].0 == "maxResults"@
            &&& digits_value(r.query[0].1) == max_results
            &&& (page_token is Some ==> r.query[1] == ("pageToken"@, page_token->0))
            &&& forall|i: int| 0 <= i < labels.len() ==> r.query[1 + p + i] == ("labelIds"@, #[trigger] labels[i])
        }),
{
    reveal_strlit("https://gmail.googleapis.com/gmail/v1/users/me");
    reveal_strlit("/messages");
    reveal_strlit("https://gmail.googleapis.com/gmail/v1/users/me/messages");
    assert(api_root() + "/messages"@ =~= "https://gmail.googleapis.com/gmail/v1/users/me/messages"@);
    lemma_decimal_reads_back(max_results as nat);
    let r = spec_list_messages(max_results, page_token, label_ids);
    let head = seq![("maxResults"@, decimal(max_results as nat))] + page_param(page_token);
    let labels = match label_ids {
        Some(ls) => ls,
        None => seq![],
    };
    assert(r.query == head + label_params(labels));
    assert forall|i: int| 0 <= i < labels.len() implies r.query[head.len() + i] == ("labelIds"@, #[trigger] labels[i]) by {
        assert(label_params(labels)[i] == ("labelIds"@, labels[i]));
    }
}

/// The character contents of an optional list of strings.
pub open spec fn opt_text_list(o: Option<&Vec<String>>) -> Option<Seq<Seq<char>>> {
    match o {
        Some(v) => Some(text_list(v@)),
        None => None,
    }
}

/// One page of message ids, newest first, at most `max_results` of them,
/// optionally after `page_token` and restricted to `label_ids`.
pub fn list_messages_request(max_results: u32, page_token: Option<&str>, label_ids: Option<&Vec<String>>) -> (r: ApiRequest)
    ensures
        r@ == spec_list_messages(max_results, opt_str_view(page_token), opt_text_list(label_ids)),
{
    let mut query: Vec<(String, String)> = Vec::new();
    query.push((String::from_str("maxResults"), decimal_string(max_results as u64)));
    assert(pair_views(query@) =~= seq![("maxResults"@, decimal(max_results as nat))]);
    push_page_param(&mut query, page_token);
    let ghost base = pair_views(query@);
    match label_ids {
        Some(ls) => {
            let mut i: usize = 0;
            while i < ls.len()
                invariant
                    i <= ls@.len(),
                    pair_views(query@) == base + label_params(text_list(ls@.take(i as int))),
                decreases ls@.len() - i,
            {
                let ghost before = query@;
                query.push(text_pair("labelIds", ls[i].as_str()));
                assert(label_params(text_list(ls@.take(i + 1))) =~= label_params(
                    text_list(ls@.take(i as int)),
                ).push(("labelIds"@, ls@[i as int]@)));
                assert(pair_views(query@) =~= pair_views(before).push(("labelIds"@, ls@[i as int]@)));
                i = i + 1;
            }
            assert(ls@.take(ls@.len() as int) =~= ls@);
        },
        None => {
            assert(pair_views(query@) =~= base + seq![]);
        },
    }
    get(endpoint("/messages"), query)
}

/// One page of the messages that match a Gmail search `query`.
pub fn search_messages_request(query: &str, max_results: u32, page_token: Option<&str>) -> (r: ApiRequest)
    ensures
        r@ == (RequestView {
            method: HttpMethod::Get,
            url: api_root() + "/messages"@,
            query: seq![("q"@, query@), ("maxResults"@, decimal(max_results as nat))] + page_param(
                opt_str_view(page_token),
            ),
            body: None,
            authorized: true,
        }),
{
    let mut q: Vec<(String, String)> = Vec::new();
    q.push((String::from_str("q"), String::from_str(query)));
    q.push((String::from_str("maxResults"), decimal_string(max_results as u64)));
    assert(pair_views(q@) =~= seq![("q"@, query@), ("maxResults"@, decimal(max_results as nat))]);
    push_page_param(&mut q, page_token);
    get(endpoint("/messages"), q)
}

/// Creates a label called `name`.
pub fn create_label_request(name: &str) -> (r: ApiRequest)
    ensures
        r@ == (RequestView {
            method: HttpMethod::Post,
            url: api_root() + "/labels"@,
            query: seq![],
            body: Some(BodyView::CreateLabel(name@)),
            authorized: true,
        }),
{
    let r = ApiRequest {
        method: HttpMethod::Post,
        url: endpoint("/labels"),
        query: Vec::new(),
        body: Some(RequestBody::CreateLabel { name: String::from_str(name) }),
        authorized: true,
    };
    assert(pair_views(r.query@) =~= seq![]);
    r
}

/// The modify endpoint of a message.
pub open spec fn modify_url(message_id: Seq<char>) -> Seq<char> {
    api_root() + "/messages/"@ + message_id + "/modify"@
}

/// The request that adds (`add`) or removes the label `label_id` on a message.
pub open spec fn spec_label_change(message_id: Seq<char>, label_id: Seq<char>, add: bool) -> RequestView {
    RequestView {
        method: HttpMethod::Post,
        url: modify_url(message_id),
        query: seq![],
        body: Some(
            if add {
                BodyView::ModifyLabels(seq![label_id], seq![])
            } else {
                BodyView::ModifyLabels(seq![], seq![label_id])
            },
        ),
        authorized: true,
    }
}

fn label_change_request(message_id: &str, label_id: &str, add: bool) -> (r: ApiRequest)
    ensures
        r@ == spec_label_change(message_id@, label_id@, add),
{
    let mut url = endpoint("/messages/");
    url.append(message_id);
    url.append("/modify");
    let mut with: Vec<String> = Vec::new();
    with.push(String::from_str(label_id));
    let without: Vec<String> = Vec::new();
    let body = if add {
        RequestBody::ModifyLabels { add: with, remove: without }
    } else {
        RequestBody::ModifyLabels { add: without, remove: with }
    };
    let r = ApiRequest { method: HttpMethod::Post, url, query: Vec::new(), body: Some(body), authorized: true };
    assert(pair_views(r.query@) =~= seq![]);
    assert(text_list(with@) =~= seq![label_id@]);
    assert(text_list(without@) =~= seq![]);
    assert(r.url@ =~= modify_url(message_id@));
    r
}

/// Putting a label on or taking it off is a POST of the message's `modify`
/// endpoint with the bearer token, no query, and the label alone in the list of
/// labels to add or to remove.
pub proof fn lemma_label_change_request(message_id: Seq<char>, label_id: Seq<char>, add: bool)
    ensures
        spec_label_change(message_id, label_id, add).method == HttpMethod::Post,
        spec_label_change(message_id, label_id, add).url
            == "https://gmail.googleapis.com/gmail/v1/users/me/messages/"@ + message_id + "/modify"@,
        spec_label_change(message_id, label_id, add).query.len() == 0,
        spec_label_change(message_id, label_id, add).authorized,
        add ==> spec_label_change(message_id, label_id, add).body == Some(
            BodyView::ModifyLabels(seq![label_id], seq![]),
        ),
        !add ==> spec_label_change(message_id, label_id, add).body == Some(
            BodyView::ModifyLabels(seq![], seq![label_id]),
        ),
{
    reveal_strlit("https://gmail.googleapis.com/gmail/v1/users/me");
    reveal_strlit("/messages/");
    reveal_strlit("https://gmail.googleapis.com/gmail/v1/users/me/messages/");
    assert(api_root() + "/messages/"@ =~= "https://gmail.googleapis.com/gmail/v1/users/me/messages/"@);
}

/// Puts the label `label_id` on a message.
pub fn apply_label_request(message_id: &str, label_id: &str) -> (r: ApiRequest)
    ensures
        r@ == spec_label_change(message_id@, label_id@, true),
        r@.method == HttpMethod::Post,
        r@.body == Some(BodyView::ModifyLabels(seq![label_id@], seq![])),
{
    label_change_request(message_id, label_id, true)
}

/// Takes the label `label_id` off a message.
pub fn remove_label_request(message_id: &str, label_id: &str) -> (r: ApiRequest)
    ensures
        r@ == spec_label_change(message_id@, label_id@, false),
        r@.method == HttpMethod::Post,
        r@.body == Some(BodyView::ModifyLabels(seq![], seq![label_id@])),
{
    label_change_request(message_id, label_id, false)
}

/// Putting a label on and taking it off address the same endpoint of the same
/// message, and differ only in which list carries the label.
pub proof fn lemma_label_change_symmetric(message_id: Seq<char>, label_id: Seq<char>)
    ensures
        spec_label_change(message_id, label_id, true).url == spec_label_change(message_id, label_id, false).url,
        spec_label_change(message_id, label_id, true).body matches Some(BodyView::ModifyLabels(a1, r1))
            && spec_label_change(message_id, label_id, false).body matches Some(BodyView::ModifyLabels(a2, r2))
            && a1 == r2 && r1 == a2 && a1 == seq![label_id],
{
}

/// The metadata of a message: its labels, snippet, and `From` and `Subject` headers.
pub fn get_message_request(id: &str) -> (r: ApiRequest)
    ensures
        r@ == (RequestView {
            method: HttpMethod::Get,
            url: api_root() + "/messages/"@ + id@,
            query: seq![
                ("format"@, "metadata"@),
                ("metadataHeaders"@, "From"@),
                ("metadataHeaders"@, "Subject"@),
            ],
            body: None,
            authorized: true,
        }),
{
    let mut url = endpoint("/messages/");
    url.append(id);
    let mut q: Vec<(String, String)> = Vec::new();
    q.push(text_pair("format", "metadata"));
    q.push(text_pair("metadataHeaders", "From"));
    q.push(text_pair("metadataHeaders", "Subject"));
    assert(pair_views(q@) =~= seq![
        ("format"@, "metadata"@),
        ("metadataHeaders"@, "From"@),
        ("metadataHeaders"@, "Subject"@),
    ]);
    let r = get(url, q);
    assert(r.url@ =~= api_root() + "/messages/"@ + id@);
    r
}

/// The token endpoint of Google's OAuth server.
pub open spec fn token_endpoint() -> Seq<char> {
    "https://oauth2.googleapis.com/token"@
}

/// Asks for a new access token with a refresh token.
pub fn refresh_token_request(client_id: &str, client_secret: &str, refresh_token: &str) -> (r: ApiRequest)
    ensures
        r@ == (RequestView {
            method: HttpMethod::Post,
            url: token_endpoint(),
            query: seq![],
            body: Some(
                BodyView::Form(
                    seq![
                        ("client_id"@, client_id@),
                        ("client_secret"@, client_secret@),
                        ("refresh_token"@, refresh_token@),
                        ("grant_type"@, "refresh_token"@),
                    ],
                ),
            ),
            authorized: false,
        }),
{
    let mut form: Vec<(String, String)> = Vec::new();
    form.push(text_pair("client_id", client_id));
    form.push(text_pair("client_secret", client_secret));
    form.push(text_pair("refresh_token", refresh_token));
    form.push(text_pair("grant_type", "refresh_token"));
    assert(pair_views(form@) =~= seq![
        ("client_id"@, client_id@),
        ("client_secret"@, client_secret@),
        ("refresh_token"@, refresh_token@),
        ("grant_type"@, "refresh_token"@),
    ]);
    let r = ApiRequest {
        method: HttpMethod::Post,
        url: String::from_str("https://oauth2.googleapis.com/token"),
        query: Vec::new(),
        body: Some(RequestBody::Form(form)),
        authorized: false,
    };
    assert(pair_views(r.query@) =~= seq![]);
    r
}

/// Gmail answers a label creation with this status when the name is taken.
pub fn label_already_exists(status: u16) -> (r: bool)
    ensures
        r == (status == 409),
{
    status == 409
}

/// The first label named `name`, if any.
pub open spec fn first_named(labels: Seq<Label>, name: Seq<char>) -> Option<int>
    decreases labels.len(),
{
    if labels.len() == 0 {
        None
    } else if labels[0].name@ == name {
        Some(0)
    } else {
        match first_named(labels.drop_first(), name) {
            Some(i) => Some(i + 1),
            None => None,
        }
    }
}

/// `first_named` finds a label of that name, and none before it.
pub proof fn lemma_first_named(labels: Seq<Label>, name: Seq<char>)
    ensures
        first_named(labels, name) matches Some(i) ==> 0 <= i < labels.len() && labels[i].name@ == name
            && forall|j: int| 0 <= j < i ==> labels[j].name@ != name,
        first_named(labels, name) is None ==> forall|j: int| 0 <= j < labels.len() ==> labels[j].name@ != name,
    decreases labels.len(),
{
    if labels.len() > 0 && labels[0].name@ != name {
        lemma_first_named(labels.drop_first(), name);
        assert forall|j: int| 1 <= j < labels.len() implies labels[j].name@ == labels.drop_first()[j - 1].name@ by {}
    }
}

/// The existing label called `name`, which a creation that found the name
/// taken answers with.
pub fn existing_label(labels: Vec<Label>, name: &str) -> (r: Result<Label, ToolError>)
    ensures
        match first_named(labels@, name@) {
            Some(i) => r == Ok::<Label, ToolError>(labels@[i]),
            None => r matches Err(ToolError::LabelNotFound(n)) && n@ == name@,
        },
{
    let ghost all = labels@;
    let mut rest = labels;
    let mut i: usize = 0;
    assert(all.skip(0) =~= all);
    while i < rest.len()
        invariant
            rest@ == all,
            all == labels@,
            i <= all.len(),
            first_named(all, name@) == match first_named(all.skip(i as int), name@) {
                Some(j) => Some(j + i),
                None => None,
            },
        decreases all.len() - i,
    {
        assert(all.skip(i as int).drop_first() =~= all.skip(i + 1));
        if str_eq(rest[i].name.as_str(), name) {
            assert(all.skip(i as int)[0] == all[i as int]);
            let found = rest.swap_remove(i);
            assert(found == all[i as int]);
            return Ok(found);
        }
        i = i + 1;
    }
    Err(ToolError::LabelNotFound(String::from_str(name)))
}

} // verus!
