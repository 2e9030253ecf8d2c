//! The Gmail REST resources the server reads, and the cached OAuth token.
use vstd::prelude::*;
use crate::analysis::views;

verus! {

/// An OAuth token kept between runs.
#[derive(Clone, Debug)]
pub struct CachedToken {
    pub access_token: String,
    pub refresh_token: Option<String>,
}

/// One page of `users.messages.list`.
#[derive(Debug)]
pub struct MessageListResponse {
    pub messages: Option<Vec<MessageRef>>,
    pub next_page_token: Option<String>,
    pub result_size_estimate: Option<u64>,
}

/// A message named by its id.
#[derive(Debug)]
pub struct MessageRef {
    pub id: String,
}

/// A message as `users.messages.get` returns it in metadata format.
#[derive(Debug, Clone)]
pub struct Message {
    pub id: String,
    pub label_ids: Option<Vec<String>>,
    pub snippet: Option<String>,
    pub payload: Option<MessagePayload>,
}

/// The part of a message that carries its headers.
#[derive(Debug, Clone)]
pub struct MessagePayload {
    pub headers: Option<Vec<Header>>,
}

/// One message header.
#[derive(Debug, Clone)]
pub struct Header {
    pub name: String,
    pub value: String,
}

/// A Gmail label.
#[derive(Debug, Clone)]
pub struct Label {
    pub id: String,
    pub name: String,
    pub label_type: Option<String>,
    pub messages_total: Option<u64>,
}

/// The result of `users.labels.list`.
#[derive(Debug)]
pub struct LabelListResponse {
    pub labels: Option<Vec<Label>>,
}

/// The ids of a list of message references, in order (none when there is no list).
pub open spec fn ref_list_ids(messages: Option<Vec<MessageRef>>) -> Seq<Seq<char>> {
    match messages {
        Some(m) => m@.map_values(|r: MessageRef| r.id@),
        None => seq![],
    }
}

/// The ids of the messages of a page, in order (none when the page has no list).
pub open spec fn page_ids(page: MessageListResponse) -> Seq<Seq<char>> {
    ref_list_ids(page.messages)
}

/// The ids of a list of message references, in order.
pub fn ref_ids(messages: Option<Vec<MessageRef>>) -> (r: Vec<String>)
    ensures
        views(r@) == ref_list_ids(messages),
{
    let mut out: Vec<String> = Vec::new();
    match messages {
        None => {
            assert(views(out@) =~= seq![]);
        },
        Some(msgs) => {
            let ghost all = msgs@;
            let n = msgs.len();
            let mut i: usize = 0;
            while i < n
                invariant
                    n == all.len(),
                    msgs@ == all,
                    i <= n,
                    views(out@) == all.take(i as int).map_values(|r: MessageRef| r.id@),
                decreases n - i,
            {
                let id = all_id(&msgs, i);
                let ghost before = out@;
                out.push(id);
                proof {
                    assert(views(out@) =~= views(before).push(all[i as int].id@));
                    assert(all.take(i + 1).map_values(|r: MessageRef| r.id@) =~= all.take(
                        i as int,
                    ).map_values(|r: MessageRef| r.id@).push(all[i as int].id@));
                }
                i = i + 1;
            }
            assert(all.take(n as int) =~= all);
        },
    }
    out
}

/// A page's id list holds the id of every listed message, in the order listed,
/// and nothing else.
pub proof fn lemma_ref_list_ids(messages: Option<Vec<MessageRef>>)
    ensures
        messages is None ==> ref_list_ids(messages).len() == 0,
        messages is Some ==> ref_list_ids(messages).len() == messages->0@.len(),
        messages is Some ==> forall|i: int|
            0 <= i < messages->0@.len() ==> #[trigger] ref_list_ids(messages)[i] == messages->0@[i].id@,
{
}

impl MessageListResponse {
    /// The ids of the listed messages, in order.
    pub fn into_ids(self) -> (r: Vec<String>)
        ensures
            views(r@) == page_ids(self),
    {
        ref_ids(self.messages)
    }
}

fn all_id(v: &Vec<MessageRef>, i: usize) -> (r: String)
    requires
        i < v.len(),
    ensures
        r@ == v@[i as int].id@,
{
    v[i].id.clone()
}

/// The labels of a label listing (none when it has no list).
pub open spec fn listed_labels(r: LabelListResponse) -> Seq<Label> {
    match r.labels {
        Some(l) => l@,
        None => seq![],
    }
}

impl LabelListResponse {
    /// The listed labels, in order.
    pub fn into_labels(self) -> (r: Vec<Label>)
        ensures
            r@ == listed_labels(self),
            self.labels is Some ==> r@ == self.labels->0@,
            self.labels is None ==> r@.len() == 0,
    {
        match self.labels {
            Some(l) => l,
            None => Vec::new(),
        }
    }
}

/// A label listing gives back every label it holds, in order: as many as the
/// answer lists, the first at the front and the last at the end.
pub proof fn lemma_listing_keeps_every_label(r: LabelListResponse)
    ensures
        r.labels is Some ==> listed_labels(r) == r.labels->0@,
        r.labels is Some ==> listed_labels(r).len() == r.labels->0@.len(),
        r.labels is None ==> listed_labels(r).len() == 0,
{
}

} // verus!
