//! What a search answers with for each message it found.
use vstd::prelude::*;
use crate::model::{Header, Message};
use crate::text::str_eq;

verus! {

/// The value of the first header called `name`, if any.
pub open spec fn header_lookup(headers: Seq<Header>, name: Seq<char>) -> Option<Seq<char>>
    decreases headers.len(),
{
    if headers.len() == 0 {
        None
    } else if headers[0].name@ == name {
        Some(headers[0].value@)
    } else {
        header_lookup(headers.drop_first(), name)
    }
}

/// A header lookup finds the value of the first header of that name, and finds
/// nothing only when no header has that name.
pub proof fn lemma_header_lookup_first(headers: Seq<Header>, name: Seq<char>)
    ensures
        header_lookup(headers, name) is Some ==> exists|i: int|
            0 <= i < headers.len() && (#[trigger] headers[i]).name@ == name && headers[i].value@ == header_lookup(
                headers,
                name,
            )->0 && forall|j: int| 0 <= j < i ==> headers[j].name@ != name,
        header_lookup(headers, name) is None ==> forall|i: int| 0 <= i < headers.len() ==> (#[trigger] headers[i]).name@ != name,
    decreases headers.len(),
{
    if headers.len() > 0 && headers[0].name@ != name {
        let rest = headers.drop_first();
        lemma_header_lookup_first(rest, name);
        if header_lookup(rest, name) is Some {
            let i = choose|i: int|
                0 <= i < rest.len() && (#[trigger] rest[i]).name@ == name && rest[i].value@ == header_lookup(rest, name)->0
                    && forall|j: int| 0 <= j < i ==> rest[j].name@ != name;
            assert(headers[i + 1] == rest[i]);
            assert forall|j: int| 0 <= j < i + 1 implies headers[j].name@ != name by {
                if j > 0 {
                    assert(headers[j] == rest[j - 1]);
                }
            }
        } else {
            assert forall|i: int| 0 <= i < headers.len() implies (#[trigger] headers[i]).name@ != name by {
                if i > 0 {
                    assert(headers[i] == rest[i - 1]);
                }
            }
        }
    } else if headers.len() > 0 {
        assert(headers[0].name@ == name);
    }
}

/// The headers of a message (none when it has no payload or no header list).
pub open spec fn message_headers(m: Message) -> Seq<Header> {
    match m.payload {
        Some(p) => match p.headers {
            Some(h) => h@,
            None => seq![],
        },
        None => seq![],
    }
}

/// The value of the first header called `name`, or empty.
pub open spec fn header_or_empty(m: Message, name: Seq<char>) -> Seq<char> {
    match header_lookup(message_headers(m), name) {
        Some(v) => v,
        None => seq![],
    }
}

/// A header of a message is looked up among the headers of its payload: the
/// value of the first header of that name there, and empty when the message
/// has no payload, no header list, or no header of that name.
pub proof fn lemma_header_or_empty(m: Message, name: Seq<char>)
    ensures
        (m.payload is None || m.payload->0.headers is None) ==> header_or_empty(m, name).len() == 0,
        m.payload is Some && m.payload->0.headers is Some ==> ({
            let h = m.payload->0.headers->0@;
            &&& (forall|i: int| 0 <= i < h.len() ==> (#[trigger] h[i]).name@ != name) ==> header_or_empty(m, name).len() == 0
            &&& forall|i: int|
                0 <= i < h.len() && (#[trigger] h[i]).name@ == name && (forall|j: int| 0 <= j < i ==> h[j].name@ != name)
                    ==> header_or_empty(m, name) == h[i].value@
        }),
{
    lemma_header_lookup_first(message_headers(m), name);
    if m.payload is Some && m.payload->0.headers is Some {
        let h = m.payload->0.headers->0@;
        assert(message_headers(m) == h);
        assert forall|i: int|
            0 <= i < h.len() && (#[trigger] h[i]).name@ == name && (forall|j: int| 0 <= j < i ==> h[j].name@ != name)
                implies header_or_empty(m, name) == h[i].value@ by {
            let k = choose|k: int|
                0 <= k < h.len() && (#[trigger] h[k]).name@ == name && h[k].value@ == header_lookup(h, name)->0
                    && forall|j: int| 0 <= j < k ==> h[j].name@ != name;
            if k < i {
                assert(h[k].name@ != name);
            } else if i < k {
                assert(h[i].name@ != name);
            }
        }
        if forall|i: int| 0 <= i < h.len() ==> (#[trigger] h[i]).name@ != name {
            if header_lookup(h, name) is Some {
                let k = choose|k: int|
                    0 <= k < h.len() && (#[trigger] h[k]).name@ == name && h[k].value@ == header_lookup(h, name)->0
                        && forall|j: int| 0 <= j < k ==> h[j].name@ != name;
                assert(h[k].name@ != name);
            }
        }
    }
}

/// One message as a search answers with it.
#[derive(Debug)]
pub struct MessageSummary {
    pub id: String,
    pub subject: String,
    pub from: String,
    pub snippet: String,
    pub labels: Vec<String>,
}

/// `s` sums up `m`: its id, its first `Subject` and `From` headers, its snippet
/// and its labels, each empty when absent.
pub open spec fn summarizes(s: MessageSummary, m: Message) -> bool {
    &&& s.id == m.id
    &&& s.subject@ == header_or_empty(m, "Subject"@)
    &&& s.from@ == header_or_empty(m, "From"@)
    &&& s.snippet@ == match m.snippet {
        Some(t) => t@,
        None => Seq::<char>::empty(),
    }
    &&& s.labels@ == match m.label_ids {
        Some(l) => l@,
        None => Seq::<String>::empty(),
    }
}

fn find_header(headers: &Vec<Header>, name: &str) -> (r: String)
    ensures
        r@ == match header_lookup(headers@, name@) {
            Some(v) => v,
            None => Seq::<char>::empty(),
        },
{
    let mut i: usize = 0;
    assert(headers@.skip(0) =~= headers@);
    while i < headers.len()
        invariant
            i <= headers@.len(),
            header_lookup(headers@, name@) == header_lookup(headers@.skip(i as int), name@),
        decreases headers@.len() - i,
    {
        assert(headers@.skip(i as int)[0] == headers@[i as int]);
        assert(headers@.skip(i as int).drop_first() =~= headers@.skip(i + 1));
        if str_eq(headers[i].name.as_str(), name) {
            return headers[i].value.clone();
        }
        i = i + 1;
    }
    String::new()
}

fn message_header(m: &Message, name: &str) -> (r: String)
    ensures
        r@ == header_or_empty(*m, name@),
{
    match &m.payload {
        Some(p) => match &p.headers {
            Some(h) => find_header(h, name),
            None => String::new(),
        },
        None => String::new(),
    }
}

/// Sums up one message.
pub fn summarize(m: Message) -> (r: MessageSummary)
    ensures
        summarizes(r, m),
{
    let subject = message_header(&m, "Subject");
    let from = message_header(&m, "From");
    let snippet = match m.snippet {
        Some(t) => t,
        None => String::new(),
    };
    let labels = match m.label_ids {
        Some(l) => l,
        None => Vec::new(),
    };
    MessageSummary { id: m.id, subject, from, snippet, labels }
}

/// The messages that were fetched, in order, skipping the ones that failed.
pub open spec fn fetched(results: Seq<Option<Message>>) -> Seq<Message>
    decreases results.len(),
{
    if results.len() == 0 {
        seq![]
    } else {
        match results.last() {
            Some(m) => fetched(results.drop_last()).push(m),
            None => fetched(results.drop_last()),
        }
    }
}

/// Leaving out failed fetches works piece by piece: the messages fetched from two
/// runs of results one after the other are those of the first run followed by
/// those of the second; a fetched message is kept and a failed one adds nothing.
pub proof fn lemma_fetched_append(a: Seq<Option<Message>>, b: Seq<Option<Message>>)
    ensures
        fetched(a + b) == fetched(a) + fetched(b),
        fetched(a).len() <= a.len(),
    decreases b.len(), a.len(),
{
    if b.len() > 0 {
        lemma_fetched_append(a, b.drop_last());
        assert((a + b).drop_last() =~= a + b.drop_last());
        match b.last() {
            Some(m) => {
                assert(fetched(a) + fetched(b) =~= (fetched(a) + fetched(b.drop_last())).push(m));
            },
            None => {},
        }
    } else {
        assert(a + b =~= a);
        assert(fetched(a) + fetched(b) =~= fetched(a));
        if a.len() > 0 {
            lemma_fetched_append(a.drop_last(), b);
        }
    }
}

/// When every fetch succeeded, every message is kept, in order.
pub proof fn lemma_fetched_all(results: Seq<Option<Message>>)
    requires
        forall|i: int| 0 <= i < results.len() ==> (#[trigger] results[i]) is Some,
    ensures
        fetched(results).len() == results.len(),
        forall|i: int| 0 <= i < results.len() ==> Some(#[trigger] fetched(results)[i]) == results[i],
    decreases results.len(),
{
    if results.len() > 0 {
        let rest = results.drop_last();
        assert forall|i: int| 0 <= i < rest.len() implies (#[trigger] rest[i]) is Some by {
            assert(rest[i] == results[i]);
        }
        lemma_fetched_all(rest);
        assert(results.last() == results[results.len() - 1]);
        assert forall|i: int| 0 <= i < results.len() implies Some(#[trigger] fetched(results)[i]) == results[i] by {
            if i < results.len() - 1 {
                assert(rest[i] == results[i]);
            }
        }
    }
}

/// Sums up every message that was fetched, in order; failed fetches are left out.
pub fn summarize_fetched(results: Vec<Option<Message>>) -> (r: Vec<MessageSummary>)
    ensures
        r@.len() == fetched(results@).len(),
        forall|i: int| 0 <= i < r@.len() ==> summarizes(#[trigger] r@[i], fetched(results@)[i]),
{
    let ghost all = results@;
    let mut out: Vec<MessageSummary> = Vec::new();
    let mut rest = results;
    let mut i: usize = 0;
    let n = rest.len();
    assert(all.skip(0) =~= all);
    while i < n
        invariant
            n == all.len(),
            i <= n,
            rest@ == all.skip(i as int),
            out@.len() == fetched(all.take(i as int)).len(),
            forall|k: int| 0 <= k < out@.len() ==> summarizes(#[trigger] out@[k], fetched(all.take(i as int))[k]),
        decreases n - i,
    {
        let item = rest.remove(0);
        assert(all.take(i + 1).drop_last() =~= all.take(i as int));
        assert(item == all[i as int]);
        assert(rest@ =~= all.skip(i + 1));
        match item {
            Some(m) => {
                out.push(summarize(m));
            },
            None => {},
        }
        i = i + 1;
    }
    assert(all.take(n as int) =~= all);
    out
}

} // verus!
