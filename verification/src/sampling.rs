//! Choosing which messages to look at: paging through the message list and
//! drawing a random sample of the collected ids.
use vstd::prelude::*;
use rand::rngs::{OsRng, StdRng};
use rand::seq::SliceRandom;
use rand::SeedableRng;
use crate::analysis::views;
use crate::gmail::{list_messages_request, opt_str_view, opt_text_list, spec_list_messages, ApiRequest};
use crate::model::{page_ids, ref_ids, MessageListResponse};

verus! {

broadcast use vstd::seq_lib::group_to_multiset_ensures, vstd::multiset::group_multiset_axioms;

/// `rand::rngs::StdRng`, held opaque.
#[verifier::external_type_specification]
#[verifier::external_body]
pub struct ExStdRng(StdRng);

/// `rand::Error`, held opaque.
#[verifier::external_type_specification]
#[verifier::external_body]
pub struct ExRandError(rand::Error);

/// Calls `StdRng::from_rng` with the operating system's random source `OsRng`.
/// The seed comes from the system, so nothing is stated of the generator, nor of
/// when seeding fails; a failure of the system source comes back as `Err`
/// (`try_fill_bytes`), never as a panic.
#[verifier::external_body]
fn seeded_rng() -> Result<StdRng, rand::Error> {
    StdRng::from_rng(OsRng)
}

/// Calls `SliceRandom::shuffle` on the ids.  The contract claims only what its
/// source shows of every outcome: the shuffle swaps elements in place, so the
/// ids afterwards are a reordering of the ids before.
#[verifier::external_body]
fn shuffle(ids: &mut Vec<String>, rng: &mut StdRng)
    ensures
        final(ids)@.to_multiset() == old(ids)@.to_multiset(),
{
    ids.as_mut_slice().shuffle(rng)
}

/// The random sample could not be drawn: the system's source of randomness
/// could not seed the generator.
#[derive(Debug)]
pub struct NoRandomness;

impl NoRandomness {
    /// The text shown for this failure.
    pub fn message(&self) -> (r: String)
        ensures
            r@ == "could not seed the random number generator from the system"@,
    {
        String::from_str("could not seed the random number generator from the system")
    }
}

/// The number of messages to sample: the request's size, 500 when absent,
/// brought into 1..=2000.
pub open spec fn spec_sample_size(requested: Option<u64>) -> u64 {
    let n = match requested {
        Some(n) => n,
        None => 500,
    };
    if n > 2000 {
        2000
    } else if n < 1 {
        1
    } else {
        n
    }
}

/// The sample size: 500 when none is asked for, the asked size itself anywhere
/// in 1..=2000, 2000 above that and 1 for a request of 0.
pub proof fn lemma_sample_size(asked: u64)
    ensures
        spec_sample_size(None) == 500,
        1 <= asked <= 2000 ==> spec_sample_size(Some(asked)) == asked,
        asked > 2000 ==> spec_sample_size(Some(asked)) == 2000,
        asked == 0 ==> spec_sample_size(Some(asked)) == 1,
{
}

/// The number of messages to sample.
pub fn sample_size(requested: Option<u64>) -> (n: u32)
    ensures
        n == spec_sample_size(requested),
        1 <= n <= 2000,
        requested is None ==> n == 500,
        requested is Some && 1 <= requested->0 <= 2000 ==> n == requested->0,
        requested is Some && requested->0 > 2000 ==> n == 2000,
{
    let n: u64 = match requested {
        Some(n) => n,
        None => 500,
    };
    let n = if n > 2000 {
        2000
    } else if n < 1 {
        1
    } else {
        n
    };
    n as u32
}

/// How many ids to collect before sampling: three times the sample, at most 2000.
pub fn collect_target(sample: u32) -> (r: usize)
    ensures
        r == if 3 * sample > 2000 { 2000 } else { 3 * sample },
{
    let t: u64 = 3 * (sample as u64);
    if t > 2000 {
        2000
    } else {
        t as usize
    }
}

/// How many message ids each page of the sampling listing asks for.
pub const SAMPLING_PAGE_SIZE: u32 = 500;

/// The request for one page of the listing that collects ids to sample: 500 ids
/// per page, after `page_token` when given, restricted to `label_ids` when given.
pub fn sampling_page_request(page_token: Option<&str>, label_ids: Option<&Vec<String>>) -> (r: ApiRequest)
    ensures
        r@ == spec_list_messages(500, opt_str_view(page_token), opt_text_list(label_ids)),
{
    list_messages_request(SAMPLING_PAGE_SIZE, page_token, label_ids)
}

/// The label list that restricts the listing: the filter alone, or no restriction.
pub fn label_filter_ids(filter: Option<String>) -> (r: Option<Vec<String>>)
    ensures
        match filter {
            None => r is None,
            Some(l) => r matches Some(v) && v@ == seq![l],
        },
{
    match filter {
        None => None,
        Some(l) => {
            let mut v: Vec<String> = Vec::new();
            v.push(l);
            assert(v@ =~= seq![l]);
            Some(v)
        },
    }
}

/// The ids gathered from successive pages of the message list.
pub struct IdCollector {
    ids: Vec<String>,
    target: usize,
}

impl IdCollector {
    /// The ids gathered so far, in page order.
    pub closed spec fn collected(&self) -> Seq<Seq<char>> {
        views(self.ids@)
    }

    /// How many ids are enough.
    pub closed spec fn goal(&self) -> nat {
        self.target as nat
    }

    /// A collector with nothing gathered.
    pub fn new(target: usize) -> (r: IdCollector)
        ensures
            r.collected() == Seq::<Seq<char>>::empty(),
            r.goal() == target,
    {
        let r = IdCollector { ids: Vec::new(), target };
        assert(views(r.ids@) =~= Seq::<Seq<char>>::empty());
        r
    }

    /// Takes in one page.  Returns the token of the page to fetch next, or `None`
    /// when enough ids are gathered or the list has no further page.
    pub fn absorb(&mut self, page: MessageListResponse) -> (next: Option<String>)
        ensures
            final(self).collected() == old(self).collected() + page_ids(page),
            final(self).goal() == old(self).goal(),
            next == if final(self).collected().len() >= final(self).goal() {
                None
            } else {
                page.next_page_token
            },
    {
        let ghost p = page;
        let token = page.next_page_token;
        let ghost before = self.ids@;
        let mut more = ref_ids(page.messages);
        self.ids.append(&mut more);
        assert(views(self.ids@) =~= views(before) + page_ids(p));
        if self.ids.len() >= self.target {
            None
        } else {
            token
        }
    }

    /// The gathered ids.
    pub fn into_ids(self) -> (r: Vec<String>)
        ensures
            views(r@) == self.collected(),
    {
        self.ids
    }
}

/// A random sample of at most `n` of the ids: the ids in random order, cut to `n`.
/// It fails only when the system gives no randomness to seed the generator.
pub fn sample_ids(ids: Vec<String>, n: u32) -> (r: Result<Vec<String>, NoRandomness>)
    ensures
        r matches Ok(v) ==> v@.len() == (if ids@.len() < n { ids@.len() } else { n as nat }),
        r matches Ok(v) ==> v@.to_multiset().subset_of(ids@.to_multiset()),
{
    let ghost all = ids@;
    let mut ids = ids;
    let mut rng = match seeded_rng() {
        Ok(rng) => rng,
        Err(_) => {
            return Err(NoRandomness);
        },
    };
    shuffle(&mut ids, &mut rng);
    let ghost shuffled = ids@;
    if (n as usize) < ids.len() {
        ids.truncate(n as usize);
    }
    proof {
        assert(shuffled.to_multiset().len() == shuffled.len());
        assert(all.to_multiset().len() == all.len());
        let k = ids@.len() as int;
        let rest = shuffled.skip(k);
        assert(ids@ =~= shuffled.take(k));
        assert(shuffled =~= ids@ + rest);
        vstd::seq_lib::lemma_multiset_commutative(ids@, rest);
        assert forall|v: String| ids@.to_multiset().count(v) <= all.to_multiset().count(v) by {
            assert(shuffled.to_multiset().count(v) == ids@.to_multiset().count(v) + rest.to_multiset().count(v));
        }
    }
    Ok(ids)
}

} // verus!
