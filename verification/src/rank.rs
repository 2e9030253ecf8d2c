//! Ranking of counted items: largest count first.
use vstd::prelude::*;
use vstd::multiset::*;

verus! {

broadcast use vstd::seq_lib::group_to_multiset_ensures, vstd::multiset::group_multiset_axioms;

/// Counts never increase along `s`.
pub open spec fn sorted_by_count_desc<K>(s: Seq<(K, u64)>) -> bool {
    forall|i: int, j: int| 0 <= i < j < s.len() ==> #[trigger] s[i].1 >= #[trigger] s[j].1
}

/// `top` holds the `limit` entries of `all` with the largest counts (all of them when there
/// are fewer), largest first.
pub open spec fn is_top_by_count<K>(top: Seq<(K, u64)>, all: Seq<(K, u64)>, limit: nat) -> bool {
    &&& top.len() == if all.len() < limit { all.len() } else { limit }
    &&& sorted_by_count_desc(top)
    &&& top.to_multiset().subset_of(all.to_multiset())
    &&& forall|x: (K, u64), i: int|
        #![trigger all.to_multiset().count(x), top[i]]
        all.to_multiset().count(x) > top.to_multiset().count(x) && 0 <= i < top.len() ==> x.1
            <= top[i].1
}

/// The entries of `items` ordered by count, largest first.
pub fn rank_by_count<K>(items: Vec<(K, u64)>) -> (r: Vec<(K, u64)>)
    ensures
        r@.to_multiset() == items@.to_multiset(),
        sorted_by_count_desc(r@),
{
    let ghost all = items@;
    let mut rem = items;
    let mut out: Vec<(K, u64)> = Vec::new();
    assert(out@.to_multiset() =~= Multiset::empty());
    assert(out@.to_multiset().add(rem@.to_multiset()) =~= all.to_multiset());
    while rem.len() > 0
        invariant
            out@.to_multiset().add(rem@.to_multiset()) == all.to_multiset(),
            sorted_by_count_desc(out@),
            forall|a: int, b: int|
                0 <= a < out.len() && 0 <= b < rem.len() ==> #[trigger] out@[a].1 >= #[trigger] rem@[b].1,
        decreases rem.len(),
    {
        let mut best: usize = 0;
        let mut i: usize = 1;
        while i < rem.len()
            invariant
                best < rem.len(),
                1 <= i <= rem.len(),
                forall|b: int| 0 <= b < i ==> #[trigger] rem@[b].1 <= rem@[best as int].1,
            decreases rem.len() - i,
        {
            if rem[i].1 > rem[best].1 {
                best = i;
            }
            i = i + 1;
        }
        let ghost old_rem = rem@;
        let ghost old_out = out@;
        let x = rem.remove(best);
        proof {
            assert(rem@ == old_rem.remove(best as int));
            assert(old_rem.to_multiset().count(x) > 0) by {
                assert(old_rem.contains(x));
            }
            assert forall|b: int| 0 <= b < rem.len() implies #[trigger] rem@[b].1 <= x.1 by {
                if b < best {
                    assert(rem@[b] == old_rem[b]);
                } else {
                    assert(rem@[b] == old_rem[b + 1]);
                }
            }
            assert forall|b: int| 0 <= b < rem.len() implies forall|a: int|
                0 <= a < old_out.len() ==> #[trigger] old_out[a].1 >= #[trigger] rem@[b].1 by {
                if b < best {
                    assert(rem@[b] == old_rem[b]);
                } else {
                    assert(rem@[b] == old_rem[b + 1]);
                }
            }
        }
        out.push(x);
        proof {
            assert(out@ == old_out.push(x));
            assert(out@.to_multiset().add(rem@.to_multiset()) =~= all.to_multiset());
            assert forall|a: int, b: int| 0 <= a < out.len() && 0 <= b < rem.len() implies #[trigger] out@[a].1
                >= #[trigger] rem@[b].1 by {
                if a < old_out.len() {
                    assert(out@[a] == old_out[a]);
                }
            }
            assert forall|a: int, b: int| 0 <= a < b < out.len() implies #[trigger] out@[a].1
                >= #[trigger] out@[b].1 by {
                if b < old_out.len() {
                    assert(out@[a] == old_out[a]);
                    assert(out@[b] == old_out[b]);
                } else {
                    assert(out@[a] == old_out[a]);
                    assert(old_out[a].1 >= old_rem[best as int].1);
                }
            }
        }
    }
    assert(rem@.to_multiset() =~= Multiset::empty()) by {
        assert(rem@ =~= Seq::<(K, u64)>::empty());
    }
    assert(out@.to_multiset() =~= all.to_multiset());
    out
}

/// The `limit` entries of `items` with the largest counts, largest first.
pub fn top_by_count<K>(items: Vec<(K, u64)>, limit: usize) -> (r: Vec<(K, u64)>)
    ensures
        is_top_by_count(r@, items@, limit as nat),
{
    let ghost all = items@;
    let mut s = rank_by_count(items);
    let ghost full = s@;
    if limit < s.len() {
        s.truncate(limit);
    }
    proof {
        assert(full.to_multiset().len() == full.len());
        assert(all.to_multiset().len() == all.len());
        let k = s@.len() as int;
        let rest = full.skip(k);
        assert(s@ =~= full.take(k));
        assert(full =~= s@ + rest);
        vstd::seq_lib::lemma_multiset_commutative(s@, rest);
        assert(full.to_multiset() =~= s@.to_multiset().add(rest.to_multiset()));
        assert forall|x: (K, u64), i: int|
            all.to_multiset().count(x) > s@.to_multiset().count(x) && 0 <= i < s@.len() implies x.1
            <= s@[i].1 by {
            assert(rest.to_multiset().count(x) > 0);
            assert(rest.contains(x));
            let j = choose|j: int| 0 <= j < rest.len() && rest[j] == x;
            assert(full[k + j] == x);
            assert(full[i] == s@[i]);
        }
        assert forall|i: int, j: int| 0 <= i < j < s@.len() implies #[trigger] s@[i].1
            >= #[trigger] s@[j].1 by {
            assert(s@[i] == full[i] && s@[j] == full[j]);
        }
        assert(s@.len() == if all.len() < limit { all.len() } else { limit as nat });
        assert(s@.to_multiset().subset_of(all.to_multiset())) by {
            assert forall|v: (K, u64)| s@.to_multiset().count(v) <= all.to_multiset().count(v) by {
                assert(all.to_multiset().count(v) == s@.to_multiset().count(v) + rest.to_multiset().count(v));
            }
        }
    }
    s
}

/// Reordering keeps a sequence free of repeated elements.
pub proof fn lemma_permutation_no_duplicates<T>(a: Seq<T>, b: Seq<T>)
    requires
        a.to_multiset() == b.to_multiset(),
        a.no_duplicates(),
    ensures
        b.no_duplicates(),
{
    a.lemma_multiset_has_no_duplicates();
    b.lemma_multiset_has_no_duplicates_conv();
}

} // verus!
