//! Label statistics over a sample of messages: how often each label occurs,
//! and how often two labels occur on the same message.
use vstd::prelude::*;
use vstd::multiset::*;
use crate::rank::{
    lemma_permutation_no_duplicates, rank_by_count, sorted_by_count_desc,
    top_by_count,
};
use crate::text::chars_of;

verus! {

broadcast use vstd::seq_lib::group_to_multiset_ensures, vstd::multiset::group_multiset_axioms;

/// The character contents of each string of `v`.
pub open spec fn views(v: Seq<String>) -> Seq<Seq<char>> {
    v.map_values(|s: String| s@)
}

/// Lexicographic order by code point, which is the order `String`'s `Ord` gives
/// (UTF-8 encoding preserves code point order).
pub open spec fn seq_lt(a: Seq<char>, b: Seq<char>) -> bool
    decreases a.len(),
{
    if a.len() == 0 {
        b.len() > 0
    } else if b.len() == 0 {
        false
    } else if a[0] != b[0] {
        (a[0] as int) < (b[0] as int)
    } else {
        seq_lt(a.drop_first(), b.drop_first())
    }
}

/// Whether `a` sorts before `b`.
pub fn str_lt(a: &str, b: &str) -> (r: bool)
    ensures
        r == seq_lt(a@, b@),
{
    let x = chars_of(a);
    let y = chars_of(b);
    let mut i: usize = 0;
    assert(x@.skip(0) =~= x@);
    assert(y@.skip(0) =~= y@);
    while i < x.len() && i < y.len() && x[i] == y[i]
        invariant
            i <= x.len(),
            i <= y.len(),
            seq_lt(a@, b@) == seq_lt(x@.skip(i as int), y@.skip(i as int)),
            x@ == a@,
            y@ == b@,
        decreases x.len() - i,
    {
        assert(x@.skip(i as int).drop_first() =~= x@.skip(i + 1));
        assert(y@.skip(i as int).drop_first() =~= y@.skip(i + 1));
        i = i + 1;
    }
    if i == x.len() {
        i < y.len()
    } else if i == y.len() {
        false
    } else {
        x[i] < y[i]
    }
}

/// The two labels of a co-occurring pair, the smaller one first.
pub open spec fn ordered_pair(a: Seq<char>, b: Seq<char>) -> (Seq<char>, Seq<char>) {
    if seq_lt(b, a) {
        (b, a)
    } else {
        (a, b)
    }
}

/// Every element of `s`, counted with repetition.
pub open spec fn bag(s: Seq<Seq<char>>) -> Multiset<Seq<char>>
    decreases s.len(),
{
    if s.len() == 0 {
        Multiset::empty()
    } else {
        bag(s.drop_last()).insert(s.last())
    }
}

/// The pairs that `s[i]` forms with `s[i + 1]`, ..., `s[j - 1]`.
pub open spec fn row_bag(s: Seq<Seq<char>>, i: int, j: int) -> Multiset<(Seq<char>, Seq<char>)>
    decreases j - i,
{
    if j <= i + 1 {
        Multiset::empty()
    } else {
        row_bag(s, i, j - 1).insert(ordered_pair(s[i], s[j - 1]))
    }
}

/// The pairs that `s[0]`, ..., `s[i - 1]` form with every later element of `s`.
pub open spec fn rows_bag(s: Seq<Seq<char>>, i: int) -> Multiset<(Seq<char>, Seq<char>)>
    decreases i,
{
    if i <= 0 {
        Multiset::empty()
    } else {
        rows_bag(s, i - 1).add(row_bag(s, i - 1, s.len() as int))
    }
}

/// Every pair of positions `i < j` of `s`, as the ordered pair of their labels.
pub open spec fn pair_bag(s: Seq<Seq<char>>) -> Multiset<(Seq<char>, Seq<char>)> {
    rows_bag(s, s.len() as int)
}

/// Adding `added` to `counts` leaves every count within `u64::MAX`.
pub open spec fn fits_after<A>(counts: Multiset<A>, added: Multiset<A>) -> bool {
    forall|k: A| #[trigger] counts.count(k) + added.count(k) <= u64::MAX
}

/// The two labels, the smaller first.
pub fn ordered_strings(a: &String, b: &String) -> (r: (String, String))
    ensures
        (r.0@, r.1@) == ordered_pair(a@, b@),
{
    if str_lt(b.as_str(), a.as_str()) {
        (b.clone(), a.clone())
    } else {
        (a.clone(), b.clone())
    }
}

/// The labels of a message, or none when it has no label list.
pub open spec fn labels_of(label_ids: Option<Vec<String>>) -> Seq<Seq<char>> {
    match label_ids {
        Some(v) => views(v@),
        None => seq![],
    }
}

/// Some entry of `r` has the pair `k` as its key.
pub open spec fn pair_listed(r: Seq<((String, String), u64)>, k: (Seq<char>, Seq<char>)) -> bool {
    exists|j: int| 0 <= j < r.len() && pair_key(#[trigger] r[j]) == k
}

/// `s` lists each label of `counts` once, with its count.
pub open spec fn exact_label_counts(s: Seq<(String, u64)>, counts: Multiset<Seq<char>>) -> bool {
    &&& forall|i: int, j: int| 0 <= i < j < s.len() ==> #[trigger] s[i].0@ != #[trigger] s[j].0@
    &&& forall|i: int| 0 <= i < s.len() ==> #[trigger] s[i].1 == counts.count(s[i].0@) && s[i].1 > 0
    &&& forall|k: Seq<char>| #[trigger] counts.count(k) > 0 ==> exists|i: int| 0 <= i < s.len() && #[trigger] s[i].0@ == k
}

/// The character contents of a pair entry's key.
pub open spec fn pair_key(e: ((String, String), u64)) -> (Seq<char>, Seq<char>) {
    (e.0.0@, e.0.1@)
}

/// `s` lists each pair of `counts` once, with its count.
pub open spec fn exact_pair_counts(
    s: Seq<((String, String), u64)>,
    counts: Multiset<(Seq<char>, Seq<char>)>,
) -> bool {
    &&& forall|i: int, j: int| 0 <= i < j < s.len() ==> pair_key(#[trigger] s[i]) != pair_key(#[trigger] s[j])
    &&& forall|i: int| 0 <= i < s.len() ==> #[trigger] s[i].1 == counts.count(pair_key(s[i])) && s[i].1 > 0
    &&& forall|k: (Seq<char>, Seq<char>)| #[trigger] counts.count(k) > 0 ==> exists|i: int| 0 <= i < s.len() && pair_key(#[trigger] s[i]) == k
}

/// Label frequencies and label co-occurrences over the messages recorded so far.
pub struct LabelStats {
    counts: Vec<(String, u64)>,
    pairs: Vec<((String, String), u64)>,
    errors: u64,
    seen: Ghost<Multiset<Seq<char>>>,
    seen_pairs: Ghost<Multiset<(Seq<char>, Seq<char>)>>,
}

impl LabelStats {
    /// Every label recorded so far, counted with repetition.
    pub closed spec fn label_counts(&self) -> Multiset<Seq<char>> {
        self.seen@
    }

    /// Every co-occurring pair recorded so far, counted with repetition.
    pub closed spec fn pair_counts(&self) -> Multiset<(Seq<char>, Seq<char>)> {
        self.seen_pairs@
    }

    /// The number of messages that could not be fetched.
    pub closed spec fn fetch_errors(&self) -> nat {
        self.errors as nat
    }

    /// The internal tables agree with the counts they stand for.
    pub closed spec fn wf(&self) -> bool {
        &&& exact_label_counts(self.counts@, self.seen@)
        &&& exact_pair_counts(self.pairs@, self.seen_pairs@)
    }

    /// Statistics with nothing recorded.
    pub fn new() -> (r: LabelStats)
        ensures
            r.wf(),
            r.label_counts() == Multiset::<Seq<char>>::empty(),
            r.pair_counts() == Multiset::<(Seq<char>, Seq<char>)>::empty(),
            r.fetch_errors() == 0,
    {
        LabelStats {
            counts: Vec::new(),
            pairs: Vec::new(),
            errors: 0,
            seen: Ghost(Multiset::empty()),
            seen_pairs: Ghost(Multiset::empty()),
        }
    }

    fn bump_label(&mut self, k: &String)
        requires
            old(self).wf(),
            old(self).seen@.count(k@) < u64::MAX,
        ensures
            final(self).wf(),
            final(self).seen@ == old(self).seen@.insert(k@),
            final(self).seen_pairs@ == old(self).seen_pairs@,
            final(self).pairs@ == old(self).pairs@,
            final(self).errors == old(self).errors,
    {
        let ghost old_counts = self.counts@;
        let ghost new_seen = self.seen@.insert(k@);
        let mut i: usize = 0;
        while i < self.counts.len()
            invariant
                i <= self.counts@.len(),
                self.counts@ == old_counts,
                forall|a: int| 0 <= a < i ==> #[trigger] old_counts[a].0@ != k@,
            ensures
                i <= self.counts@.len(),
                self.counts@ == old_counts,
                forall|a: int| 0 <= a < i ==> #[trigger] old_counts[a].0@ != k@,
                i < self.counts@.len() ==> old_counts[i as int].0@ == k@,
            decreases self.counts@.len() - i,
        {
            if self.counts[i].0 == *k {
                break;
            }
            i = i + 1;
        }
        if i < self.counts.len() {
            let c = self.counts[i].1;
            self.counts.set(i, (k.clone(), c + 1));
            self.seen = Ghost(new_seen);
            proof {
                assert(old_counts[i as int].0@ == k@);
                assert forall|a: int| 0 <= a < self.counts@.len() implies #[trigger] self.counts@[a].1
                    == new_seen.count(self.counts@[a].0@) && self.counts@[a].1 > 0 by {
                    if a != i {
                        assert(self.counts@[a] == old_counts[a]);
                    }
                }
                assert forall|x: Seq<char>| #[trigger] new_seen.count(x) > 0 implies exists|a: int|
                    0 <= a < self.counts@.len() && #[trigger] self.counts@[a].0@ == x by {
                    if x == k@ {
                        assert(self.counts@[i as int].0@ == x);
                    } else {
                        let a = choose|a: int| 0 <= a < old_counts.len() && #[trigger] old_counts[a].0@ == x;
                        assert(self.counts@[a] == old_counts[a]);
                    }
                }
                assert forall|a: int, b: int| 0 <= a < b < self.counts@.len() implies #[trigger] self.counts@[a].0@
                    != #[trigger] self.counts@[b].0@ by {
                    assert(old_counts[a].0@ != old_counts[b].0@);
                }
            }
        } else {
            self.counts.push((k.clone(), 1));
            self.seen = Ghost(new_seen);
            proof {
                assert(old(self).seen@.count(k@) == 0) by {
                    if old(self).seen@.count(k@) > 0 {
                        let a = choose|a: int| 0 <= a < old_counts.len() && #[trigger] old_counts[a].0@ == k@;
                    }
                }
                assert forall|a: int| 0 <= a < self.counts@.len() implies #[trigger] self.counts@[a].1
                    == new_seen.count(self.counts@[a].0@) && self.counts@[a].1 > 0 by {
                    if a < old_counts.len() {
                        assert(self.counts@[a] == old_counts[a]);
                    }
                }
                assert forall|x: Seq<char>| #[trigger] new_seen.count(x) > 0 implies exists|a: int|
                    0 <= a < self.counts@.len() && #[trigger] self.counts@[a].0@ == x by {
                    if x == k@ {
                        assert(self.counts@[old_counts.len() as int].0@ == x);
                    } else {
                        let a = choose|a: int| 0 <= a < old_counts.len() && #[trigger] old_counts[a].0@ == x;
                        assert(self.counts@[a] == old_counts[a]);
                    }
                }
                assert forall|a: int, b: int| 0 <= a < b < self.counts@.len() implies #[trigger] self.counts@[a].0@
                    != #[trigger] self.counts@[b].0@ by {
                    assert(self.counts@[a] == old_counts[a]);
                }
            }
        }
    }

    fn bump_pair(&mut self, a: String, b: String)
        requires
            old(self).wf(),
            old(self).seen_pairs@.count((a@, b@)) < u64::MAX,
        ensures
            final(self).wf(),
            final(self).seen_pairs@ == old(self).seen_pairs@.insert((a@, b@)),
            final(self).seen@ == old(self).seen@,
            final(self).counts@ == old(self).counts@,
            final(self).errors == old(self).errors,
    {
        let ghost old_pairs = self.pairs@;
        let ghost key = (a@, b@);
        let ghost new_seen = self.seen_pairs@.insert(key);
        let mut i: usize = 0;
        while i < self.pairs.len()
            invariant
                key == (a@, b@),
                i <= self.pairs@.len(),
                self.pairs@ == old_pairs,
                forall|x: int| 0 <= x < i ==> pair_key(#[trigger] old_pairs[x]) != key,
            ensures
                i <= self.pairs@.len(),
                self.pairs@ == old_pairs,
                forall|x: int| 0 <= x < i ==> pair_key(#[trigger] old_pairs[x]) != key,
                i < self.pairs@.len() ==> pair_key(old_pairs[i as int]) == key,
            decreases self.pairs@.len() - i,
        {
            if self.pairs[i].0.0 == a && self.pairs[i].0.1 == b {
                break;
            }
            i = i + 1;
        }
        if i < self.pairs.len() {
            let c = self.pairs[i].1;
            self.pairs.set(i, ((a, b), c + 1));
            self.seen_pairs = Ghost(new_seen);
            proof {
                assert(pair_key(old_pairs[i as int]) == key);
                assert(pair_key(self.pairs@[i as int]) == key);
                assert forall|x: int| 0 <= x < self.pairs@.len() implies #[trigger] self.pairs@[x].1
                    == new_seen.count(pair_key(self.pairs@[x])) && self.pairs@[x].1 > 0 by {
                    if x != i {
                        assert(self.pairs@[x] == old_pairs[x]);
                    }
                }
                assert forall|y: (Seq<char>, Seq<char>)| #[trigger] new_seen.count(y) > 0 implies exists|x: int|
                    0 <= x < self.pairs@.len() && pair_key(#[trigger] self.pairs@[x]) == y by {
                    if y == key {
                        assert(pair_key(self.pairs@[i as int]) == y);
                    } else {
                        let x = choose|x: int| 0 <= x < old_pairs.len() && pair_key(#[trigger] old_pairs[x]) == y;
                        assert(self.pairs@[x] == old_pairs[x]);
                    }
                }
                assert forall|x: int, y: int| 0 <= x < y < self.pairs@.len() implies pair_key(#[trigger] self.pairs@[x])
                    != pair_key(#[trigger] self.pairs@[y]) by {
                    assert(pair_key(old_pairs[x]) != pair_key(old_pairs[y]));
                }
            }
        } else {
            self.pairs.push(((a, b), 1));
            self.seen_pairs = Ghost(new_seen);
            proof {
                let n = old_pairs.len() as int;
                assert(pair_key(self.pairs@[n]) == key);
                assert(old(self).seen_pairs@.count(key) == 0) by {
                    if old(self).seen_pairs@.count(key) > 0 {
                        let x = choose|x: int| 0 <= x < old_pairs.len() && pair_key(#[trigger] old_pairs[x]) == key;
                    }
                }
                assert forall|x: int| 0 <= x < self.pairs@.len() implies #[trigger] self.pairs@[x].1
                    == new_seen.count(pair_key(self.pairs@[x])) && self.pairs@[x].1 > 0 by {
                    if x < n {
                        assert(self.pairs@[x] == old_pairs[x]);
                    }
                }
                assert forall|y: (Seq<char>, Seq<char>)| #[trigger] new_seen.count(y) > 0 implies exists|x: int|
                    0 <= x < self.pairs@.len() && pair_key(#[trigger] self.pairs@[x]) == y by {
                    if y == key {
                        assert(pair_key(self.pairs@[n]) == y);
                    } else {
                        let x = choose|x: int| 0 <= x < old_pairs.len() && pair_key(#[trigger] old_pairs[x]) == y;
                        assert(self.pairs@[x] == old_pairs[x]);
                    }
                }
                assert forall|x: int, y: int| 0 <= x < y < self.pairs@.len() implies pair_key(#[trigger] self.pairs@[x])
                    != pair_key(#[trigger] self.pairs@[y]) by {
                    assert(self.pairs@[x] == old_pairs[x]);
                }
            }
        }
    }

    fn record_labels(&mut self, v: &Vec<String>)
        requires
            old(self).wf(),
            fits_after(old(self).seen@, bag(views(v@))),
            fits_after(old(self).seen_pairs@, pair_bag(views(v@))),
        ensures
            final(self).wf(),
            final(self).seen@ == old(self).seen@.add(bag(views(v@))),
            final(self).seen_pairs@ == old(self).seen_pairs@.add(pair_bag(views(v@))),
            final(self).errors == old(self).errors,
    {
        let ghost s = views(v@);
        let ghost old_seen = self.seen@;
        let ghost old_pairs = self.seen_pairs@;
        let ghost old_errors = self.errors;
        let n = v.len();
        assert(s.take(0) =~= Seq::<Seq<char>>::empty());
        assert(old_seen.add(bag(s.take(0))) =~= old_seen);
        let mut i: usize = 0;
        while i < n
            invariant
                n == v.len(),
                s == views(v@),
                i <= n,
                self.wf(),
                self.seen@ == old_seen.add(bag(s.take(i as int))),
                self.seen_pairs@ == old_pairs,
                self.errors == old_errors,
                fits_after(old_seen, bag(s)),
                fits_after(old_pairs, pair_bag(s)),
            decreases n - i,
        {
            proof {
                assert(s.take(i + 1).drop_last() =~= s.take(i as int));
                assert(s.take(i + 1).last() == v@[i as int]@);
                lemma_bag_prefix(s, i + 1);
                assert(old_seen.count(s[i as int]) + bag(s).count(s[i as int]) <= u64::MAX);
                assert(bag(s.take(i + 1)) == bag(s.take(i as int)).insert(s[i as int]));
                assert(bag(s.take(i + 1)).count(s[i as int]) <= bag(s).count(s[i as int]));
                assert(v@[i as int]@ == s[i as int]);
            }
            self.bump_label(&v[i]);
            proof {
                assert(self.seen@ =~= old_seen.add(bag(s.take(i + 1))));
            }
            i = i + 1;
        }
        assert(s.take(n as int) =~= s);
        assert(old_pairs.add(rows_bag(s, 0)) =~= old_pairs);
        let mut i: usize = 0;
        while i < n
            invariant
                n == v.len(),
                s == views(v@),
                s.len() == n,
                i <= n,
                self.wf(),
                self.seen@ == old_seen.add(bag(s)),
                self.seen_pairs@ == old_pairs.add(rows_bag(s, i as int)),
                self.errors == old_errors,
                fits_after(old_pairs, pair_bag(s)),
            decreases n - i,
        {
            let mut j: usize = i + 1;
            assert(self.seen_pairs@.add(row_bag(s, i as int, j as int)) =~= self.seen_pairs@);
            while j < n
                invariant
                    n == v.len(),
                    s == views(v@),
                    s.len() == n,
                    i < n,
                    i + 1 <= j <= n,
                    self.wf(),
                    self.seen@ == old_seen.add(bag(s)),
                    self.seen_pairs@ == old_pairs.add(rows_bag(s, i as int)).add(
                        row_bag(s, i as int, j as int),
                    ),
                    self.errors == old_errors,
                    fits_after(old_pairs, pair_bag(s)),
                decreases n - j,
            {
                let ghost before = self.seen_pairs@;
                let ghost p = ordered_pair(s[i as int], s[j as int]);
                proof {
                    assert(s[i as int] == v@[i as int]@);
                    assert(s[j as int] == v@[j as int]@);
                    assert(row_bag(s, i as int, j + 1) == row_bag(s, i as int, j as int).insert(p));
                    lemma_row_bag_prefix(s, i as int, j + 1, n as int);
                    lemma_rows_bag_prefix(s, i + 1, n as int);
                    assert(rows_bag(s, i + 1) == rows_bag(s, i as int).add(row_bag(s, i as int, n as int)));
                    assert(row_bag(s, i as int, j + 1).count(p) <= row_bag(s, i as int, n as int).count(p));
                    assert(rows_bag(s, i + 1).count(p) <= rows_bag(s, n as int).count(p));
                    assert(pair_bag(s) == rows_bag(s, n as int));
                    assert(before.count(p) + 1 <= old_pairs.count(p) + pair_bag(s).count(p));
                }
                if str_lt(v[j].as_str(), v[i].as_str()) {
                    self.bump_pair(v[j].clone(), v[i].clone());
                } else {
                    self.bump_pair(v[i].clone(), v[j].clone());
                }
                proof {
                    assert(self.seen_pairs@ == before.insert(p));
                    assert(self.seen_pairs@ =~= old_pairs.add(rows_bag(s, i as int)).add(
                        row_bag(s, i as int, j + 1),
                    ));
                }
                j = j + 1;
            }
            proof {
                assert(rows_bag(s, i + 1) == rows_bag(s, i as int).add(row_bag(s, i as int, n as int)));
                assert(self.seen_pairs@ =~= old_pairs.add(rows_bag(s, i + 1)));
            }
            i = i + 1;
        }
    }

    /// The current count of label `k`.
    fn label_count(&self, k: &String) -> (r: u64)
        requires
            self.wf(),
        ensures
            r == self.seen@.count(k@),
    {
        let mut i: usize = 0;
        while i < self.counts.len()
            invariant
                i <= self.counts@.len(),
                self.wf(),
                forall|a: int| 0 <= a < i ==> #[trigger] self.counts@[a].0@ != k@,
            decreases self.counts@.len() - i,
        {
            if self.counts[i].0 == *k {
                return self.counts[i].1;
            }
            i = i + 1;
        }
        proof {
            if self.seen@.count(k@) > 0 {
                let a = choose|a: int| 0 <= a < self.counts@.len() && #[trigger] self.counts@[a].0@ == k@;
            }
        }
        0
    }

    /// The current count of the pair `(a, b)`.
    fn pair_count(&self, a: &String, b: &String) -> (r: u64)
        requires
            self.wf(),
        ensures
            r == self.seen_pairs@.count((a@, b@)),
    {
        let ghost key = (a@, b@);
        let mut i: usize = 0;
        while i < self.pairs.len()
            invariant
                key == (a@, b@),
                i <= self.pairs@.len(),
                self.wf(),
                forall|x: int| 0 <= x < i ==> pair_key(#[trigger] self.pairs@[x]) != key,
            decreases self.pairs@.len() - i,
        {
            if self.pairs[i].0.0 == *a && self.pairs[i].0.1 == *b {
                assert(pair_key(self.pairs@[i as int]) == key);
                return self.pairs[i].1;
            }
            i = i + 1;
        }
        proof {
            if self.seen_pairs@.count(key) > 0 {
                let x = choose|x: int| 0 <= x < self.pairs@.len() && pair_key(#[trigger] self.pairs@[x]) == key;
            }
        }
        0
    }

    /// Whether `record_message` can count `label_ids` without any count passing
    /// `u64::MAX`.
    pub fn can_record(&self, label_ids: &Option<Vec<String>>) -> (r: bool)
        requires
            self.wf(),
        ensures
            r == (fits_after(self.label_counts(), bag(labels_of(*label_ids))) && fits_after(
                self.pair_counts(),
                pair_bag(labels_of(*label_ids)),
            )),
    {
        match label_ids {
            None => {
                assert(bag(labels_of(*label_ids)) =~= Multiset::empty());
                assert(pair_bag(labels_of(*label_ids)) =~= Multiset::empty());
                assert forall|k: Seq<char>| #[trigger] self.label_counts().count(k) + bag(labels_of(*label_ids)).count(k)
                    <= u64::MAX by {
                    self.lemma_count_fits(k);
                }
                assert forall|q: (Seq<char>, Seq<char>)| #[trigger] self.pair_counts().count(q) + pair_bag(
                    labels_of(*label_ids),
                ).count(q) <= u64::MAX by {
                    self.lemma_pair_count_fits(q);
                }
                true
            },
            Some(v) => self.labels_fit(v) && self.pairs_fit(v),
        }
    }

    fn labels_fit(&self, v: &Vec<String>) -> (r: bool)
        requires
            self.wf(),
        ensures
            r == fits_after(self.seen@, bag(views(v@))),
    {
        let ghost s = views(v@);
        let n = v.len();
        let mut i: usize = 0;
        while i < n
            invariant
                n == v.len(),
                s == views(v@),
                i <= n,
                self.wf(),
                forall|a: int| 0 <= a < i ==> self.seen@.count(#[trigger] s[a]) + bag(s).count(s[a]) <= u64::MAX,
            decreases n - i,
        {
            let k = &v[i];
            let mut occ: u64 = 0;
            let mut j: usize = 0;
            assert(s.take(0) =~= Seq::<Seq<char>>::empty());
            while j < n
                invariant
                    n == v.len(),
                    s == views(v@),
                    i < n,
                    j <= n,
                    k@ == s[i as int],
                    occ == bag(s.take(j as int)).count(k@),
                    occ <= j,
                decreases n - j,
            {
                assert(s.take(j + 1).drop_last() =~= s.take(j as int));
                assert(s[j as int] == v@[j as int]@);
                if v[j] == *k {
                    occ = occ + 1;
                }
                j = j + 1;
            }
            assert(s.take(n as int) =~= s);
            let c = self.label_count(k);
            if c.checked_add(occ).is_none() {
                return false;
            }
            i = i + 1;
        }
        proof {
            assert forall|x: Seq<char>| self.seen@.count(x) + bag(s).count(x) <= u64::MAX by {
                lemma_bag_contains(s, x);
                if bag(s).count(x) == 0 {
                    self.lemma_count_fits(x);
                }
            }
        }
        true
    }

    fn pairs_fit(&self, v: &Vec<String>) -> (r: bool)
        requires
            self.wf(),
        ensures
            r == fits_after(self.seen_pairs@, pair_bag(views(v@))),
    {
        let ghost s = views(v@);
        let n = v.len();
        let mut a: usize = 0;
        while a < n
            invariant
                n == v.len(),
                s == views(v@),
                s.len() == n,
                a <= n,
                self.wf(),
                forall|x: int, y: int|
                    0 <= x < a && x < y < n ==> self.seen_pairs@.count(ordered_pair(#[trigger] s[x], #[trigger] s[y]))
                        + pair_bag(s).count(ordered_pair(s[x], s[y])) <= u64::MAX,
            decreases n - a,
        {
            let mut b: usize = a + 1;
            while b < n
                invariant
                    n == v.len(),
                    s == views(v@),
                    s.len() == n,
                    a < n,
                    a + 1 <= b <= n,
                    self.wf(),
                    forall|x: int, y: int|
                        0 <= x < a && x < y < n ==> self.seen_pairs@.count(ordered_pair(#[trigger] s[x], #[trigger] s[y]))
                            + pair_bag(s).count(ordered_pair(s[x], s[y])) <= u64::MAX,
                    forall|y: int|
                        a < y < b ==> self.seen_pairs@.count(ordered_pair(s[a as int], #[trigger] s[y]))
                            + pair_bag(s).count(ordered_pair(s[a as int], s[y])) <= u64::MAX,
                decreases n - b,
            {
                let (p0, p1) = ordered_strings(&v[a], &v[b]);
                let ghost p = ordered_pair(s[a as int], s[b as int]);
                proof {
                    assert(s[a as int] == v@[a as int]@);
                    assert(s[b as int] == v@[b as int]@);
                }
                let c = self.pair_count(&p0, &p1);
                match self.pair_occurrences(v, &p0, &p1) {
                    None => {
                        return false;
                    },
                    Some(occ) => {
                        if c.checked_add(occ).is_none() {
                            return false;
                        }
                    },
                }
                b = b + 1;
            }
            a = a + 1;
        }
        proof {
            assert forall|q: (Seq<char>, Seq<char>)| self.seen_pairs@.count(q) + pair_bag(s).count(q) <= u64::MAX by {
                lemma_pair_bag_contains(s, q);
                if pair_bag(s).count(q) == 0 {
                    self.lemma_pair_count_fits(q);
                }
            }
        }
        true
    }

    /// How often the pair `(p0, p1)` occurs among the pairs of positions of `v`, or
    /// `None` when that is more than `u64::MAX`.
    fn pair_occurrences(&self, v: &Vec<String>, p0: &String, p1: &String) -> (r: Option<u64>)
        ensures
            r matches Some(o) ==> o == pair_bag(views(v@)).count((p0@, p1@)),
            r is None ==> pair_bag(views(v@)).count((p0@, p1@)) > u64::MAX,
    {
        let ghost s = views(v@);
        let ghost q = (p0@, p1@);
        let n = v.len();
        let mut occ: u64 = 0;
        let mut x: usize = 0;
        assert(rows_bag(s, 0) =~= Multiset::empty());
        while x < n
            invariant
                n == v.len(),
                s == views(v@),
                s.len() == n,
                q == (p0@, p1@),
                x <= n,
                occ == rows_bag(s, x as int).count(q),
            decreases n - x,
        {
            let mut y: usize = x + 1;
            let ghost base = occ;
            while y < n
                invariant
                    n == v.len(),
                    s == views(v@),
                    s.len() == n,
                    q == (p0@, p1@),
                    x < n,
                    x + 1 <= y <= n,
                    occ == base + row_bag(s, x as int, y as int).count(q),
                    base == rows_bag(s, x as int).count(q),
                decreases n - y,
            {
                let (o0, o1) = ordered_strings(&v[x], &v[y]);
                proof {
                    assert(s[x as int] == v@[x as int]@);
                    assert(s[y as int] == v@[y as int]@);
                    assert(row_bag(s, x as int, y + 1) == row_bag(s, x as int, y as int).insert(
                        ordered_pair(s[x as int], s[y as int]),
                    ));
                }
                if o0 == *p0 && o1 == *p1 {
                    if occ == u64::MAX {
                        proof {
                            lemma_row_bag_prefix(s, x as int, y + 1, n as int);
                            lemma_rows_bag_prefix(s, x + 1, n as int);
                            assert(rows_bag(s, x + 1) == rows_bag(s, x as int).add(row_bag(s, x as int, n as int)));
                            assert(row_bag(s, x as int, y + 1).count(q) <= row_bag(s, x as int, n as int).count(q));
                            assert(rows_bag(s, x + 1).count(q) <= rows_bag(s, n as int).count(q));
                        }
                        return None;
                    }
                    occ = occ + 1;
                }
                y = y + 1;
            }
            proof {
                assert(rows_bag(s, x + 1) == rows_bag(s, x as int).add(row_bag(s, x as int, n as int)));
            }
            x = x + 1;
        }
        Some(occ)
    }

    /// A label that is counted has a count no larger than `u64::MAX`.
    proof fn lemma_count_fits(&self, x: Seq<char>)
        requires
            self.wf(),
        ensures
            self.seen@.count(x) <= u64::MAX,
    {
        if self.seen@.count(x) > 0 {
            let a = choose|a: int| 0 <= a < self.counts@.len() && #[trigger] self.counts@[a].0@ == x;
            assert(self.counts@[a].1 == self.seen@.count(x));
        }
    }

    /// A pair that is counted has a count no larger than `u64::MAX`.
    proof fn lemma_pair_count_fits(&self, q: (Seq<char>, Seq<char>))
        requires
            self.wf(),
        ensures
            self.seen_pairs@.count(q) <= u64::MAX,
    {
        if self.seen_pairs@.count(q) > 0 {
            let a = choose|a: int| 0 <= a < self.pairs@.len() && pair_key(#[trigger] self.pairs@[a]) == q;
            assert(self.pairs@[a].1 == self.seen_pairs@.count(q));
        }
    }

    /// Counts the labels of one fetched message: each label once, and each pair of
    /// positions `i < j` once as the ordered pair of their labels.  No count may
    /// pass `u64::MAX`.
    pub fn record_message(&mut self, label_ids: &Option<Vec<String>>)
        requires
            old(self).wf(),
            fits_after(old(self).label_counts(), bag(labels_of(*label_ids))),
            fits_after(old(self).pair_counts(), pair_bag(labels_of(*label_ids))),
        ensures
            final(self).wf(),
            final(self).label_counts() == old(self).label_counts().add(bag(labels_of(*label_ids))),
            final(self).pair_counts() == old(self).pair_counts().add(pair_bag(labels_of(*label_ids))),
            final(self).fetch_errors() == old(self).fetch_errors(),
    {
        match label_ids {
            Some(v) => {
                self.record_labels(v);
            },
            None => {
                assert(old(self).seen@.add(bag(seq![])) =~= old(self).seen@);
                assert(old(self).seen_pairs@.add(pair_bag(seq![])) =~= old(self).seen_pairs@);
            },
        }
    }

    /// Counts a message that could not be fetched.
    pub fn record_failure(&mut self)
        requires
            old(self).wf(),
            old(self).fetch_errors() < u64::MAX,
        ensures
            final(self).wf(),
            final(self).label_counts() == old(self).label_counts(),
            final(self).pair_counts() == old(self).pair_counts(),
            final(self).fetch_errors() == old(self).fetch_errors() + 1,
    {
        self.errors = self.errors + 1;
    }

    /// The number of messages that could not be fetched.
    pub fn fetch_error_count(&self) -> (r: u64)
        ensures
            r == self.fetch_errors(),
    {
        self.errors
    }

    /// Each label with its count, largest count first.
    pub fn ranked_labels(&self) -> (r: Vec<(String, u64)>)
        requires
            self.wf(),
        ensures
            exact_label_counts(r@, self.label_counts()),
            r@.len() == self.label_counts().dom().len(),
            sorted_by_count_desc(r@),
    {
        let mut copy: Vec<(String, u64)> = Vec::new();
        let mut i: usize = 0;
        while i < self.counts.len()
            invariant
                i <= self.counts@.len(),
                copy@ == self.counts@.take(i as int),
            decreases self.counts@.len() - i,
        {
            let e = &self.counts[i];
            copy.push((e.0.clone(), e.1));
            assert(self.counts@.take(i + 1) =~= self.counts@.take(i as int).push(self.counts@[i as int]));
            i = i + 1;
        }
        assert(copy@ =~= self.counts@);
        let r = rank_by_count(copy);
        proof {
            lemma_exact_label_counts_permutation(self.counts@, r@, self.seen@);
            lemma_exact_label_counts_len(r@, self.seen@);
        }
        r
    }

    /// The `limit` co-occurring pairs with the largest counts, largest first.
    pub fn top_pairs(&self, limit: usize) -> (r: Vec<((String, String), u64)>)
        requires
            self.wf(),
        ensures
            r@.len() == if self.pair_counts().dom().len() < limit {
                self.pair_counts().dom().len()
            } else {
                limit as nat
            },
            sorted_by_count_desc(r@),
            forall|i: int, j: int| 0 <= i < j < r@.len() ==> pair_key(#[trigger] r@[i]) != pair_key(#[trigger] r@[j]),
            forall|i: int| 0 <= i < r@.len() ==> #[trigger] r@[i].1 == self.pair_counts().count(pair_key(r@[i])) && r@[i].1 > 0,
            forall|k: (Seq<char>, Seq<char>), i: int|
                #![trigger self.pair_counts().count(k), r@[i]]
                self.pair_counts().count(k) > 0 && !pair_listed(r@, k) && 0 <= i < r@.len() ==> self.pair_counts().count(k) <= r@[i].1,
    {
        let mut copy: Vec<((String, String), u64)> = Vec::new();
        let mut i: usize = 0;
        while i < self.pairs.len()
            invariant
                i <= self.pairs@.len(),
                copy@ == self.pairs@.take(i as int),
            decreases self.pairs@.len() - i,
        {
            let e = &self.pairs[i];
            copy.push(((e.0.0.clone(), e.0.1.clone()), e.1));
            assert(self.pairs@.take(i + 1) =~= self.pairs@.take(i as int).push(self.pairs@[i as int]));
            i = i + 1;
        }
        assert(copy@ =~= self.pairs@);
        let r = top_by_count(copy, limit);
        proof {
            let c = self.pairs@;
            lemma_exact_pair_counts_permutation(c, r@, self.seen_pairs@);
            lemma_exact_pair_counts_len(c, self.seen_pairs@);
            assert forall|k: (Seq<char>, Seq<char>), i: int|
                self.seen_pairs@.count(k) > 0 && !pair_listed(r@, k) && 0 <= i < r@.len() implies self.seen_pairs@.count(k) <= r@[i].1 by {
                let a = choose|a: int| 0 <= a < c.len() && pair_key(#[trigger] c[a]) == k;
                let x = c[a];
                assert(c.to_multiset().count(x) > 0) by {
                    assert(c.contains(x));
                }
                assert(r@.to_multiset().count(x) == 0) by {
                    if r@.to_multiset().count(x) > 0 {
                        assert(r@.contains(x));
                        let j = choose|j: int| 0 <= j < r@.len() && r@[j] == x;
                        assert(pair_key(r@[j]) == k);
                    }
                }
                assert(x.1 <= r@[i].1);
            }
        }
        r
    }
}

/// A reordering of an exact label table is an exact label table.
pub proof fn lemma_exact_label_counts_permutation(
    c: Seq<(String, u64)>,
    r: Seq<(String, u64)>,
    counts: Multiset<Seq<char>>,
)
    requires
        exact_label_counts(c, counts),
        r.to_multiset() == c.to_multiset(),
    ensures
        exact_label_counts(r, counts),
{
    assert(c.no_duplicates()) by {
        assert forall|i: int, j: int| 0 <= i < c.len() && 0 <= j < c.len() && i != j implies c[i]
            != c[j] by {
            if i < j {
                assert(c[i].0@ != c[j].0@);
            } else {
                assert(c[j].0@ != c[i].0@);
            }
        }
    }
    lemma_permutation_no_duplicates(c, r);
    assert forall|i: int| 0 <= i < r.len() implies exists|a: int| 0 <= a < c.len() && c[a] == #[trigger] r[i] by {
        assert(r.to_multiset().count(r[i]) > 0) by {
            assert(r.contains(r[i]));
        }
        assert(c.contains(r[i]));
    }
    assert forall|i: int, j: int| 0 <= i < j < r.len() implies #[trigger] r[i].0@ != #[trigger] r[j].0@ by {
        let a = choose|a: int| 0 <= a < c.len() && c[a] == r[i];
        let b = choose|b: int| 0 <= b < c.len() && c[b] == r[j];
        if a != b {
            if a < b {
                assert(c[a].0@ != c[b].0@);
            } else {
                assert(c[b].0@ != c[a].0@);
            }
        } else {
            assert(r[i] != r[j]);
        }
    }
    assert forall|i: int| 0 <= i < r.len() implies #[trigger] r[i].1 == counts.count(r[i].0@) && r[i].1 > 0 by {
        let a = choose|a: int| 0 <= a < c.len() && c[a] == r[i];
        assert(c[a].1 == counts.count(c[a].0@));
    }
    assert forall|k: Seq<char>| #[trigger] counts.count(k) > 0 implies exists|i: int| 0 <= i < r.len() && #[trigger] r[i].0@ == k by {
        let a = choose|a: int| 0 <= a < c.len() && #[trigger] c[a].0@ == k;
        assert(c.to_multiset().count(c[a]) > 0) by {
            assert(c.contains(c[a]));
        }
        assert(r.contains(c[a]));
    }
}

/// A reordering of an exact pair table is an exact pair table.
pub proof fn lemma_exact_pair_counts_permutation(
    c: Seq<((String, String), u64)>,
    r: Seq<((String, String), u64)>,
    counts: Multiset<(Seq<char>, Seq<char>)>,
)
    requires
        exact_pair_counts(c, counts),
        r.to_multiset().subset_of(c.to_multiset()),
    ensures
        forall|i: int, j: int| 0 <= i < j < r.len() ==> pair_key(#[trigger] r[i]) != pair_key(#[trigger] r[j]),
        forall|i: int| 0 <= i < r.len() ==> #[trigger] r[i].1 == counts.count(pair_key(r[i])) && r[i].1 > 0,
{
    assert(c.no_duplicates()) by {
        assert forall|i: int, j: int| 0 <= i < c.len() && 0 <= j < c.len() && i != j implies c[i]
            != c[j] by {
            if i < j {
                assert(pair_key(c[i]) != pair_key(c[j]));
            } else {
                assert(pair_key(c[j]) != pair_key(c[i]));
            }
        }
    }
    c.lemma_multiset_has_no_duplicates();
    assert forall|i: int| 0 <= i < r.len() implies exists|a: int| 0 <= a < c.len() && c[a] == #[trigger] r[i] by {
        assert(r.to_multiset().count(r[i]) > 0) by {
            assert(r.contains(r[i]));
        }
        assert(c.to_multiset().count(r[i]) > 0);
        assert(c.contains(r[i]));
    }
    assert(r.no_duplicates()) by {
        assert forall|x: ((String, String), u64)| r.to_multiset().contains(x) implies r.to_multiset().count(x) == 1 by {
            assert(r.to_multiset().count(x) <= c.to_multiset().count(x));
        }
        r.lemma_multiset_has_no_duplicates_conv();
    }
    assert forall|i: int, j: int| 0 <= i < j < r.len() implies pair_key(#[trigger] r[i]) != pair_key(#[trigger] r[j]) by {
        let a = choose|a: int| 0 <= a < c.len() && c[a] == r[i];
        let b = choose|b: int| 0 <= b < c.len() && c[b] == r[j];
        if a != b {
            if a < b {
                assert(pair_key(c[a]) != pair_key(c[b]));
            } else {
                assert(pair_key(c[b]) != pair_key(c[a]));
            }
        } else {
            assert(r[i] != r[j]);
        }
    }
    assert forall|i: int| 0 <= i < r.len() implies #[trigger] r[i].1 == counts.count(pair_key(r[i])) && r[i].1 > 0 by {
        let a = choose|a: int| 0 <= a < c.len() && c[a] == r[i];
        assert(c[a].1 == counts.count(pair_key(c[a])));
    }
}

/// No sequence sorts before itself.
pub proof fn lemma_seq_lt_irreflexive(a: Seq<char>)
    ensures
        !seq_lt(a, a),
    decreases a.len(),
{
    if a.len() > 0 {
        lemma_seq_lt_irreflexive(a.drop_first());
    }
}

/// Of two different sequences exactly one sorts first.
pub proof fn lemma_seq_lt_total(a: Seq<char>, b: Seq<char>)
    ensures
        a != b ==> (seq_lt(a, b) != seq_lt(b, a)),
    decreases a.len(),
{
    if a.len() > 0 && b.len() > 0 && a[0] == b[0] {
        lemma_seq_lt_total(a.drop_first(), b.drop_first());
        if a != b {
            assert(a.drop_first() != b.drop_first()) by {
                if a.drop_first() == b.drop_first() {
                    assert forall|i: int| 0 <= i < a.len() implies a[i] == b[i] by {
                        if i > 0 {
                            assert(a[i] == a.drop_first()[i - 1]);
                            assert(b[i] == b.drop_first()[i - 1]);
                        }
                    }
                    assert(a =~= b);
                }
            }
        }
    } else if a.len() == 0 && b.len() == 0 {
        assert(a =~= b);
    }
}

/// Strings are ordered character by character from the front: after a common
/// beginning of length `i`, the string that ends there sorts before a longer
/// one, and otherwise the one with the smaller next character sorts first.
pub proof fn lemma_seq_lt_lexicographic(a: Seq<char>, b: Seq<char>, i: int)
    requires
        0 <= i <= a.len(),
        i <= b.len(),
        a.take(i) == b.take(i),
    ensures
        i == a.len() && i < b.len() ==> seq_lt(a, b),
        i < a.len() && i < b.len() && (a[i] as int) < (b[i] as int) ==> seq_lt(a, b),
    decreases i,
{
    if i > 0 {
        assert(a[0] == a.take(i)[0]);
        assert(b[0] == b.take(i)[0]);
        assert(a.drop_first().take(i - 1) =~= b.drop_first().take(i - 1)) by {
            assert forall|k: int| 0 <= k < i - 1 implies a.drop_first()[k] == b.drop_first()[k] by {
                assert(a.take(i)[k + 1] == b.take(i)[k + 1]);
                assert(a.take(i)[k + 1] == a[k + 1]);
                assert(b.take(i)[k + 1] == b[k + 1]);
                assert(a.drop_first()[k] == a[k + 1]);
                assert(b.drop_first()[k] == b[k + 1]);
            }
        }
        lemma_seq_lt_lexicographic(a.drop_first(), b.drop_first(), i - 1);
    }
}

/// The pair of two labels holds the same two labels, the smaller one first.
pub proof fn lemma_ordered_pair_smaller_first(a: Seq<char>, b: Seq<char>)
    ensures
        ordered_pair(a, b) == (a, b) || ordered_pair(a, b) == (b, a),
        !seq_lt(ordered_pair(a, b).1, ordered_pair(a, b).0),
{
    lemma_seq_lt_total(a, b);
    lemma_seq_lt_irreflexive(a);
}

/// Two labels on one message count as the same pair whichever comes first.
pub proof fn lemma_ordered_pair_symmetric(a: Seq<char>, b: Seq<char>)
    ensures
        ordered_pair(a, b) == ordered_pair(b, a),
{
    lemma_seq_lt_total(a, b);
    lemma_seq_lt_irreflexive(a);
}

/// The statistics do not depend on the order in which messages are recorded:
/// recording the labels `a` and then `b` counts the same as `b` and then `a`.
pub proof fn lemma_recording_order_irrelevant(
    labels: Multiset<Seq<char>>,
    pairs: Multiset<(Seq<char>, Seq<char>)>,
    a: Seq<Seq<char>>,
    b: Seq<Seq<char>>,
)
    ensures
        labels.add(bag(a)).add(bag(b)) == labels.add(bag(b)).add(bag(a)),
        pairs.add(pair_bag(a)).add(pair_bag(b)) == pairs.add(pair_bag(b)).add(pair_bag(a)),
{
    assert(labels.add(bag(a)).add(bag(b)) =~= labels.add(bag(b)).add(bag(a)));
    assert(pairs.add(pair_bag(a)).add(pair_bag(b)) =~= pairs.add(pair_bag(b)).add(pair_bag(a)));
}

/// Each label of a message is counted once: the labels recorded for a message
/// number as many as its label list.
pub proof fn lemma_bag_len(s: Seq<Seq<char>>)
    ensures
        bag(s).len() == s.len(),
    decreases s.len(),
{
    if s.len() > 0 {
        lemma_bag_len(s.drop_last());
    }
}

proof fn lemma_row_bag_len(s: Seq<Seq<char>>, i: int, j: int)
    requires
        i < j,
    ensures
        row_bag(s, i, j).len() == j - i - 1,
    decreases j - i,
{
    if j > i + 1 {
        lemma_row_bag_len(s, i, j - 1);
    }
}

proof fn lemma_rows_bag_len(s: Seq<Seq<char>>, i: int)
    requires
        0 <= i <= s.len(),
    ensures
        2 * rows_bag(s, i).len() == i * (2 * s.len() - 1 - i),
    decreases i,
{
    if i > 0 {
        lemma_rows_bag_len(s, i - 1);
        lemma_row_bag_len(s, i - 1, s.len() as int);
        let n = s.len() as int;
        assert((i - 1) * (2 * n - 1 - (i - 1)) + 2 * (n - 1 - (i - 1)) == i * (2 * n - 1 - i))
            by (nonlinear_arith);
        assert(rows_bag(s, i) == rows_bag(s, i - 1).add(row_bag(s, i - 1, n)));
        assert(rows_bag(s, i).len() == rows_bag(s, i - 1).len() + row_bag(s, i - 1, n).len());
    } else {
        assert(rows_bag(s, i).len() == 0);
        assert(i * (2 * s.len() - 1 - i) == 0);
    }
}

/// Each pair of positions of a message is counted once: a message with `k`
/// labels adds `k * (k - 1) / 2` co-occurrences.
pub proof fn lemma_pair_bag_len(s: Seq<Seq<char>>)
    ensures
        2 * pair_bag(s).len() == s.len() * (s.len() - 1),
{
    lemma_rows_bag_len(s, s.len() as int);
    let n = s.len() as int;
    assert(n * (2 * n - 1 - n) == n * (n - 1)) by (nonlinear_arith);
}

/// An exact label table has one entry per label with a positive count.
pub proof fn lemma_exact_label_counts_len(s: Seq<(String, u64)>, counts: Multiset<Seq<char>>)
    requires
        exact_label_counts(s, counts),
    ensures
        s.len() == counts.dom().len(),
{
    let keys = s.map_values(|e: (String, u64)| e.0@);
    assert(keys.no_duplicates()) by {
        assert forall|i: int, j: int| 0 <= i < keys.len() && 0 <= j < keys.len() && i != j implies keys[i]
            != keys[j] by {
            if i < j {
                assert(s[i].0@ != s[j].0@);
            } else {
                assert(s[j].0@ != s[i].0@);
            }
        }
    }
    assert(counts.dom() =~= keys.to_set()) by {
        assert forall|k: Seq<char>| counts.dom().contains(k) implies keys.to_set().contains(k) by {
            assert(counts.count(k) > 0);
            let i = choose|i: int| 0 <= i < s.len() && #[trigger] s[i].0@ == k;
            assert(keys[i] == k);
        }
        assert forall|k: Seq<char>| keys.to_set().contains(k) implies counts.dom().contains(k) by {
            let i = choose|i: int| 0 <= i < keys.len() && keys[i] == k;
            assert(s[i].1 == counts.count(s[i].0@) && s[i].1 > 0);
        }
    }
    keys.unique_seq_to_set();
}

/// An exact pair table has one entry per pair with a positive count.
pub proof fn lemma_exact_pair_counts_len(
    s: Seq<((String, String), u64)>,
    counts: Multiset<(Seq<char>, Seq<char>)>,
)
    requires
        exact_pair_counts(s, counts),
    ensures
        s.len() == counts.dom().len(),
{
    let keys = s.map_values(|e: ((String, String), u64)| pair_key(e));
    assert(keys.no_duplicates()) by {
        assert forall|i: int, j: int| 0 <= i < keys.len() && 0 <= j < keys.len() && i != j implies keys[i]
            != keys[j] by {
            if i < j {
                assert(pair_key(s[i]) != pair_key(s[j]));
            } else {
                assert(pair_key(s[j]) != pair_key(s[i]));
            }
        }
    }
    assert(counts.dom() =~= keys.to_set()) by {
        assert forall|k: (Seq<char>, Seq<char>)| counts.dom().contains(k) implies keys.to_set().contains(k) by {
            assert(counts.count(k) > 0);
            let i = choose|i: int| 0 <= i < s.len() && pair_key(#[trigger] s[i]) == k;
            assert(keys[i] == k);
        }
        assert forall|k: (Seq<char>, Seq<char>)| keys.to_set().contains(k) implies counts.dom().contains(k) by {
            let i = choose|i: int| 0 <= i < keys.len() && keys[i] == k;
            assert(s[i].1 == counts.count(pair_key(s[i])) && s[i].1 > 0);
        }
    }
    keys.unique_seq_to_set();
}

/// The labels of a prefix are counted no more often than those of the whole.
pub proof fn lemma_bag_prefix(s: Seq<Seq<char>>, i: int)
    requires
        0 <= i <= s.len(),
    ensures
        forall|x: Seq<char>| #[trigger] bag(s.take(i)).count(x) <= bag(s).count(x),
    decreases s.len(),
{
    if i < s.len() {
        lemma_bag_prefix(s.drop_last(), i);
        assert(s.drop_last().take(i) =~= s.take(i));
    } else {
        assert(s.take(i) =~= s);
    }
}

/// A label with a positive count occurs in the message.
pub proof fn lemma_bag_contains(s: Seq<Seq<char>>, x: Seq<char>)
    ensures
        bag(s).count(x) > 0 ==> exists|i: int| 0 <= i < s.len() && #[trigger] s[i] == x,
    decreases s.len(),
{
    if s.len() > 0 {
        lemma_bag_contains(s.drop_last(), x);
        if bag(s).count(x) > 0 && x != s.last() {
            let i = choose|i: int| 0 <= i < s.drop_last().len() && #[trigger] s.drop_last()[i] == x;
            assert(s[i] == x);
        }
    }
}

/// The pairs `s[i]` forms with earlier positions than `m` are among those it forms
/// with positions before `m`.
pub proof fn lemma_row_bag_prefix(s: Seq<Seq<char>>, i: int, j: int, m: int)
    requires
        i < j <= m,
    ensures
        forall|q: (Seq<char>, Seq<char>)| #[trigger] row_bag(s, i, j).count(q) <= row_bag(s, i, m).count(q),
    decreases m - j,
{
    if j < m {
        lemma_row_bag_prefix(s, i, j, m - 1);
    }
}

/// The pairs of the first rows are among those of more rows.
pub proof fn lemma_rows_bag_prefix(s: Seq<Seq<char>>, a: int, b: int)
    requires
        0 <= a <= b,
    ensures
        forall|q: (Seq<char>, Seq<char>)| #[trigger] rows_bag(s, a).count(q) <= rows_bag(s, b).count(q),
    decreases b - a,
{
    if a < b {
        lemma_rows_bag_prefix(s, a, b - 1);
    }
}

proof fn lemma_row_bag_contains(s: Seq<Seq<char>>, i: int, j: int, q: (Seq<char>, Seq<char>))
    ensures
        row_bag(s, i, j).count(q) > 0 ==> exists|y: int| i < y < j && #[trigger] ordered_pair(s[i], s[y]) == q,
    decreases j - i,
{
    if j > i + 1 {
        lemma_row_bag_contains(s, i, j - 1, q);
    }
}

proof fn lemma_rows_bag_contains(s: Seq<Seq<char>>, a: int, q: (Seq<char>, Seq<char>))
    ensures
        rows_bag(s, a).count(q) > 0 ==> exists|x: int, y: int|
            0 <= x < a && x < y < s.len() && #[trigger] ordered_pair(s[x], s[y]) == q,
    decreases a,
{
    if a > 0 {
        lemma_rows_bag_contains(s, a - 1, q);
        lemma_row_bag_contains(s, a - 1, s.len() as int, q);
        if rows_bag(s, a).count(q) > 0 && rows_bag(s, a - 1).count(q) == 0 {
            let y = choose|y: int| a - 1 < y < s.len() && #[trigger] ordered_pair(s[a - 1], s[y]) == q;
            assert(ordered_pair(s[a - 1], s[y]) == q);
        }
    }
}

/// A pair with a positive count is the ordered pair of two positions of the message.
pub proof fn lemma_pair_bag_contains(s: Seq<Seq<char>>, q: (Seq<char>, Seq<char>))
    ensures
        pair_bag(s).count(q) > 0 ==> exists|x: int, y: int|
            0 <= x < y < s.len() && #[trigger] ordered_pair(s[x], s[y]) == q,
{
    lemma_rows_bag_contains(s, s.len() as int, q);
}

} // verus!
