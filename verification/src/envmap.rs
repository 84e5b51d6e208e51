//! The credential map: a key-unique, case-sensitive mapping from text to
//! text, kept in key order.

use vstd::prelude::*;
use crate::text::{lemma_str_lt_order, pair_views, str_eq, str_less, str_lt};

verus! {

/// Folds `pairs` into `m` from the first to the last, so that a later pair
/// overwrites an earlier one with the same key.
pub open spec fn insert_all(
    m: Map<Seq<char>, Seq<char>>,
    pairs: Seq<(Seq<char>, Seq<char>)>,
) -> Map<Seq<char>, Seq<char>>
    decreases pairs.len(),
{
    if pairs.len() == 0 {
        m
    } else {
        insert_all(m, pairs.drop_last()).insert(pairs.last().0, pairs.last().1)
    }
}

/// The mapping that a sequence of pairs stands for.
pub open spec fn to_map(pairs: Seq<(Seq<char>, Seq<char>)>) -> Map<Seq<char>, Seq<char>> {
    insert_all(Map::empty(), pairs)
}

/// Keys strictly increasing in string order; no key occurs twice.
pub open spec fn sorted_pairs(pairs: Seq<(Seq<char>, Seq<char>)>) -> bool {
    forall|i: int, j: int|
        0 <= i < j < pairs.len() ==> str_lt(#[trigger] pairs[i].0, #[trigger] pairs[j].0)
}

/// Whether some pair of the sequence has the key.
pub open spec fn has_key(pairs: Seq<(Seq<char>, Seq<char>)>, key: Seq<char>) -> bool {
    exists|i: int| 0 <= i < pairs.len() && #[trigger] pairs[i].0 == key
}

/// The one sorted sequence of pairs that stands for a mapping.
pub open spec fn canonical_pairs(m: Map<Seq<char>, Seq<char>>) -> Seq<(Seq<char>, Seq<char>)> {
    choose|p: Seq<(Seq<char>, Seq<char>)>| sorted_pairs(p) && to_map(p) == m
}

/// The domain of `insert_all(m, pairs)` is that of `m` and the keys of `pairs`.
pub proof fn lemma_insert_all_dom(
    m: Map<Seq<char>, Seq<char>>,
    pairs: Seq<(Seq<char>, Seq<char>)>,
    key: Seq<char>,
)
    ensures
        insert_all(m, pairs).dom().contains(key) <==> (m.dom().contains(key) || has_key(
            pairs,
            key,
        )),
    decreases pairs.len(),
{
    if pairs.len() > 0 {
        let init = pairs.drop_last();
        lemma_insert_all_dom(m, init, key);
        if has_key(pairs, key) {
            let i = choose|i: int| 0 <= i < pairs.len() && #[trigger] pairs[i].0 == key;
            if i < pairs.len() - 1 {
                assert(init[i].0 == key);
            }
        }
        if has_key(init, key) {
            let i = choose|i: int| 0 <= i < init.len() && #[trigger] init[i].0 == key;
            assert(pairs[i].0 == key);
        }
        if pairs.last().0 == key {
            assert(pairs[pairs.len() - 1].0 == key);
        }
    }
}

/// With distinct keys, every pair is found in the mapping under its key.
pub proof fn lemma_to_map_lookup(pairs: Seq<(Seq<char>, Seq<char>)>, i: int)
    requires
        sorted_pairs(pairs),
        0 <= i < pairs.len(),
    ensures
        to_map(pairs).dom().contains(pairs[i].0),
        to_map(pairs)[pairs[i].0] == pairs[i].1,
    decreases pairs.len(),
{
    let init = pairs.drop_last();
    if i < pairs.len() - 1 {
        assert(forall|a: int, b: int|
            0 <= a < b < init.len() ==> str_lt(#[trigger] init[a].0, #[trigger] init[b].0)) by {
            assert forall|a: int, b: int| 0 <= a < b < init.len() implies str_lt(
                #[trigger] init[a].0,
                #[trigger] init[b].0,
            ) by {
                assert(init[a] == pairs[a]);
                assert(init[b] == pairs[b]);
            }
        }
        lemma_to_map_lookup(init, i);
        assert(init[i] == pairs[i]);
        assert(str_lt(pairs[i].0, pairs[pairs.len() - 1].0));
        lemma_str_lt_order(pairs[i].0, pairs[i].0, pairs[i].0);
    }
}

/// A sorted sequence of pairs has as many pairs as its mapping has keys.
pub proof fn lemma_to_map_len(pairs: Seq<(Seq<char>, Seq<char>)>)
    requires
        sorted_pairs(pairs),
    ensures
        to_map(pairs).dom().finite(),
        to_map(pairs).dom().len() == pairs.len(),
    decreases pairs.len(),
{
    if pairs.len() > 0 {
        let init = pairs.drop_last();
        assert forall|a: int, b: int| 0 <= a < b < init.len() implies str_lt(
            #[trigger] init[a].0,
            #[trigger] init[b].0,
        ) by {
            assert(init[a] == pairs[a]);
            assert(init[b] == pairs[b]);
        }
        lemma_to_map_len(init);
        let k = pairs.last().0;
        lemma_insert_all_dom(Map::empty(), init, k);
        if has_key(init, k) {
            let i = choose|i: int| 0 <= i < init.len() && #[trigger] init[i].0 == k;
            assert(pairs[i] == init[i]);
            assert(str_lt(pairs[i].0, pairs[pairs.len() - 1].0));
            lemma_str_lt_order(k, k, k);
        }
        assert(to_map(pairs).dom() =~= to_map(init).dom().insert(k));
    }
}

/// Two sorted sequences of pairs that stand for the same mapping are equal.
pub proof fn lemma_sorted_pairs_unique(
    p: Seq<(Seq<char>, Seq<char>)>,
    q: Seq<(Seq<char>, Seq<char>)>,
)
    requires
        sorted_pairs(p),
        sorted_pairs(q),
        to_map(p) == to_map(q),
    ensures
        p == q,
    decreases p.len(),
{
    lemma_to_map_len(p);
    lemma_to_map_len(q);
    if p.len() > 0 {
        let pl = p.last();
        let ql = q.last();
        // The greatest key of each side occurs on the other side.
        lemma_to_map_lookup(p, p.len() - 1);
        lemma_to_map_lookup(q, q.len() - 1);
        lemma_insert_all_dom(Map::empty(), q, pl.0);
        lemma_insert_all_dom(Map::empty(), p, ql.0);
        let i = choose|i: int| 0 <= i < q.len() && #[trigger] q[i].0 == pl.0;
        let j = choose|j: int| 0 <= j < p.len() && #[trigger] p[j].0 == ql.0;
        lemma_str_lt_order(pl.0, ql.0, pl.0);
        if i < q.len() - 1 {
            assert(str_lt(q[i].0, q[q.len() - 1].0));
        }
        if j < p.len() - 1 {
            assert(str_lt(p[j].0, p[p.len() - 1].0));
        }
        assert(pl.0 == ql.0);
        assert(pl.1 == ql.1);
        let pi = p.drop_last();
        let qi = q.drop_last();
        assert forall|a: int, b: int| 0 <= a < b < pi.len() implies str_lt(
            #[trigger] pi[a].0,
            #[trigger] pi[b].0,
        ) by {
            assert(pi[a] == p[a]);
            assert(pi[b] == p[b]);
        }
        assert forall|a: int, b: int| 0 <= a < b < qi.len() implies str_lt(
            #[trigger] qi[a].0,
            #[trigger] qi[b].0,
        ) by {
            assert(qi[a] == q[a]);
            assert(qi[b] == q[b]);
        }
        // Removing the greatest key from both mappings leaves the two prefixes.
        lemma_insert_all_dom(Map::empty(), pi, pl.0);
        lemma_insert_all_dom(Map::empty(), qi, ql.0);
        if has_key(pi, pl.0) {
            let a = choose|a: int| 0 <= a < pi.len() && #[trigger] pi[a].0 == pl.0;
            assert(pi[a] == p[a]);
            assert(str_lt(p[a].0, p[p.len() - 1].0));
        }
        if has_key(qi, ql.0) {
            let a = choose|a: int| 0 <= a < qi.len() && #[trigger] qi[a].0 == ql.0;
            assert(qi[a] == q[a]);
            assert(str_lt(q[a].0, q[q.len() - 1].0));
        }
        assert(to_map(pi) =~= to_map(p).remove(pl.0));
        assert(to_map(qi) =~= to_map(q).remove(ql.0));
        lemma_sorted_pairs_unique(pi, qi);
        assert(p =~= pi.push(pl));
        assert(q =~= qi.push(ql));
    } else {
        assert(p =~= q);
    }
}

/// A mapping is the one that a sorted sequence of pairs stands for as soon as
/// it holds each pair under its key and nothing else.
pub proof fn lemma_map_of_sorted(
    pairs: Seq<(Seq<char>, Seq<char>)>,
    m: Map<Seq<char>, Seq<char>>,
)
    requires
        sorted_pairs(pairs),
        forall|i: int|
            0 <= i < pairs.len() ==> m.dom().contains(#[trigger] pairs[i].0) && m[pairs[i].0]
                == pairs[i].1,
        forall|k: Seq<char>| m.dom().contains(k) ==> has_key(pairs, k),
    ensures
        to_map(pairs) == m,
{
    let t = to_map(pairs);
    assert forall|k: Seq<char>| t.dom().contains(k) <==> m.dom().contains(k) by {
        lemma_insert_all_dom(Map::empty(), pairs, k);
        if has_key(pairs, k) {
            let i = choose|i: int| 0 <= i < pairs.len() && #[trigger] pairs[i].0 == k;
            assert(m.dom().contains(pairs[i].0));
        }
    }
    assert forall|k: Seq<char>| t.dom().contains(k) implies t[k] == m[k] by {
        lemma_insert_all_dom(Map::empty(), pairs, k);
        let i = choose|i: int| 0 <= i < pairs.len() && #[trigger] pairs[i].0 == k;
        lemma_to_map_lookup(pairs, i);
        assert(m[pairs[i].0] == pairs[i].1);
    }
    assert(t =~= m);
}

/// A sorted sequence of pairs is the canonical one of its mapping.
pub proof fn lemma_canonical_pairs(p: Seq<(Seq<char>, Seq<char>)>)
    requires
        sorted_pairs(p),
    ensures
        canonical_pairs(to_map(p)) == p,
{
    let q = canonical_pairs(to_map(p));
    assert(sorted_pairs(q) && to_map(q) == to_map(p));
    lemma_sorted_pairs_unique(q, p);
}

/// Putting a pair with a new key at its place in a sorted sequence keeps
/// the sequence sorted and adds the pair to its mapping.
proof fn lemma_insert_sorted(p: Seq<(Seq<char>, Seq<char>)>, i: int, k: Seq<char>, v: Seq<char>)
    requires
        sorted_pairs(p),
        0 <= i <= p.len(),
        forall|j: int| 0 <= j < i ==> str_lt(#[trigger] p[j].0, k),
        forall|j: int| i <= j < p.len() ==> str_lt(k, #[trigger] p[j].0),
    ensures
        sorted_pairs(p.insert(i, (k, v))),
        to_map(p.insert(i, (k, v))) == to_map(p).insert(k, v),
{
    let q = p.insert(i, (k, v));
    let m = to_map(p).insert(k, v);
    assert forall|a: int, b: int| 0 <= a < b < q.len() implies str_lt(
        #[trigger] q[a].0,
        #[trigger] q[b].0,
    ) by {
        if a < i && b > i {
            assert(str_lt(p[a].0, k));
            assert(str_lt(k, p[b - 1].0));
            lemma_str_lt_order(p[a].0, k, p[b - 1].0);
        } else if a < i && b < i {
            assert(str_lt(p[a].0, p[b].0));
        } else if a > i {
            assert(str_lt(p[a - 1].0, p[b - 1].0));
        } else if a == i {
            assert(str_lt(k, p[b - 1].0));
        } else {
            assert(str_lt(p[a].0, k));
        }
    }
    assert forall|j: int| 0 <= j < q.len() implies m.dom().contains(#[trigger] q[j].0) && m[q[j].0]
        == q[j].1 by {
        lemma_str_lt_order(k, k, k);
        if j < i {
            lemma_to_map_lookup(p, j);
            assert(str_lt(p[j].0, k));
        } else if j > i {
            lemma_to_map_lookup(p, j - 1);
            assert(str_lt(k, p[j - 1].0));
        }
    }
    assert forall|x: Seq<char>| m.dom().contains(x) implies has_key(q, x) by {
        lemma_insert_all_dom(Map::empty(), p, x);
        if x == k {
            assert(q[i].0 == x);
        } else {
            let j = choose|j: int| 0 <= j < p.len() && #[trigger] p[j].0 == x;
            if j < i {
                assert(q[j].0 == x);
            } else {
                assert(q[j + 1].0 == x);
            }
        }
    }
    lemma_map_of_sorted(q, m);
}

/// In a sorted sequence without the key `k` there is a place before which
/// all keys are less than `k` and from which on all are greater.
proof fn lemma_split_point(p: Seq<(Seq<char>, Seq<char>)>, k: Seq<char>) -> (i: int)
    requires
        sorted_pairs(p),
        !has_key(p, k),
    ensures
        0 <= i <= p.len(),
        forall|j: int| 0 <= j < i ==> str_lt(#[trigger] p[j].0, k),
        forall|j: int| i <= j < p.len() ==> str_lt(k, #[trigger] p[j].0),
    decreases p.len(),
{
    if p.len() == 0 {
        0
    } else {
        let last = p.last();
        assert(p[p.len() - 1].0 != k);
        lemma_str_lt_order(last.0, k, k);
        if str_lt(last.0, k) {
            assert forall|j: int| 0 <= j < p.len() implies str_lt(#[trigger] p[j].0, k) by {
                if j < p.len() - 1 {
                    assert(str_lt(p[j].0, p[p.len() - 1].0));
                    lemma_str_lt_order(p[j].0, last.0, k);
                }
            }
            p.len() as int
        } else {
            let init = p.drop_last();
            assert forall|a: int, b: int| 0 <= a < b < init.len() implies str_lt(
                #[trigger] init[a].0,
                #[trigger] init[b].0,
            ) by {
                assert(init[a] == p[a]);
                assert(init[b] == p[b]);
            }
            assert(!has_key(init, k)) by {
                if has_key(init, k) {
                    let j = choose|j: int| 0 <= j < init.len() && #[trigger] init[j].0 == k;
                    assert(p[j].0 == k);
                }
            }
            let i = lemma_split_point(init, k);
            assert forall|j: int| 0 <= j < i implies str_lt(#[trigger] p[j].0, k) by {
                assert(init[j] == p[j]);
            }
            assert forall|j: int| i <= j < p.len() implies str_lt(k, #[trigger] p[j].0) by {
                if j < p.len() - 1 {
                    assert(init[j] == p[j]);
                }
            }
            i
        }
    }
}

/// Every finite mapping is that of a sorted sequence of pairs.
pub proof fn lemma_sorted_pairs_exist(m: Map<Seq<char>, Seq<char>>)
    requires
        m.dom().finite(),
    ensures
        sorted_pairs(canonical_pairs(m)),
        to_map(canonical_pairs(m)) == m,
    decreases m.dom().len(),
{
    if m.dom().len() == 0 {
        let p = Seq::<(Seq<char>, Seq<char>)>::empty();
        assert(m.dom() =~= Set::empty());
        assert(to_map(p) =~= m);
        assert(sorted_pairs(p) && to_map(p) == m);
    } else {
        let k = m.dom().choose();
        let rest = m.remove(k);
        lemma_sorted_pairs_exist(rest);
        let p = canonical_pairs(rest);
        lemma_insert_all_dom(Map::empty(), p, k);
        let i = lemma_split_point(p, k);
        lemma_insert_sorted(p, i, k, m[k]);
        let q = p.insert(i, (k, m[k]));
        assert(rest.insert(k, m[k]) =~= m);
        assert(sorted_pairs(q) && to_map(q) == m);
    }
}

/// Folding pairs into `m` gives `m` overridden by the mapping of the pairs.
pub proof fn lemma_insert_all_union(
    m: Map<Seq<char>, Seq<char>>,
    pairs: Seq<(Seq<char>, Seq<char>)>,
)
    ensures
        insert_all(m, pairs) == m.union_prefer_right(to_map(pairs)),
    decreases pairs.len(),
{
    if pairs.len() == 0 {
        assert(insert_all(m, pairs) =~= m.union_prefer_right(to_map(pairs)));
    } else {
        lemma_insert_all_union(m, pairs.drop_last());
        assert(insert_all(m, pairs) =~= m.union_prefer_right(to_map(pairs)));
    }
}

/// A key-unique mapping from text to text, held in key order.
pub struct CredentialMap {
    entries: Vec<(String, String)>,
}

impl View for CredentialMap {
    type V = Map<Seq<char>, Seq<char>>;

    open spec fn view(&self) -> Map<Seq<char>, Seq<char>> {
        to_map(self.pairs())
    }
}

impl CredentialMap {
    /// The entries in key order, each as a pair of key and value.
    pub closed spec fn pairs(&self) -> Seq<(Seq<char>, Seq<char>)> {
        pair_views(self.entries@)
    }

    #[verifier::type_invariant]
    spec fn ordered(&self) -> bool {
        sorted_pairs(self.pairs())
    }

    /// The empty mapping.
    pub fn new() -> (m: CredentialMap)
        ensures
            m@ == Map::<Seq<char>, Seq<char>>::empty(),
            m.pairs() == Seq::<(Seq<char>, Seq<char>)>::empty(),
    {
        let m = CredentialMap { entries: Vec::new() };
        assert(m.pairs() =~= Seq::empty());
        m
    }

    /// The number of keys.
    pub fn len(&self) -> (n: usize)
        ensures
            n == self@.dom().len(),
            n == self.pairs().len(),
            self@.dom().finite(),
            sorted_pairs(self.pairs()),
    {
        proof {
            use_type_invariant(self);
            lemma_to_map_len(self.pairs());
        }
        self.entries.len()
    }

    /// Whether there is no key.
    pub fn is_empty(&self) -> (r: bool)
        ensures
            r == (self@ == Map::<Seq<char>, Seq<char>>::empty()),
            r == (self.pairs().len() == 0),
    {
        proof {
            use_type_invariant(self);
            lemma_to_map_len(self.pairs());
            if self.pairs().len() > 0 {
                lemma_to_map_lookup(self.pairs(), 0);
            }
        }
        self.entries.len() == 0
    }

    /// Where `key` stands, or where it would have to be put.
    fn position(&self, key: &str) -> (r: (usize, bool))
        ensures
            r.0 <= self.pairs().len(),
            forall|j: int| 0 <= j < r.0 ==> str_lt(#[trigger] self.pairs()[j].0, key@),
            r.1 ==> r.0 < self.pairs().len() && self.pairs()[r.0 as int].0 == key@,
            !r.1 ==> forall|j: int|
                r.0 <= j < self.pairs().len() ==> str_lt(key@, #[trigger] self.pairs()[j].0),
            r.1 == has_key(self.pairs(), key@),
    {
        proof {
            use_type_invariant(self);
        }
        let ghost pairs = self.pairs();
        let mut i: usize = 0;
        while i < self.entries.len()
            invariant
                pairs == self.pairs(),
                pairs.len() == self.entries@.len(),
                sorted_pairs(pairs),
                i <= pairs.len(),
                forall|j: int| 0 <= j < i ==> str_lt(#[trigger] pairs[j].0, key@),
            decreases pairs.len() - i,
        {
            let k = self.entries[i].0.as_str();
            assert(k@ == pairs[i as int].0);
            if str_eq(k, key) {
                proof {
                    assert(has_key(pairs, key@));
                }
                return (i, true);
            }
            if str_less(key, k) {
                proof {
                    assert forall|j: int| i <= j < pairs.len() implies str_lt(
                        key@,
                        #[trigger] pairs[j].0,
                    ) by {
                        if j > i {
                            assert(str_lt(pairs[i as int].0, pairs[j].0));
                            lemma_str_lt_order(key@, pairs[i as int].0, pairs[j].0);
                        }
                    }
                    assert forall|j: int| 0 <= j < pairs.len() implies pairs[j].0 != key@ by {
                        lemma_str_lt_order(key@, key@, key@);
                    }
                }
                return (i, false);
            }
            proof {
                lemma_str_lt_order(k@, key@, key@);
            }
            i += 1;
        }
        proof {
            assert forall|j: int| 0 <= j < pairs.len() implies pairs[j].0 != key@ by {
                lemma_str_lt_order(key@, key@, key@);
            }
        }
        (i, false)
    }

    /// Whether `key` has a value.
    pub fn contains_key(&self, key: &str) -> (r: bool)
        ensures
            r == self@.dom().contains(key@),
    {
        let (_, found) = self.position(key);
        proof {
            lemma_insert_all_dom(Map::empty(), self.pairs(), key@);
        }
        found
    }

    /// The value under `key`, if it has one.
    pub fn get(&self, key: &str) -> (r: Option<&String>)
        ensures
            r is Some == self@.dom().contains(key@),
            r matches Some(v) ==> v@ == self@[key@],
    {
        proof {
            use_type_invariant(self);
        }
        let (i, found) = self.position(key);
        proof {
            lemma_insert_all_dom(Map::empty(), self.pairs(), key@);
        }
        if found {
            proof {
                lemma_to_map_lookup(self.pairs(), i as int);
            }
            Some(&self.entries[i].1)
        } else {
            None
        }
    }

    /// Puts `value` under `key`, in place of the value that `key` had.
    pub fn insert(&mut self, key: String, value: String)
        ensures
            final(self)@ == old(self)@.insert(key@, value@),
    {
        proof {
            use_type_invariant(&*self);
        }
        let ghost before = self.pairs();
        let ghost m = self@.insert(key@, value@);
        let (i, found) = self.position(key.as_str());
        if found {
            let mut entries: Vec<(String, String)> = Vec::new();
            core::mem::swap(&mut self.entries, &mut entries);
            entries.set(i, (key, value));
            proof {
                let after = pair_views(entries@);
                assert(after =~= before.update(i as int, (key@, value@)));
                assert forall|a: int, b: int| 0 <= a < b < after.len() implies str_lt(
                    #[trigger] after[a].0,
                    #[trigger] after[b].0,
                ) by {
                    assert(str_lt(before[a].0, before[b].0));
                }
                assert forall|j: int| 0 <= j < after.len() implies m.dom().contains(
                    #[trigger] after[j].0,
                ) && m[after[j].0] == after[j].1 by {
                    lemma_to_map_lookup(before, j);
                    if j != i {
                        if j < i {
                            assert(str_lt(before[j].0, before[i as int].0));
                        } else {
                            assert(str_lt(before[i as int].0, before[j].0));
                        }
                        lemma_str_lt_order(key@, key@, key@);
                    }
                }
                assert forall|k: Seq<char>| m.dom().contains(k) implies has_key(after, k) by {
                    lemma_insert_all_dom(Map::empty(), before, k);
                    if k == key@ {
                        assert(after[i as int].0 == k);
                    } else {
                        let j = choose|j: int| 0 <= j < before.len() && #[trigger] before[j].0 == k;
                        assert(after[j].0 == k);
                    }
                }
                lemma_map_of_sorted(after, m);
            }
            self.entries = entries;
        } else {
            let mut entries: Vec<(String, String)> = Vec::new();
            core::mem::swap(&mut self.entries, &mut entries);
            entries.insert(i, (key, value));
            proof {
                assert(pair_views(entries@) =~= before.insert(i as int, (key@, value@)));
                lemma_insert_sorted(before, i as int, key@, value@);
            }
            self.entries = entries;
        }
    }

    /// Takes `key` out and returns the value it had, if it had one.
    pub fn remove(&mut self, key: &str) -> (r: Option<String>)
        ensures
            final(self)@ == old(self)@.remove(key@),
            r is Some == old(self)@.dom().contains(key@),
            r matches Some(v) ==> v@ == old(self)@[key@],
    {
        proof {
            use_type_invariant(&*self);
        }
        let ghost before = self.pairs();
        let ghost m = self@.remove(key@);
        let (i, found) = self.position(key);
        proof {
            lemma_insert_all_dom(Map::empty(), before, key@);
        }
        if found {
            proof {
                lemma_to_map_lookup(before, i as int);
            }
            let mut entries: Vec<(String, String)> = Vec::new();
            core::mem::swap(&mut self.entries, &mut entries);
            let e = entries.remove(i);
            proof {
                let after = pair_views(entries@);
                assert(after =~= before.remove(i as int));
                assert forall|a: int, b: int| 0 <= a < b < after.len() implies str_lt(
                    #[trigger] after[a].0,
                    #[trigger] after[b].0,
                ) by {
                    let a0 = if a < i { a } else { a + 1 };
                    let b0 = if b < i { b } else { b + 1 };
                    assert(str_lt(before[a0].0, before[b0].0));
                }
                assert forall|j: int| 0 <= j < after.len() implies m.dom().contains(
                    #[trigger] after[j].0,
                ) && m[after[j].0] == after[j].1 by {
                    lemma_str_lt_order(key@, key@, key@);
                    if j < i {
                        lemma_to_map_lookup(before, j);
                        assert(str_lt(before[j].0, before[i as int].0));
                    } else {
                        lemma_to_map_lookup(before, j + 1);
                        assert(str_lt(before[i as int].0, before[j + 1].0));
                    }
                }
                assert forall|k: Seq<char>| m.dom().contains(k) implies has_key(after, k) by {
                    lemma_insert_all_dom(Map::empty(), before, k);
                    let j = choose|j: int| 0 <= j < before.len() && #[trigger] before[j].0 == k;
                    if j < i {
                        assert(after[j].0 == k);
                    } else {
                        assert(after[j - 1].0 == k);
                    }
                }
                lemma_map_of_sorted(after, m);
            }
            self.entries = entries;
            Some(e.1)
        } else {
            proof {
                assert(m =~= self@);
            }
            None
        }
    }

    /// The entries in key order.
    pub fn entries(&self) -> (r: Vec<(String, String)>)
        ensures
            r@.len() == self.pairs().len(),
            forall|i: int|
                0 <= i < r@.len() ==> (#[trigger] r@[i]).0@ == self.pairs()[i].0 && r@[i].1@
                    == self.pairs()[i].1,
            sorted_pairs(self.pairs()),
    {
        proof {
            use_type_invariant(self);
        }
        let mut r: Vec<(String, String)> = Vec::new();
        let mut i: usize = 0;
        while i < self.entries.len()
            invariant
                i <= self.entries@.len(),
                r@.len() == i,
                self.pairs().len() == self.entries@.len(),
                forall|j: int|
                    0 <= j < i ==> (#[trigger] r@[j]).0@ == self.pairs()[j].0 && r@[j].1@
                        == self.pairs()[j].1,
            decreases self.entries@.len() - i,
        {
            let k = self.entries[i].0.clone();
            let v = self.entries[i].1.clone();
            r.push((k, v));
            i += 1;
        }
        r
    }

    /// Puts every entry of `other` into `self`; where both hold a key, the
    /// value of `other` stays.
    pub fn extend(&mut self, other: &CredentialMap)
        ensures
            final(self)@ == old(self)@.union_prefer_right(other@),
    {
        let ghost start = self@;
        let ghost pairs = other.pairs();
        let mut i: usize = 0;
        assert(pairs.take(0) =~= Seq::empty());
        while i < other.entries.len()
            invariant
                i <= other.entries@.len(),
                pairs == other.pairs(),
                pairs.len() == other.entries@.len(),
                self@ == insert_all(start, pairs.take(i as int)),
            decreases other.entries@.len() - i,
        {
            let k = other.entries[i].0.clone();
            let v = other.entries[i].1.clone();
            proof {
                assert(pairs.take(i as int + 1).drop_last() =~= pairs.take(i as int));
                assert(pairs.take(i as int + 1).last() == pairs[i as int]);
            }
            self.insert(k, v);
            i += 1;
        }
        proof {
            use_type_invariant(other);
            assert(pairs.take(i as int) =~= pairs);
            lemma_insert_all_union(start, pairs);
        }
    }
}

} // verus!
