//! A finite map from normalized keys to strings, kept as a list of pairs
//! whose keys are pairwise distinct.

use vstd::prelude::*;

verus! {

/// The map that a list of pairs stands for: each pair inserted in turn, so
/// that a later pair overrides an earlier one with the same key.
pub open spec fn pairs_map(t: Seq<(String, String)>) -> Map<Seq<char>, Seq<char>>
    decreases t.len(),
{
    if t.len() == 0 {
        Map::empty()
    } else {
        pairs_map(t.drop_last()).insert(t.last().0@, t.last().1@)
    }
}

/// No two pairs share a key.
pub open spec fn keys_distinct(t: Seq<(String, String)>) -> bool {
    forall|i: int, j: int| 0 <= i < j < t.len() ==> #[trigger] t[i].0@ != #[trigger] t[j].0@
}

/// A key is in the map exactly when some pair holds it.
pub proof fn lemma_pairs_map_dom(t: Seq<(String, String)>, k: Seq<char>)
    ensures
        pairs_map(t).contains_key(k) <==> exists|i: int| 0 <= i < t.len() && #[trigger] t[i].0@ == k,
    decreases t.len(),
{
    if t.len() > 0 {
        lemma_pairs_map_dom(t.drop_last(), k);
        if pairs_map(t).contains_key(k) && k != t.last().0@ {
            let i = choose|i: int| 0 <= i < t.len() - 1 && #[trigger] t.drop_last()[i].0@ == k;
            assert(t[i].0@ == k);
        }
        if exists|i: int| 0 <= i < t.len() && #[trigger] t[i].0@ == k {
            let i = choose|i: int| 0 <= i < t.len() && #[trigger] t[i].0@ == k;
            if i < t.len() - 1 {
                assert(t.drop_last()[i].0@ == k);
            }
        }
    }
}

/// With distinct keys, the map gives each pair's key that pair's value.
pub proof fn lemma_pairs_map_at(t: Seq<(String, String)>, i: int)
    requires
        keys_distinct(t),
        0 <= i < t.len(),
    ensures
        pairs_map(t).contains_key(t[i].0@),
        pairs_map(t)[t[i].0@] == t[i].1@,
    decreases t.len(),
{
    if i < t.len() - 1 {
        assert(t.drop_last()[i] == t[i]);
        lemma_pairs_map_at(t.drop_last(), i);
        assert(t[i].0@ != t[t.len() - 1].0@);
    }
}

/// With distinct keys, the map has one key for each pair.
pub proof fn lemma_pairs_map_len(t: Seq<(String, String)>)
    requires
        keys_distinct(t),
    ensures
        pairs_map(t).dom().finite(),
        pairs_map(t).dom().len() == t.len(),
    decreases t.len(),
{
    if t.len() > 0 {
        let s = t.drop_last();
        assert(keys_distinct(s)) by {
            assert forall|i: int, j: int| 0 <= i < j < s.len() implies #[trigger] s[i].0@
                != #[trigger] s[j].0@ by {
                assert(s[i] == t[i] && s[j] == t[j]);
            }
        }
        lemma_pairs_map_len(s);
        lemma_pairs_map_dom(s, t.last().0@);
        if pairs_map(s).contains_key(t.last().0@) {
            let i = choose|i: int| 0 <= i < s.len() && #[trigger] s[i].0@ == t.last().0@;
            assert(s[i] == t[i]);
        }
    }
}

/// Finds the place of a key among the pairs.
fn find_key(t: &Vec<(String, String)>, k: &String) -> (r: Option<usize>)
    ensures
        match r {
            Some(i) => i < t@.len() && t@[i as int].0@ == k@,
            None => forall|i: int| 0 <= i < t@.len() ==> #[trigger] t@[i].0@ != k@,
        },
{
    let mut i: usize = 0;
    while i < t.len()
        invariant
            i <= t@.len(),
            forall|j: int| 0 <= j < i ==> #[trigger] t@[j].0@ != k@,
        decreases t@.len() - i,
    {
        if t[i].0 == *k {
            return Some(i);
        }
        i = i + 1;
    }
    None
}

/// A map from normalized keys to strings.
pub struct KeyTable {
    pairs: Vec<(String, String)>,
}

impl View for KeyTable {
    type V = Map<Seq<char>, Seq<char>>;

    closed spec fn view(&self) -> Map<Seq<char>, Seq<char>> {
        pairs_map(self.pairs@)
    }
}

impl KeyTable {
    /// The table's pairs hold distinct keys.
    pub closed spec fn wf(&self) -> bool {
        keys_distinct(self.pairs@)
    }

    /// A table with no keys.
    pub fn new() -> (r: KeyTable)
        ensures
            r.wf(),
            r@ == Map::<Seq<char>, Seq<char>>::empty(),
    {
        KeyTable { pairs: Vec::new() }
    }

    /// Maps `k` to `v`, replacing what `k` was mapped to before.
    pub fn insert(&mut self, k: String, v: String)
        requires
            old(self).wf(),
        ensures
            final(self).wf(),
            final(self)@ == old(self)@.insert(k@, v@),
    {
        let ghost t0 = self.pairs@;
        match find_key(&self.pairs, &k) {
            Some(i) => {
                self.pairs.set(i, (k, v));
                let ghost t1 = self.pairs@;
                assert(keys_distinct(t1)) by {
                    assert forall|a: int, b: int| 0 <= a < b < t1.len() implies #[trigger] t1[a].0@
                        != #[trigger] t1[b].0@ by {
                        assert(t1[a].0@ == t0[a].0@ && t1[b].0@ == t0[b].0@);
                    }
                }
                assert forall|x: Seq<char>| #[trigger]
                    pairs_map(t1).contains_key(x) == pairs_map(t0).insert(k@, v@).contains_key(x)
                    && (pairs_map(t1).contains_key(x) ==> pairs_map(t1)[x] == pairs_map(t0).insert(
                    k@,
                    v@,
                )[x]) by {
                    lemma_pairs_map_dom(t0, x);
                    lemma_pairs_map_dom(t1, x);
                    lemma_pairs_map_at(t0, i as int);
                    lemma_pairs_map_at(t1, i as int);
                    if x != k@ && pairs_map(t0).contains_key(x) {
                        let j = choose|j: int| 0 <= j < t0.len() && #[trigger] t0[j].0@ == x;
                        lemma_pairs_map_at(t0, j);
                        lemma_pairs_map_at(t1, j);
                    }
                    if x != k@ && pairs_map(t1).contains_key(x) {
                        let j = choose|j: int| 0 <= j < t1.len() && #[trigger] t1[j].0@ == x;
                        assert(t0[j].0@ == x);
                    }
                }
                assert(pairs_map(t1) =~= pairs_map(t0).insert(k@, v@));
            },
            None => {
                self.pairs.push((k, v));
                assert(self.pairs@.drop_last() =~= t0);
            },
        }
    }

    /// What `k` is mapped to, if anything.
    pub fn get(&self, k: &String) -> (r: Option<String>)
        requires
            self.wf(),
        ensures
            match r {
                Some(v) => self@.contains_key(k@) && v@ == self@[k@],
                None => !self@.contains_key(k@),
            },
    {
        proof {
            lemma_pairs_map_dom(self.pairs@, k@);
        }
        match find_key(&self.pairs, k) {
            Some(i) => {
                proof {
                    lemma_pairs_map_at(self.pairs@, i as int);
                }
                Some(self.pairs[i].1.clone())
            },
            None => None,
        }
    }

    /// Whether `k` is mapped to anything.
    pub fn contains_key(&self, k: &String) -> (r: bool)
        requires
            self.wf(),
        ensures
            r == self@.contains_key(k@),
    {
        proof {
            lemma_pairs_map_dom(self.pairs@, k@);
        }
        find_key(&self.pairs, k).is_some()
    }

    /// The values of the table, one for each key.
    pub fn values(&self) -> (r: Vec<String>)
        requires
            self.wf(),
        ensures
            r@.len() == self@.dom().len(),
            forall|v: Seq<char>|
                self@.values().contains(v) <==> exists|i: int|
                    0 <= i < r@.len() && #[trigger] r@[i]@ == v,
    {
        let mut r: Vec<String> = Vec::new();
        let mut i: usize = 0;
        while i < self.pairs.len()
            invariant
                i <= self.pairs@.len(),
                r@.len() == i,
                forall|j: int| 0 <= j < i ==> #[trigger] r@[j]@ == self.pairs@[j].1@,
            decreases self.pairs@.len() - i,
        {
            r.push(self.pairs[i].1.clone());
            i = i + 1;
        }
        let ghost t = self.pairs@;
        proof {
            lemma_pairs_map_len(t);
            assert forall|v: Seq<char>|
                self@.values().contains(v) <==> exists|i: int|
                    0 <= i < r@.len() && #[trigger] r@[i]@ == v by {
                if self@.values().contains(v) {
                    let x = choose|x: Seq<char>| #[trigger]
                        pairs_map(t).contains_key(x) && pairs_map(t)[x] == v;
                    lemma_pairs_map_dom(t, x);
                    let j = choose|j: int| 0 <= j < t.len() && #[trigger] t[j].0@ == x;
                    lemma_pairs_map_at(t, j);
                    assert(r@[j]@ == v);
                }
                if exists|i: int| 0 <= i < r@.len() && #[trigger] r@[i]@ == v {
                    let j = choose|j: int| 0 <= j < r@.len() && #[trigger] r@[j]@ == v;
                    lemma_pairs_map_at(t, j);
                    assert(pairs_map(t).contains_key(t[j].0@) && pairs_map(t)[t[j].0@] == v);
                }
            }
        }
        r
    }
}

} // verus!
