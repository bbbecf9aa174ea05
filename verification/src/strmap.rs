//! A string-keyed map with verified lookup and insertion, used for request
//! fields and headers, response header entries and argument builders.  Its
//! view is a `Map<Seq<char>, Seq<char>>`.

use vstd::prelude::*;

verus! {

/// Association list of key/value pairs with pairwise distinct keys.
pub struct StrMap {
    pairs: Vec<(String, String)>,
}

pub open spec fn pair_keys_distinct(s: Seq<(String, String)>) -> bool {
    forall|i: int, j: int| 0 <= i < j < s.len() ==> s[i].0@ != s[j].0@
}

/// The finite map an association list denotes; later pairs win.
pub open spec fn assoc_map(s: Seq<(String, String)>) -> Map<Seq<char>, Seq<char>>
    decreases s.len(),
{
    if s.len() == 0 {
        Map::empty()
    } else {
        assoc_map(s.drop_last()).insert(s.last().0@, s.last().1@)
    }
}

pub proof fn lemma_assoc_map_contains(s: Seq<(String, String)>, k: Seq<char>)
    ensures
        assoc_map(s).contains_key(k) <==> exists|i: int| 0 <= i < s.len() && s[i].0@ == k,
    decreases s.len(),
{
    if s.len() == 0 {
    } else {
        lemma_assoc_map_contains(s.drop_last(), k);
        if assoc_map(s).contains_key(k) {
            if s.last().0@ == k {
                assert(s[s.len() - 1].0@ == k);
            } else {
                let i = choose|i: int| 0 <= i < s.drop_last().len() && s.drop_last()[i].0@ == k;
                assert(s[i].0@ == k);
            }
        }
        if exists|i: int| 0 <= i < s.len() && s[i].0@ == k {
            let i = choose|i: int| 0 <= i < s.len() && s[i].0@ == k;
            if i < s.len() - 1 {
                assert(s.drop_last()[i].0@ == k);
            }
        }
    }
}

pub proof fn lemma_assoc_map_get(s: Seq<(String, String)>, i: int)
    requires
        pair_keys_distinct(s),
        0 <= i < s.len(),
    ensures
        assoc_map(s).contains_key(s[i].0@),
        assoc_map(s)[s[i].0@] == s[i].1@,
    decreases s.len(),
{
    if i == s.len() - 1 {
    } else {
        assert(pair_keys_distinct(s.drop_last()));
        assert(s.drop_last()[i] == s[i]);
        lemma_assoc_map_get(s.drop_last(), i);
        assert(s.last().0@ != s[i].0@);
    }
}

pub proof fn lemma_assoc_map_remove(s: Seq<(String, String)>, i: int)
    requires
        pair_keys_distinct(s),
        0 <= i < s.len(),
    ensures
        assoc_map(s.remove(i)) == assoc_map(s).remove(s[i].0@),
    decreases s.len(),
{
    let k = s[i].0@;
    if i == s.len() - 1 {
        assert(s.remove(i) =~= s.drop_last());
        lemma_assoc_map_contains(s.drop_last(), k);
        assert forall|j: int| 0 <= j < s.drop_last().len() implies s.drop_last()[j].0@ != k by {
            assert(s[j].0@ != s[s.len() - 1].0@);
        }
        assert(!assoc_map(s.drop_last()).contains_key(k));
        assert(assoc_map(s).remove(k) =~= assoc_map(s.drop_last()));
    } else {
        assert(pair_keys_distinct(s.drop_last()));
        assert(s.drop_last()[i] == s[i]);
        lemma_assoc_map_remove(s.drop_last(), i);
        assert(s.remove(i).drop_last() =~= s.drop_last().remove(i));
        assert(s.remove(i).last() == s.last());
        assert(s.last().0@ != k);
        assert(assoc_map(s.remove(i)) == assoc_map(s.drop_last().remove(i)).insert(
            s.last().0@,
            s.last().1@,
        ));
        assert(assoc_map(s.drop_last()).remove(k).insert(s.last().0@, s.last().1@)
            =~= assoc_map(s.drop_last()).insert(s.last().0@, s.last().1@).remove(k));
    }
}

pub proof fn lemma_assoc_map_len(s: Seq<(String, String)>)
    requires
        pair_keys_distinct(s),
    ensures
        assoc_map(s).dom().finite(),
        assoc_map(s).dom().len() == s.len(),
    decreases s.len(),
{
    if s.len() == 0 {
        assert(assoc_map(s).dom() =~= Set::<Seq<char>>::empty());
    } else {
        assert(pair_keys_distinct(s.drop_last()));
        lemma_assoc_map_len(s.drop_last());
        lemma_assoc_map_contains(s.drop_last(), s.last().0@);
        assert forall|j: int| 0 <= j < s.drop_last().len() implies s.drop_last()[j].0@
            != s.last().0@ by {
            assert(s[j].0@ != s[s.len() - 1].0@);
        }
        assert(!assoc_map(s.drop_last()).contains_key(s.last().0@));
        assert(assoc_map(s).dom() == assoc_map(s.drop_last()).dom().insert(s.last().0@));
    }
}

impl View for StrMap {
    type V = Map<Seq<char>, Seq<char>>;

    closed spec fn view(&self) -> Map<Seq<char>, Seq<char>> {
        assoc_map(self.pairs@)
    }
}

impl StrMap {
    #[verifier::type_invariant]
    spec fn wf(&self) -> bool {
        pair_keys_distinct(self.pairs@)
    }

    /// The empty map.
    pub fn new() -> (r: StrMap)
        ensures
            r@ == Map::<Seq<char>, Seq<char>>::empty(),
    {
        StrMap { pairs: Vec::new() }
    }

    /// Index of the pair holding `key`, if any.
    fn index_of(&self, key: &str) -> (r: Option<usize>)
        ensures
            match r {
                Some(i) => i < self.pairs@.len() && self.pairs@[i as int].0@ == key@,
                None => forall|j: int| 0 <= j < self.pairs@.len() ==> self.pairs@[j].0@ != key@,
            },
    {
        find_key(&self.pairs, key)
    }

    /// The value stored under `key`, if any.
    pub fn get(&self, key: &str) -> (r: Option<String>)
        ensures
            match r {
                Some(v) => self@.contains_key(key@) && v@ == self@[key@],
                None => !self@.contains_key(key@),
            },
    {
        proof {
            use_type_invariant(self);
        }
        match self.index_of(key) {
            Some(i) => {
                proof {
                    lemma_assoc_map_get(self.pairs@, i as int);
                }
                Some(self.pairs[i].1.clone())
            },
            None => {
                proof {
                    lemma_assoc_map_contains(self.pairs@, key@);
                }
                None
            },
        }
    }

    /// Whether `key` is present.
    pub fn contains_key(&self, key: &str) -> (r: bool)
        ensures
            r == self@.contains_key(key@),
    {
        proof {
            use_type_invariant(self);
        }
        match self.index_of(key) {
            Some(i) => {
                proof {
                    lemma_assoc_map_get(self.pairs@, i as int);
                }
                true
            },
            None => {
                proof {
                    lemma_assoc_map_contains(self.pairs@, key@);
                }
                false
            },
        }
    }

    /// Store `value` under `key`, replacing any earlier value.
    pub fn insert(&mut self, key: &str, value: &str)
        ensures
            final(self)@ == old(self)@.insert(key@, value@),
    {
        proof {
            use_type_invariant(&*self);
        }
        let k = key.to_owned();
        let v = value.to_owned();
        let mut ps: Vec<(String, String)> = Vec::new();
        core::mem::swap(&mut ps, &mut self.pairs);
        let ghost before = ps@;
        match find_key(&ps, key) {
            Some(i) => {
                proof {
                    lemma_assoc_map_remove(ps@, i as int);
                }
                ps.remove(i);
                proof {
                    assert(pair_keys_distinct(ps@)) by {
                        assert forall|a: int, b: int| 0 <= a < b < ps@.len() implies ps@[a].0@
                            != ps@[b].0@ by {
                            let a0 = if a < i { a } else { a + 1 };
                            let b0 = if b < i { b } else { b + 1 };
                            assert(ps@[a] == before[a0]);
                            assert(ps@[b] == before[b0]);
                        }
                    }
                    lemma_assoc_map_contains(ps@, key@);
                    assert forall|j: int| 0 <= j < ps@.len() implies ps@[j].0@ != key@ by {
                        let j0 = if j < i { j } else { j + 1 };
                        assert(ps@[j] == before[j0]);
                    }
                }
                ps.push((k, v));
                proof {
                    assert(ps@.drop_last() =~= before.remove(i as int));
                    assert(assoc_map(ps@) =~= old(self)@.insert(key@, value@));
                }
            },
            None => {
                proof {
                    lemma_assoc_map_contains(ps@, key@);
                }
                ps.push((k, v));
                proof {
                    assert(ps@.drop_last() =~= before);
                }
            },
        }
        self.pairs = ps;
    }

    /// Store `value` under `key` only when `key` is absent; the first value
    /// stored under a key wins.
    pub fn insert_if_absent(&mut self, key: &str, value: &str)
        ensures
            final(self)@ == if old(self)@.contains_key(key@) {
                old(self)@
            } else {
                old(self)@.insert(key@, value@)
            },
    {
        if !self.contains_key(key) {
            self.insert(key, value);
        }
    }

    /// The number of keys.
    pub fn len(&self) -> (r: usize)
        ensures
            self@.dom().finite(),
            r == self@.dom().len(),
    {
        proof {
            use_type_invariant(self);
            lemma_assoc_map_len(self.pairs@);
        }
        self.pairs.len()
    }
}

impl Clone for StrMap {
    /// A clone has the same view.
    fn clone(&self) -> (r: Self)
        ensures
            r@ == self@,
    {
        proof {
            use_type_invariant(self);
        }
        let mut pairs: Vec<(String, String)> = Vec::new();
        let mut i: usize = 0;
        while i < self.pairs.len()
            invariant
                0 <= i <= self.pairs@.len(),
                pairs@.len() == i,
                forall|j: int| 0 <= j < i ==> pairs@[j].0@ == self.pairs@[j].0@,
                forall|j: int| 0 <= j < i ==> pairs@[j].1@ == self.pairs@[j].1@,
                pair_keys_distinct(self.pairs@),
            decreases self.pairs@.len() - i,
        {
            let k = self.pairs[i].0.clone();
            let v = self.pairs[i].1.clone();
            pairs.push((k, v));
            i = i + 1;
        }
        let r = StrMap { pairs };
        proof {
            assert(pair_keys_distinct(r.pairs@));
            lemma_assoc_map_views_equal(r.pairs@, self.pairs@);
        }
        r
    }
}

/// Index of the first pair of `ps` holding `key`, if any.
fn find_key(ps: &Vec<(String, String)>, key: &str) -> (r: Option<usize>)
    ensures
        match r {
            Some(i) => i < ps@.len() && ps@[i as int].0@ == key@,
            None => forall|j: int| 0 <= j < ps@.len() ==> ps@[j].0@ != key@,
        },
{
    let mut i: usize = 0;
    while i < ps.len()
        invariant
            0 <= i <= ps@.len(),
            forall|j: int| 0 <= j < i ==> ps@[j].0@ != key@,
        decreases ps@.len() - i,
    {
        if crate::strutil::str_eq(ps[i].0.as_str(), key) {
            return Some(i);
        }
        i = i + 1;
    }
    None
}

/// Association lists with pairwise view-equal pairs denote the same map.
proof fn lemma_assoc_map_views_equal(a: Seq<(String, String)>, b: Seq<(String, String)>)
    requires
        a.len() == b.len(),
        forall|j: int| 0 <= j < a.len() ==> a[j].0@ == b[j].0@,
        forall|j: int| 0 <= j < a.len() ==> a[j].1@ == b[j].1@,
    ensures
        assoc_map(a) == assoc_map(b),
    decreases a.len(),
{
    if a.len() > 0 {
        assert(forall|j: int|
            0 <= j < a.drop_last().len() ==> a.drop_last()[j].0@ == b.drop_last()[j].0@
                && a.drop_last()[j].1@ == b.drop_last()[j].1@);
        lemma_assoc_map_views_equal(a.drop_last(), b.drop_last());
        assert(assoc_map(a) =~= assoc_map(b));
    } else {
        assert(assoc_map(a) =~= assoc_map(b));
    }
}

} // verus!
