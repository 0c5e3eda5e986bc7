//! A small string-keyed map.
//!
//! Outputs caches, gathered inputs, per-instance results and setting
//! values are all maps from handle or instance names to values. This
//! module provides one verified container for them: an association list
//! with unique keys, abstracted as a `Map` from the key's character
//! sequence to the value's own model. Inserting an existing key replaces
//! its value, as a hash map would.

use vstd::prelude::*;

use crate::text::str_eq;

verus! {

/// A map from string keys to values, keyed by the key's characters.
#[derive(Debug)]
pub struct StrMap<V: View> {
    pairs: Vec<(String, V)>,
}

spec fn key_seq<V: View>(s: Seq<(String, V)>) -> Seq<Seq<char>> {
    s.map_values(|p: (String, V)| p.0@)
}

spec fn pairs_model<V: View>(s: Seq<(String, V)>) -> Map<Seq<char>, <V as View>::V>
    decreases s.len(),
{
    if s.len() == 0 {
        Map::<Seq<char>, <V as View>::V>::empty()
    } else {
        pairs_model(s.drop_last()).insert(s.last().0@, s.last().1@)
    }
}

proof fn lemma_model_keys<V: View>(s: Seq<(String, V)>)
    ensures
        pairs_model(s).dom().finite(),
        forall|k: Seq<char>| pairs_model(s).contains_key(k) <==> key_seq(s).contains(k),
    decreases s.len(),
{
    if s.len() > 0 {
        lemma_model_keys(s.drop_last());
        assert(key_seq(s.drop_last()) =~= key_seq(s).drop_last());
        assert forall|k: Seq<char>| pairs_model(s).contains_key(k) implies key_seq(s).contains(
            k,
        ) by {
            if k == s.last().0@ {
                assert(key_seq(s)[s.len() - 1] == k);
            } else {
                assert(pairs_model(s.drop_last()).contains_key(k));
                assert(key_seq(s.drop_last()).contains(k));
                let i = choose|i: int| 0 <= i < key_seq(s.drop_last()).len() && key_seq(
                    s.drop_last(),
                )[i] == k;
                assert(key_seq(s)[i] == k);
            }
        }
        assert forall|k: Seq<char>| key_seq(s).contains(k) implies pairs_model(s).contains_key(
            k,
        ) by {
            let i = choose|i: int| 0 <= i < key_seq(s).len() && key_seq(s)[i] == k;
            if i < s.len() - 1 {
                assert(key_seq(s.drop_last())[i] == k);
                assert(key_seq(s.drop_last()).contains(k));
                assert(pairs_model(s.drop_last()).contains_key(k));
            } else {
                assert(k == s.last().0@);
            }
        }
    }
}

proof fn lemma_model_len<V: View>(s: Seq<(String, V)>)
    requires
        key_seq(s).no_duplicates(),
    ensures
        pairs_model(s).dom().len() == s.len(),
    decreases s.len(),
{
    lemma_model_keys(s);
    if s.len() > 0 {
        assert(key_seq(s.drop_last()) =~= key_seq(s).drop_last());
        lemma_model_len(s.drop_last());
        lemma_model_keys(s.drop_last());
        assert(!key_seq(s.drop_last()).contains(s.last().0@)) by {
            if key_seq(s.drop_last()).contains(s.last().0@) {
                let i = choose|i: int| 0 <= i < key_seq(s.drop_last()).len() && key_seq(
                    s.drop_last(),
                )[i] == s.last().0@;
                assert(key_seq(s)[i] == key_seq(s)[s.len() - 1]);
            }
        }
        assert(pairs_model(s).dom() =~= pairs_model(s.drop_last()).dom().insert(s.last().0@));
    }
}

proof fn lemma_model_index<V: View>(s: Seq<(String, V)>, i: int)
    requires
        key_seq(s).no_duplicates(),
        0 <= i < s.len(),
    ensures
        pairs_model(s).contains_key(s[i].0@),
        pairs_model(s)[s[i].0@] == s[i].1@,
    decreases s.len(),
{
    assert(key_seq(s)[i] == s[i].0@);
    if i == s.len() - 1 {
    } else {
        assert(key_seq(s.drop_last()) =~= key_seq(s).drop_last());
        lemma_model_index(s.drop_last(), i);
        assert(key_seq(s)[s.len() - 1] == s.last().0@);
        assert(s[i].0@ != s.last().0@);
    }
}

proof fn lemma_model_update<V: View>(s: Seq<(String, V)>, i: int, p: (String, V))
    requires
        key_seq(s).no_duplicates(),
        0 <= i < s.len(),
        p.0@ == s[i].0@,
    ensures
        pairs_model(s.update(i, p)) == pairs_model(s).insert(p.0@, p.1@),
    decreases s.len(),
{
    let s2 = s.update(i, p);
    if i == s.len() - 1 {
        assert(s2.drop_last() =~= s.drop_last());
        assert(s2.last() == p);
        assert(pairs_model(s2) =~= pairs_model(s).insert(p.0@, p.1@));
    } else {
        assert(s2.drop_last() =~= s.drop_last().update(i, p));
        assert(s2.last() == s.last());
        assert(key_seq(s.drop_last()) =~= key_seq(s).drop_last());
        lemma_model_update(s.drop_last(), i, p);
        assert(key_seq(s)[i] == s[i].0@);
        assert(key_seq(s)[s.len() - 1] == s.last().0@);
        assert(s[i].0@ != s.last().0@);
        assert(pairs_model(s2) =~= pairs_model(s).insert(p.0@, p.1@));
    }
}

impl<V: View> View for StrMap<V> {
    type V = Map<Seq<char>, <V as View>::V>;

    closed spec fn view(&self) -> Map<Seq<char>, <V as View>::V> {
        pairs_model(self.pairs@)
    }
}

impl<V: View> StrMap<V> {
    #[verifier::type_invariant]
    spec fn inv(self) -> bool {
        key_seq(self.pairs@).no_duplicates()
    }

    /// An empty map.
    pub fn new() -> (r: StrMap<V>)
        ensures
            r@ == Map::<Seq<char>, <V as View>::V>::empty(),
    {
        StrMap { pairs: Vec::new() }
    }

    /// The number of entries.
    pub fn len(&self) -> (r: usize)
        ensures
            r == self@.dom().len(),
    {
        proof {
            use_type_invariant(self);
            lemma_model_len(self.pairs@);
        }
        self.pairs.len()
    }

    /// Whether the map holds an entry for `key`.
    pub fn contains_key(&self, key: &str) -> (r: bool)
        ensures
            r == self@.contains_key(key@),
    {
        match self.get(key) {
            Some(_) => true,
            None => false,
        }
    }

    /// The value stored under `key`, if any.
    #[verifier::loop_isolation(false)]
    pub fn get(&self, key: &str) -> (r: Option<&V>)
        ensures
            match r {
                Some(v) => self@.contains_key(key@) && v@ == self@[key@],
                None => !self@.contains_key(key@),
            },
    {
        proof {
            use_type_invariant(self);
            lemma_model_keys(self.pairs@);
        }
        let mut i: usize = 0;
        while i < self.pairs.len()
            invariant
                i <= self.pairs.len(),
                forall|j: int| 0 <= j < i ==> self.pairs@[j].0@ != key@,
            decreases self.pairs.len() - i,
        {
            if str_eq(self.pairs[i].0.as_str(), key) {
                proof {
                    lemma_model_index(self.pairs@, i as int);
                }
                return Some(&self.pairs[i].1);
            }
            i = i + 1;
        }
        proof {
            assert(!key_seq(self.pairs@).contains(key@)) by {
                if key_seq(self.pairs@).contains(key@) {
                    let j = choose|j: int| 0 <= j < key_seq(self.pairs@).len() && key_seq(
                        self.pairs@,
                    )[j] == key@;
                    assert(self.pairs@[j].0@ == key@);
                }
            }
        }
        None
    }

    /// Store `value` under `key`, replacing any existing entry.
    #[verifier::loop_isolation(false)]
    pub fn insert(&mut self, key: String, value: V)
        ensures
            final(self)@ == old(self)@.insert(key@, value@),
    {
        proof {
            use_type_invariant(&*self);
        }
        let ghost s0 = self.pairs@;
        let mut pairs: Vec<(String, V)> = Vec::new();
        core::mem::swap(&mut pairs, &mut self.pairs);
        let mut i: usize = 0;
        while i < pairs.len()
            invariant
                i <= pairs.len(),
                pairs@ == s0,
                key_seq(s0).no_duplicates(),
                forall|j: int| 0 <= j < i ==> pairs@[j].0@ != key@,
            decreases pairs.len() - i,
        {
            if str_eq(pairs[i].0.as_str(), key.as_str()) {
                proof {
                    lemma_model_update(s0, i as int, (key, value));
                }
                pairs[i] = (key, value);
                proof {
                    assert(key_seq(pairs@) =~= key_seq(s0));
                }
                core::mem::swap(&mut pairs, &mut self.pairs);
                return ;
            }
            i = i + 1;
        }
        proof {
            assert(!key_seq(s0).contains(key@)) by {
                if key_seq(s0).contains(key@) {
                    let j = choose|j: int| 0 <= j < key_seq(s0).len() && key_seq(s0)[j] == key@;
                    assert(s0[j].0@ == key@);
                }
            }
        }
        pairs.push((key, value));
        proof {
            assert(pairs@.drop_last() =~= s0);
            assert(key_seq(pairs@) =~= key_seq(s0).push(pairs@.last().0@));
        }
        core::mem::swap(&mut pairs, &mut self.pairs);
    }

    /// The entries as a list of key/value pairs, in insertion order.
    pub fn entries(&self) -> (r: &Vec<(String, V)>)
        ensures
            r@.len() == self@.dom().len(),
            forall|i: int|
                0 <= i < r@.len() ==> self@.contains_key(#[trigger] r@[i].0@) && self@[r@[i].0@]
                    == r@[i].1@,
            forall|k: Seq<char>|
                self@.contains_key(k) ==> exists|i: int| 0 <= i < r@.len() && #[trigger] r@[i].0@
                    == k,
    {
        proof {
            use_type_invariant(self);
            lemma_model_len(self.pairs@);
            lemma_model_keys(self.pairs@);
            assert forall|i: int| 0 <= i < self.pairs@.len() implies self@.contains_key(
                #[trigger] self.pairs@[i].0@,
            ) && self@[self.pairs@[i].0@] == self.pairs@[i].1@ by {
                lemma_model_index(self.pairs@, i);
            }
            assert forall|k: Seq<char>| self@.contains_key(k) implies exists|i: int|
                0 <= i < self.pairs@.len() && #[trigger] self.pairs@[i].0@ == k by {
                assert(key_seq(self.pairs@).contains(k));
                let i = choose|i: int| 0 <= i < key_seq(self.pairs@).len() && key_seq(
                    self.pairs@,
                )[i] == k;
                assert(self.pairs@[i].0@ == k);
            }
        }
        &self.pairs
    }

    /// The entries as an owned list of key/value pairs, in insertion
    /// order.
    pub fn into_entries(self) -> (r: Vec<(String, V)>)
        ensures
            r@.len() == self@.dom().len(),
            forall|i: int|
                0 <= i < r@.len() ==> self@.contains_key(#[trigger] r@[i].0@) && self@[r@[i].0@]
                    == r@[i].1@,
            forall|k: Seq<char>|
                self@.contains_key(k) ==> exists|i: int| 0 <= i < r@.len() && #[trigger] r@[i].0@
                    == k,
    {
        proof {
            use_type_invariant(&self);
            lemma_model_len(self.pairs@);
            lemma_model_keys(self.pairs@);
            assert forall|i: int| 0 <= i < self.pairs@.len() implies self@.contains_key(
                #[trigger] self.pairs@[i].0@,
            ) && self@[self.pairs@[i].0@] == self.pairs@[i].1@ by {
                lemma_model_index(self.pairs@, i);
            }
            assert forall|k: Seq<char>| self@.contains_key(k) implies exists|i: int|
                0 <= i < self.pairs@.len() && #[trigger] self.pairs@[i].0@ == k by {
                assert(key_seq(self.pairs@).contains(k));
                let i = choose|i: int| 0 <= i < key_seq(self.pairs@).len() && key_seq(
                    self.pairs@,
                )[i] == k;
                assert(self.pairs@[i].0@ == k);
            }
        }
        self.pairs
    }
}

} // verus!
