//! The trigger table: trigger word -> replacement text, each trigger at most once.
use vstd::prelude::*;
use vstd::std_specs::cmp::PartialEqSpecImpl;

verus! {

/// Trigger word -> replacement text. A trigger occurs at most once; the
/// pairs are kept in the order in which their triggers were first inserted.
#[derive(Debug)]
pub struct TriggerMap {
    pairs: Vec<(String, String)>,
}

/// The triggers of a pair list, in order.
pub open spec fn keys_of(pairs: Seq<(String, String)>) -> Seq<Seq<char>> {
    pairs.map_values(|p: (String, String)| p.0@)
}

/// The index of trigger `k` in a pair list.
pub open spec fn index_of(pairs: Seq<(String, String)>, k: Seq<char>) -> int {
    choose|i: int| 0 <= i < pairs.len() && pairs[i].0@ == k
}

/// The map that a pair list without repeated triggers stands for.
pub open spec fn pairs_map(pairs: Seq<(String, String)>) -> Map<Seq<char>, Seq<char>> {
    Map::new(
        |k: Seq<char>| keys_of(pairs).contains(k),
        |k: Seq<char>| pairs[index_of(pairs, k)].1@,
    )
}

impl View for TriggerMap {
    type V = Map<Seq<char>, Seq<char>>;

    closed spec fn view(&self) -> Map<Seq<char>, Seq<char>> {
        pairs_map(self.pairs@)
    }
}

proof fn lemma_lookup(pairs: Seq<(String, String)>, i: int)
    requires
        keys_of(pairs).no_duplicates(),
        0 <= i < pairs.len(),
    ensures
        pairs_map(pairs).contains_key(pairs[i].0@),
        pairs_map(pairs)[pairs[i].0@] == pairs[i].1@,
{
    let k = pairs[i].0@;
    assert(keys_of(pairs)[i] == k);
    let j = index_of(pairs, k);
    assert(keys_of(pairs)[j] == k);
}

impl TriggerMap {
    #[verifier::type_invariant]
    spec fn no_repeated_trigger(self) -> bool {
        keys_of(self.pairs@).no_duplicates()
    }

    /// The empty table.
    pub fn new() -> (r: TriggerMap)
        ensures
            r@ == Map::<Seq<char>, Seq<char>>::empty(),
    {
        let r = TriggerMap { pairs: Vec::new() };
        assert(r@ =~= Map::<Seq<char>, Seq<char>>::empty());
        r
    }

    /// Number of triggers.
    pub fn len(&self) -> (r: usize)
        ensures
            r == self@.len(),
    {
        proof {
            use_type_invariant(self);
            let keys = keys_of(self.pairs@);
            keys.unique_seq_to_set();
            assert(self@.dom() =~= keys.to_set());
        }
        self.pairs.len()
    }

    /// Whether there is no trigger.
    pub fn is_empty(&self) -> (r: bool)
        ensures
            r == (self@.len() == 0),
    {
        self.len() == 0
    }

    fn position(&self, key: &str) -> (r: Option<usize>)
        ensures
            match r {
                Some(i) => i < self.pairs@.len() && self.pairs@[i as int].0@ == key@,
                None => !self@.contains_key(key@),
            },
    {
        let k = String::from_str(key);
        let mut i: usize = 0;
        while i < self.pairs.len()
            invariant
                k@ == key@,
                0 <= i <= self.pairs@.len(),
                forall|j: int| 0 <= j < i ==> self.pairs@[j].0@ != key@,
            decreases self.pairs@.len() - i,
        {
            if self.pairs[i].0 == k {
                return Some(i);
            }
            i += 1;
        }
        proof {
            if keys_of(self.pairs@).contains(key@) {
                let j = choose|j: int| 0 <= j < keys_of(self.pairs@).len() && keys_of(self.pairs@)[j] == key@;
                assert(self.pairs@[j].0@ == key@);
            }
        }
        None
    }

    /// Whether `key` is a trigger.
    pub fn contains_key(&self, key: &str) -> (r: bool)
        ensures
            r == self@.contains_key(key@),
    {
        proof {
            use_type_invariant(self);
        }
        match self.position(key) {
            Some(i) => {
                proof {
                    lemma_lookup(self.pairs@, i as int);
                }
                true
            },
            None => false,
        }
    }

    /// The replacement of trigger `key`, if it is one.
    pub fn get(&self, key: &str) -> (r: Option<&String>)
        ensures
            match r {
                Some(v) => self@.contains_key(key@) && v@ == self@[key@],
                None => !self@.contains_key(key@),
            },
    {
        proof {
            use_type_invariant(self);
        }
        match self.position(key) {
            Some(i) => {
                proof {
                    lemma_lookup(self.pairs@, i as int);
                }
                Some(&self.pairs[i].1)
            },
            None => None,
        }
    }

    /// Binds `key` to `value`, replacing any earlier replacement of `key`.
    pub fn insert(&mut self, key: String, value: String)
        ensures
            final(self)@ == old(self)@.insert(key@, value@),
    {
        proof {
            use_type_invariant(&*self);
        }
        let ghost old_map = self@;
        let ghost kv = key@;
        let ghost vv = value@;
        let pos = self.position(key.as_str());
        let mut pairs: Vec<(String, String)> = Vec::new();
        std::mem::swap(&mut pairs, &mut self.pairs);
        let ghost before = pairs@;
        match pos {
            Some(i) => {
                pairs.set(i, (key, value));
                proof {
                    let after = pairs@;
                    assert(keys_of(after) =~= keys_of(before).update(i as int, kv));
                    assert(keys_of(before)[i as int] == kv);
                    assert forall|a: int, b: int|
                        0 <= a < keys_of(after).len() && 0 <= b < keys_of(after).len() && a != b
                        implies keys_of(after)[a] != keys_of(after)[b] by {
                        assert(keys_of(before)[a] != keys_of(before)[b]);
                    }
                    assert forall|k: Seq<char>| #[trigger] keys_of(after).contains(k)
                        <==> old_map.insert(kv, vv).dom().contains(k) by {
                        if keys_of(after).contains(k) {
                            let j = choose|j: int| 0 <= j < keys_of(after).len() && keys_of(after)[j] == k;
                            if j != i {
                                assert(keys_of(before)[j] == k);
                            }
                        }
                        if old_map.contains_key(k) {
                            let j = choose|j: int| 0 <= j < keys_of(before).len() && keys_of(before)[j] == k;
                            if j != i {
                                assert(keys_of(after)[j] == k);
                            } else {
                                assert(keys_of(after)[i as int] == kv);
                            }
                        }
                        if k == kv {
                            assert(keys_of(after)[i as int] == kv);
                        }
                    }
                    assert forall|k: Seq<char>| #[trigger] keys_of(after).contains(k)
                        implies pairs_map(after)[k] == old_map.insert(kv, vv)[k] by {
                        let j = choose|j: int| 0 <= j < keys_of(after).len() && keys_of(after)[j] == k;
                        lemma_lookup(after, j);
                        if j != i {
                            assert(keys_of(before)[j] == k);
                            lemma_lookup(before, j);
                        }
                    }
                    assert(pairs_map(after) =~= old_map.insert(kv, vv));
                }
            },
            None => {
                pairs.push((key, value));
                proof {
                    let after = pairs@;
                    let n = before.len() as int;
                    assert(keys_of(after) =~= keys_of(before).push(kv));
                    assert(!keys_of(before).contains(kv));
                    assert forall|a: int, b: int|
                        0 <= a < keys_of(after).len() && 0 <= b < keys_of(after).len() && a != b
                        implies keys_of(after)[a] != keys_of(after)[b] by {
                        if a < n && b < n {
                            assert(keys_of(before)[a] != keys_of(before)[b]);
                        } else if a < n {
                            assert(keys_of(before)[a] == keys_of(after)[a]);
                        } else {
                            assert(keys_of(before)[b] == keys_of(after)[b]);
                        }
                    }
                    assert forall|k: Seq<char>| #[trigger] keys_of(after).contains(k)
                        <==> old_map.insert(kv, vv).dom().contains(k) by {
                        if keys_of(after).contains(k) {
                            let j = choose|j: int| 0 <= j < keys_of(after).len() && keys_of(after)[j] == k;
                            if j < n {
                                assert(keys_of(before)[j] == k);
                            }
                        }
                        if old_map.contains_key(k) {
                            let j = choose|j: int| 0 <= j < keys_of(before).len() && keys_of(before)[j] == k;
                            assert(keys_of(after)[j] == k);
                        }
                        if k == kv {
                            assert(keys_of(after)[n] == kv);
                        }
                    }
                    assert forall|k: Seq<char>| #[trigger] keys_of(after).contains(k)
                        implies pairs_map(after)[k] == old_map.insert(kv, vv)[k] by {
                        let j = choose|j: int| 0 <= j < keys_of(after).len() && keys_of(after)[j] == k;
                        lemma_lookup(after, j);
                        if j < n {
                            assert(keys_of(before)[j] == k);
                            lemma_lookup(before, j);
                        }
                    }
                    assert(pairs_map(after) =~= old_map.insert(kv, vv));
                }
            },
        }
        self.pairs = pairs;
    }
}

impl TriggerMap {
    /// Whether every trigger of `self` is a trigger of `other` with the same
    /// replacement.
    fn included_in(&self, other: &TriggerMap) -> (r: bool)
        ensures
            r == (forall|k: Seq<char>|
                #[trigger] self@.contains_key(k) ==> other@.contains_key(k) && other@[k]
                    == self@[k]),
    {
        proof {
            use_type_invariant(self);
        }
        let mut i: usize = 0;
        while i < self.pairs.len()
            invariant
                keys_of(self.pairs@).no_duplicates(),
                0 <= i <= self.pairs@.len(),
                forall|j: int|
                    0 <= j < i ==> other@.contains_key(#[trigger] self.pairs@[j].0@) && other@[self.pairs@[j].0@]
                        == self.pairs@[j].1@,
            decreases self.pairs@.len() - i,
        {
            let same = match other.get(self.pairs[i].0.as_str()) {
                Some(v) => *v == self.pairs[i].1,
                None => false,
            };
            if !same {
                proof {
                    let k = self.pairs@[i as int].0@;
                    lemma_lookup(self.pairs@, i as int);
                    assert(self@.contains_key(k) && !(other@.contains_key(k) && other@[k]
                        == self@[k]));
                }
                return false;
            }
            i += 1;
        }
        proof {
            assert forall|k: Seq<char>| #[trigger] self@.contains_key(k) implies other@.contains_key(k)
                && other@[k] == self@[k] by {
                let j = choose|j: int| 0 <= j < keys_of(self.pairs@).len() && keys_of(self.pairs@)[j] == k;
                assert(self.pairs@[j].0@ == k);
                lemma_lookup(self.pairs@, j);
            }
        }
        true
    }
}

impl Clone for TriggerMap {
    /// A table with the same triggers and replacements, in the same order.
    fn clone(&self) -> (r: TriggerMap)
        ensures
            r@ == self@,
    {
        proof {
            use_type_invariant(self);
        }
        let mut out: Vec<(String, String)> = Vec::new();
        let mut i: usize = 0;
        while i < self.pairs.len()
            invariant
                0 <= i <= self.pairs@.len(),
                out@.len() == i,
                forall|j: int|
                    0 <= j < i ==> (#[trigger] out@[j]).0@ == self.pairs@[j].0@ && out@[j].1@
                        == self.pairs@[j].1@,
            decreases self.pairs@.len() - i,
        {
            out.push((self.pairs[i].0.clone(), self.pairs[i].1.clone()));
            i += 1;
        }
        proof {
            assert(keys_of(out@) =~= keys_of(self.pairs@));
            assert forall|k: Seq<char>| #[trigger] keys_of(out@).contains(k) implies pairs_map(out@)[k]
                == pairs_map(self.pairs@)[k] by {
                let j = choose|j: int| 0 <= j < keys_of(out@).len() && keys_of(out@)[j] == k;
                lemma_lookup(out@, j);
                assert(keys_of(self.pairs@)[j] == k);
                lemma_lookup(self.pairs@, j);
            }
            assert(pairs_map(out@) =~= pairs_map(self.pairs@));
        }
        TriggerMap { pairs: out }
    }
}

impl PartialEq for TriggerMap {
    /// Whether the two tables bind the same triggers to the same
    /// replacements, whatever the order of insertion.
    fn eq(&self, other: &TriggerMap) -> (r: bool) {
        let r = self.included_in(other) && other.included_in(self);
        proof {
            if r {
                assert(self@ =~= other@);
            }
        }
        r
    }
}

impl PartialEqSpecImpl for TriggerMap {
    open spec fn obeys_eq_spec() -> bool {
        true
    }

    open spec fn eq_spec(&self, other: &TriggerMap) -> bool {
        self@ == other@
    }
}

} // verus!
