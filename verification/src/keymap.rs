//! A map from action names to stored keybindings.
//!
//! This is the in-memory form of the user's `keybindings.yaml`: each editable action name
//! maps to the binding stored for it. Names are unique; the map's view is a `Map` from the
//! name's characters to the stored value.

use vstd::prelude::*;
use crate::text::str_eq;

verus! {

/// Whether no two entries share a name.
pub open spec fn names_distinct<V>(s: Seq<(String, V)>) -> bool {
    forall|i: int, j: int| 0 <= i < j < s.len() ==> #[trigger] s[i].0@ != #[trigger] s[j].0@
}

/// Whether some entry of `s` is named `k`.
pub open spec fn has_name<V>(s: Seq<(String, V)>, k: Seq<char>) -> bool {
    exists|i: int| 0 <= i < s.len() && #[trigger] s[i].0@ == k
}

/// The map that a list of entries with distinct names stands for.
pub open spec fn entries_map<V>(s: Seq<(String, V)>) -> Map<Seq<char>, V> {
    Map::new(
        |k: Seq<char>| has_name(s, k),
        |k: Seq<char>| s[choose|i: int| 0 <= i < s.len() && #[trigger] s[i].0@ == k].1,
    )
}

/// In a list with distinct names, the map holds each entry's value under its name.
pub proof fn lemma_entries_map_at<V>(s: Seq<(String, V)>, i: int)
    requires
        names_distinct(s),
        0 <= i < s.len(),
    ensures
        entries_map(s).contains_key(s[i].0@),
        entries_map(s)[s[i].0@] == s[i].1,
{
    let k = s[i].0@;
    assert(has_name(s, k));
    let j = choose|j: int| 0 <= j < s.len() && #[trigger] s[j].0@ == k;
    if j != i {
        if i < j {
            assert(s[i].0@ != s[j].0@);
        } else {
            assert(s[j].0@ != s[i].0@);
        }
    }
}

/// A map from action names to stored values, with unique names.
pub struct KeybindingMap<V> {
    entries: Vec<(String, V)>,
}

impl<V> View for KeybindingMap<V> {
    type V = Map<Seq<char>, V>;

    closed spec fn view(&self) -> Map<Seq<char>, V> {
        entries_map(self.entries@)
    }
}

impl<V> KeybindingMap<V> {
    #[verifier::type_invariant]
    closed spec fn inv(self) -> bool {
        names_distinct(self.entries@)
    }

    /// An empty map.
    pub fn new() -> (r: Self)
        ensures
            r@ == Map::<Seq<char>, V>::empty(),
    {
        let r = KeybindingMap { entries: Vec::new() };
        assert(r@ =~= Map::<Seq<char>, V>::empty());
        r
    }

    /// The number of names in the map.
    pub fn len(&self) -> (r: usize)
        ensures
            r == self@.len(),
            self@.dom().finite(),
    {
        proof {
            use_type_invariant(self);
            self.lemma_dom_len();
        }
        self.entries.len()
    }

    proof fn lemma_dom_len(&self)
        requires
            names_distinct(self.entries@),
        ensures
            self@.dom().len() == self.entries@.len(),
            self@.dom().finite(),
    {
        let s = self.entries@;
        let keys = s.map_values(|e: (String, V)| e.0@);
        assert forall|i: int, j: int| 0 <= i < j < keys.len() implies keys[i] != keys[j] by {
            assert(s[i].0@ != s[j].0@);
        }
        assert(keys.no_duplicates());
        keys.unique_seq_to_set();
        assert(self@.dom() =~= keys.to_set()) by {
            assert forall|k: Seq<char>| self@.dom().contains(k) implies keys.to_set().contains(k) by {
                let i = choose|i: int| 0 <= i < s.len() && #[trigger] s[i].0@ == k;
                assert(keys[i] == k);
            }
            assert forall|k: Seq<char>| keys.to_set().contains(k) implies self@.dom().contains(k) by {
                let i = choose|i: int| 0 <= i < keys.len() && keys[i] == k;
                assert(s[i].0@ == k);
            }
        }
    }

    /// The position of the entry named `name`, if there is one.
    fn find(&self, name: &str) -> (r: Option<usize>)
        ensures
            match r {
                Some(i) => i < self.entries@.len() && self.entries@[i as int].0@ == name@,
                None => !has_name(self.entries@, name@),
            },
    {
        let mut i: usize = 0;
        while i < self.entries.len()
            invariant
                i <= self.entries@.len(),
                forall|j: int| 0 <= j < i ==> #[trigger] self.entries@[j].0@ != name@,
            decreases self.entries.len() - i,
        {
            if str_eq(self.entries[i].0.as_str(), name) {
                return Some(i);
            }
            i = i + 1;
        }
        None
    }

    /// Whether `name` is in the map.
    pub fn contains_key(&self, name: &str) -> (r: bool)
        ensures
            r == self@.contains_key(name@),
    {
        self.find(name).is_some()
    }

    /// The value stored under `name`, if any.
    pub fn get(&self, name: &str) -> (r: Option<&V>)
        ensures
            match r {
                Some(v) => self@.contains_key(name@) && *v == self@[name@],
                None => !self@.contains_key(name@),
            },
    {
        proof {
            use_type_invariant(self);
        }
        match self.find(name) {
            Some(i) => {
                proof {
                    lemma_entries_map_at(self.entries@, i as int);
                }
                Some(&self.entries[i].1)
            },
            None => None,
        }
    }

    /// Removes `name` from the map, returning the value it held.
    pub fn remove(&mut self, name: &str) -> (r: Option<V>)
        ensures
            final(self)@ == old(self)@.remove(name@),
            old(self)@.dom().finite(),
            final(self)@.dom().finite(),
            match r {
                Some(v) => old(self)@.contains_key(name@) && v == old(self)@[name@],
                None => !old(self)@.contains_key(name@),
            },
    {
        proof {
            use_type_invariant(&*self);
            self.lemma_dom_len();
        }
        match self.find(name) {
            None => {
                assert(old(self)@ =~= old(self)@.remove(name@));
                None
            },
            Some(i) => {
                let ghost s = self.entries@;
                proof {
                    lemma_entries_map_at(s, i as int);
                }
                let mut entries: Vec<(String, V)> = Vec::new();
                std::mem::swap(&mut entries, &mut self.entries);
                let (_, v) = entries.remove(i);
                let ghost t = entries@;
                assert(t =~= s.remove(i as int));
                assert(names_distinct(t)) by {
                    assert forall|a: int, b: int| 0 <= a < b < t.len() implies #[trigger] t[a].0@
                        != #[trigger] t[b].0@ by {
                        let a0 = if a < i { a } else { a + 1 };
                        let b0 = if b < i { b } else { b + 1 };
                        assert(t[a] == s[a0]);
                        assert(t[b] == s[b0]);
                    }
                }
                assert(entries_map(t) =~= entries_map(s).remove(name@)) by {
                    assert forall|k: Seq<char>|
                        #![trigger entries_map(t).contains_key(k)]
                        entries_map(t).contains_key(k) <==> entries_map(s).remove(
                            name@,
                        ).contains_key(k) by {
                        if has_name(t, k) {
                            let a = choose|a: int| 0 <= a < t.len() && #[trigger] t[a].0@ == k;
                            let a0 = if a < i { a } else { a + 1 };
                            assert(t[a] == s[a0]);
                            assert(s[a0].0@ == k);
                            if k == name@ {
                                if a0 < i {
                                    assert(s[a0].0@ != s[i as int].0@);
                                } else {
                                    assert(s[i as int].0@ != s[a0].0@);
                                }
                            }
                        }
                        if has_name(s, k) && k != name@ {
                            let a0 = choose|a: int| 0 <= a < s.len() && #[trigger] s[a].0@ == k;
                            assert(a0 != i);
                            let a = if a0 < i { a0 } else { a0 - 1 };
                            assert(t[a] == s[a0]);
                        }
                    }
                    assert forall|k: Seq<char>| #[trigger]
                        entries_map(t).contains_key(k) implies entries_map(t)[k] == entries_map(
                        s,
                    ).remove(name@)[k] by {
                        let a = choose|a: int| 0 <= a < t.len() && #[trigger] t[a].0@ == k;
                        let a0 = if a < i { a } else { a + 1 };
                        assert(t[a] == s[a0]);
                        lemma_entries_map_at(t, a);
                        lemma_entries_map_at(s, a0);
                    }
                }
                self.entries = entries;
                Some(v)
            },
        }
    }

    /// Stores `value` under `name`, replacing any value stored there before.
    pub fn insert(&mut self, name: String, value: V)
        ensures
            final(self)@ == old(self)@.insert(name@, value),
    {
        proof {
            use_type_invariant(&*self);
        }
        let _ = self.remove(name.as_str());
        proof {
            use_type_invariant(&*self);
        }
        let ghost mid = self@;
        let mut entries: Vec<(String, V)> = Vec::new();
        std::mem::swap(&mut entries, &mut self.entries);
        let ghost s = entries@;
        assert(entries_map(s) == mid);
        assert(!mid.contains_key(name@));
        assert(!entries_map(s).contains_key(name@));
        assert(!has_name(s, name@));
        let ghost key = name@;
        entries.push((name, value));
        let ghost t = entries@;
        assert(t =~= s.push((t.last().0, value)));
        assert(names_distinct(t)) by {
            assert forall|a: int, b: int| 0 <= a < b < t.len() implies #[trigger] t[a].0@
                != #[trigger] t[b].0@ by {
                if b == t.len() - 1 {
                    assert(t[a] == s[a]);
                } else {
                    assert(t[a] == s[a]);
                    assert(t[b] == s[b]);
                }
            }
        }
        assert(entries_map(t) =~= mid.insert(key, value)) by {
            assert forall|k: Seq<char>|
                #![trigger entries_map(t).contains_key(k)]
                entries_map(t).contains_key(k) <==> mid.insert(key, value).contains_key(k) by {
                if has_name(t, k) {
                    let a = choose|a: int| 0 <= a < t.len() && #[trigger] t[a].0@ == k;
                    if a < s.len() {
                        assert(t[a] == s[a]);
                    }
                }
                if has_name(s, k) {
                    let a = choose|a: int| 0 <= a < s.len() && #[trigger] s[a].0@ == k;
                    assert(t[a] == s[a]);
                }
                if k == key {
                    assert(t[t.len() - 1].0@ == key);
                }
            }
            assert forall|k: Seq<char>| #[trigger]
                entries_map(t).contains_key(k) implies entries_map(t)[k] == mid.insert(
                key,
                value,
            )[k] by {
                let a = choose|a: int| 0 <= a < t.len() && #[trigger] t[a].0@ == k;
                lemma_entries_map_at(t, a);
                if a < s.len() {
                    assert(t[a] == s[a]);
                    lemma_entries_map_at(s, a);
                }
            }
        }
        self.entries = entries;
    }

    /// The entries of the map, each name once, in no particular order.
    pub fn into_entries(self) -> (r: Vec<(String, V)>)
        ensures
            names_distinct(r@),
            entries_map(r@) == self@,
    {
        proof {
            use_type_invariant(&self);
        }
        self.entries
    }
}

} // verus!
