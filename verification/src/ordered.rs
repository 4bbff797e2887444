//! Maps keyed by text and walked in key order.
//!
//! Device paths order by their components, other keys by their characters.
use vstd::prelude::*;

use crate::paths::{
    parts_order_is_irreflexive, parts_order_is_total, parts_order_is_transitive, path_of,
    path_order, path_parts, path_precedes, paths_are_ordered,
};
use crate::text::{
    text_order, text_order_is_irreflexive, text_order_is_total, text_order_is_transitive,
    text_precedes, KeyOrder,
};

verus! {

/// Strict order of keys. Texts of one path order by their characters.
pub open spec fn precedes(left: Seq<char>, right: Seq<char>, paths: bool) -> bool {
    if paths {
        ||| path_precedes(left, right)
        ||| path_parts(left) == path_parts(right) && text_precedes(left, right)
    } else {
        text_precedes(left, right)
    }
}

pub proof fn precedes_is_irreflexive(key: Seq<char>, paths: bool)
    ensures
        !precedes(key, key, paths),
{
    text_order_is_irreflexive(key);
    parts_order_is_irreflexive(path_parts(key));
}

pub proof fn precedes_is_transitive(a: Seq<char>, b: Seq<char>, c: Seq<char>, paths: bool)
    requires
        precedes(a, b, paths),
        precedes(b, c, paths),
    ensures
        precedes(a, c, paths),
{
    if text_precedes(a, b) && text_precedes(b, c) {
        text_order_is_transitive(a, b, c);
    }
    if path_precedes(a, b) && path_precedes(b, c) {
        parts_order_is_transitive(path_parts(a), path_parts(b), path_parts(c));
    }
}

pub proof fn precedes_is_total(left: Seq<char>, right: Seq<char>, paths: bool)
    ensures
        precedes(left, right, paths) || precedes(right, left, paths) || left == right,
{
    text_order_is_total(left, right);
    parts_order_is_total(path_parts(left), path_parts(right));
}

/// Keys that are the shortest forms of their paths come in the order of the
/// paths.
pub proof fn shortest_forms_come_in_path_order(left: Seq<char>, right: Seq<char>)
    requires
        path_of(left) == left,
        path_of(right) == right,
        precedes(left, right, true),
    ensures
        path_precedes(left, right),
{
    paths_are_ordered(left, right);
    parts_order_is_irreflexive(path_parts(left));
    text_order_is_irreflexive(left);
}

/// Relates two keys in key order.
pub fn key_order(left: &str, right: &str, paths: bool) -> (result: KeyOrder)
    ensures
        match result {
            KeyOrder::Before => precedes(left@, right@, paths),
            KeyOrder::Same => left@ == right@,
            KeyOrder::After => precedes(right@, left@, paths),
        },
{
    if paths {
        match path_order(left, right) {
            KeyOrder::Before => KeyOrder::Before,
            KeyOrder::After => KeyOrder::After,
            KeyOrder::Same => text_order(left, right),
        }
    } else {
        text_order(left, right)
    }
}

pub struct OrderedEntry<V> {
    pub key: String,
    pub value: V,
}

/// A map from text to values whose entries are kept in key order.
pub struct OrderedMap<V> {
    paths: bool,
    entries: Vec<OrderedEntry<V>>,
}

pub open spec fn keys_increase(keys: Seq<Seq<char>>, paths: bool) -> bool {
    forall|i: int, j: int|
        0 <= i < j < keys.len() ==> precedes(#[trigger] keys[i], #[trigger] keys[j], paths)
}

impl<V> OrderedMap<V> {
    /// Whether keys are ordered as paths.
    pub closed spec fn by_path(&self) -> bool {
        self.paths
    }

    /// Keys in order.
    pub closed spec fn keys(&self) -> Seq<Seq<char>> {
        Seq::new(self.entries@.len(), |i: int| self.entries@[i].key@)
    }

    /// Values in the order of their keys.
    pub closed spec fn values(&self) -> Seq<V> {
        Seq::new(self.entries@.len(), |i: int| self.entries@[i].value)
    }

    pub open spec fn wf(&self) -> bool {
        &&& self.keys().len() == self.values().len()
        &&& keys_increase(self.keys(), self.by_path())
    }

    pub fn new(paths: bool) -> (result: Self)
        ensures
            result.wf(),
            result.by_path() == paths,
            result@ == Map::<Seq<char>, V>::empty(),
    {
        let result = OrderedMap { paths, entries: Vec::new() };
        assert(result@ =~= Map::<Seq<char>, V>::empty());
        result
    }

    /// The entry at a position holds what the map has for its key.
    pub proof fn entry_in_map(&self, at: int)
        requires
            self.wf(),
            0 <= at < self.keys().len(),
        ensures
            self@.contains_pair(self.keys()[at], self.values()[at]),
    {
        let key = self.keys()[at];
        let found = self.keys().index_of(key);
        assert(self.keys().contains(key));
        if found < at {
            assert(precedes(self.keys()[found], self.keys()[at], self.by_path()));
        } else if at < found {
            assert(precedes(self.keys()[at], self.keys()[found], self.by_path()));
        }
        precedes_is_irreflexive(key, self.by_path());
    }

    /// Every key of the map has a position.
    pub proof fn key_has_position(&self, key: Seq<char>) -> (at: int)
        requires
            self.wf(),
            self@.contains_key(key),
        ensures
            0 <= at < self.keys().len(),
            self.keys()[at] == key,
            self.values()[at] == self@[key],
    {
        self.keys().index_of(key)
    }

    pub fn len(&self) -> (result: usize)
        requires
            self.wf(),
        ensures
            result == self.keys().len(),
            result == self@.dom().len(),
            self@.dom().finite(),
    {
        proof {
            assert(self.keys().no_duplicates()) by {
                assert forall|i: int, j: int|
                    0 <= i < self.keys().len() && 0 <= j < self.keys().len() && i
                        != j implies self.keys()[i] != self.keys()[j] by {
                    precedes_is_irreflexive(self.keys()[i], self.by_path());
                    if i < j {
                        assert(precedes(self.keys()[i], self.keys()[j], self.by_path()));
                    } else {
                        assert(precedes(self.keys()[j], self.keys()[i], self.by_path()));
                    }
                }
            }
            self.keys().unique_seq_to_set();
            assert(self@.dom() =~= self.keys().to_set());
        }
        self.entries.len()
    }

    pub fn key_at(&self, at: usize) -> (result: &String)
        requires
            at < self.keys().len(),
        ensures
            result@ == self.keys()[at as int],
    {
        &self.entries[at].key
    }

    pub fn value_at(&self, at: usize) -> (result: &V)
        requires
            at < self.keys().len(),
        ensures
            *result == self.values()[at as int],
    {
        &self.entries[at].value
    }

    /// First position whose key does not precede `key`.
    fn position(&self, key: &str) -> (result: (usize, bool))
        requires
            self.wf(),
        ensures
            result.0 <= self.entries@.len(),
            forall|i: int|
                0 <= i < result.0 ==> precedes(
                    #[trigger] self.entries@[i].key@,
                    key@,
                    self.paths,
                ),
            result.1 == self@.contains_key(key@),
            result.1 ==> result.0 < self.entries@.len() && self.entries@[result.0 as int].key@
                == key@,
            !result.1 && result.0 < self.entries@.len() ==> precedes(
                key@,
                self.entries@[result.0 as int].key@,
                self.paths,
            ),
    {
        let mut at: usize = 0;
        while at < self.entries.len()
            invariant
                self.wf(),
                at <= self.entries@.len(),
                forall|i: int|
                    0 <= i < at ==> precedes(#[trigger] self.entries@[i].key@, key@, self.paths),
            decreases self.entries@.len() - at,
        {
            match key_order(self.entries[at].key.as_str(), key, self.paths) {
                KeyOrder::Before => {},
                KeyOrder::Same => {
                    assert(self.keys()[at as int] == key@);
                    assert(self.keys().contains(key@));
                    return (at, true);
                },
                KeyOrder::After => {
                    proof {
                        if self@.contains_key(key@) {
                            let k = self.key_has_position(key@);
                            precedes_is_irreflexive(key@, self.paths);
                            if k < at {
                                assert(precedes(self.entries@[k].key@, key@, self.paths));
                            } else if k > at {
                                assert(precedes(
                                    self.keys()[at as int],
                                    self.keys()[k],
                                    self.paths,
                                ));
                                precedes_is_transitive(
                                    key@,
                                    self.entries@[at as int].key@,
                                    key@,
                                    self.paths,
                                );
                            }
                        }
                    }
                    return (at, false);
                },
            }
            at = at + 1;
        }
        proof {
            if self@.contains_key(key@) {
                let k = self.key_has_position(key@);
                precedes_is_irreflexive(key@, self.paths);
                assert(precedes(self.entries@[k].key@, key@, self.paths));
            }
        }
        (at, false)
    }

    pub fn contains_key(&self, key: &str) -> (result: bool)
        requires
            self.wf(),
        ensures
            result == self@.contains_key(key@),
    {
        self.position(key).1
    }

    pub fn get(&self, key: &str) -> (result: Option<&V>)
        requires
            self.wf(),
        ensures
            match result {
                Some(value) => self@.contains_pair(key@, *value),
                None => !self@.contains_key(key@),
            },
    {
        let (at, found) = self.position(key);
        if found {
            proof {
                self.entry_in_map(at as int);
            }
            Some(&self.entries[at].value)
        } else {
            None
        }
    }

    /// Stores a value, replacing what the key had before.
    pub fn insert(&mut self, key: String, value: V)
        requires
            old(self).wf(),
        ensures
            final(self).wf(),
            final(self).by_path() == old(self).by_path(),
            final(self)@ == old(self)@.insert(key@, value),
    {
        let (at, found) = self.position(key.as_str());
        let ghost name = key@;
        if found {
            let _ = self.entries.remove(at);
        }
        self.entries.insert(at, OrderedEntry { key, value });
        proof {
            let shift: int = if found {
                0
            } else {
                1
            };
            let before = old(self);
            assert(self.entries@.len() == before.entries@.len() + shift);
            assert forall|i: int| 0 <= i < self.entries@.len() implies self.entries@[i] == if i
                < at {
                before.entries@[i]
            } else if i == at {
                OrderedEntry { key, value }
            } else {
                before.entries@[i - shift]
            } by {}
            assert forall|i: int, j: int| 0 <= i < j < self.keys().len() implies precedes(
                #[trigger] self.keys()[i],
                #[trigger] self.keys()[j],
                self.paths,
            ) by {
                if i < at && j == at {
                    assert(precedes(before.entries@[i].key@, name, self.paths));
                } else if i == at && j > at {
                    let first = if found {
                        at + 0
                    } else {
                        at - 1
                    };
                    if found {
                        assert(precedes(before.keys()[at as int], before.keys()[j], self.paths));
                    } else {
                        assert(precedes(name, before.entries@[at as int].key@, self.paths));
                        if j - 1 > at {
                            assert(precedes(
                                before.keys()[at as int],
                                before.keys()[j - 1],
                                self.paths,
                            ));
                            precedes_is_transitive(
                                name,
                                before.entries@[at as int].key@,
                                before.entries@[j - 1].key@,
                                self.paths,
                            );
                        }
                    }
                } else {
                    let m = if i < at {
                        i
                    } else {
                        i - shift
                    };
                    let n = if j < at {
                        j
                    } else {
                        j - shift
                    };
                    assert(precedes(before.keys()[m], before.keys()[n], self.paths));
                }
            }
            assert(self.wf());
            let expected = before@.insert(name, value);
            assert forall|k: Seq<char>| #[trigger]
                self@.dom().contains(k) == expected.dom().contains(k) && (self@.contains_key(k) ==> self@[k] == expected[k]) by {
                if self@.contains_key(k) {
                    let p = self.key_has_position(k);
                    if p != at {
                        let m = if p < at {
                            p
                        } else {
                            p - shift
                        };
                        before.entry_in_map(m);
                        assert(before.keys()[m] == k);
                        if k == name {
                            precedes_is_irreflexive(name, self.paths);
                            if p < at {
                                assert(precedes(before.entries@[p].key@, name, self.paths));
                            } else {
                                assert(precedes(
                                    self.keys()[at as int],
                                    self.keys()[p],
                                    self.paths,
                                ));
                            }
                        }
                    }
                }
                if k == name {
                    self.entry_in_map(at as int);
                    assert(self.keys()[at as int] == name);
                } else if before@.contains_key(k) {
                    let p = before.key_has_position(k);
                    let m = if p < at {
                        p
                    } else {
                        p + shift
                    };
                    self.entry_in_map(m);
                    assert(self.keys()[m] == k);
                }
            }
            assert(self@.dom() =~= expected.dom());
            assert(self@ =~= expected);
        }
    }

    /// Takes a value out of the map.
    pub fn remove(&mut self, key: &str) -> (result: Option<V>)
        requires
            old(self).wf(),
        ensures
            final(self).wf(),
            final(self).by_path() == old(self).by_path(),
            final(self)@ == old(self)@.remove(key@),
            match result {
                Some(value) => old(self)@.contains_pair(key@, value),
                None => !old(self)@.contains_key(key@),
            },
    {
        let (at, found) = self.position(key);
        if !found {
            assert(self@ =~= old(self)@.remove(key@));
            return None;
        }
        proof {
            self.entry_in_map(at as int);
        }
        let entry = self.entries.remove(at);
        proof {
            let before = old(self);
            assert forall|i: int| 0 <= i < self.entries@.len() implies self.entries@[i] == if i
                < at {
                before.entries@[i]
            } else {
                before.entries@[i + 1]
            } by {}
            assert forall|i: int, j: int| 0 <= i < j < self.keys().len() implies precedes(
                #[trigger] self.keys()[i],
                #[trigger] self.keys()[j],
                self.paths,
            ) by {
                let m = if i < at {
                    i
                } else {
                    i + 1
                };
                let n = if j < at {
                    j
                } else {
                    j + 1
                };
                assert(precedes(before.keys()[m], before.keys()[n], self.paths));
            }
            assert(self.wf());
            let expected = before@.remove(key@);
            assert forall|k: Seq<char>| #[trigger]
                self@.dom().contains(k) == expected.dom().contains(k) && (self@.contains_key(k)
                    ==> self@[k] == expected[k]) by {
                if self@.contains_key(k) {
                    let p = self.key_has_position(k);
                    let m = if p < at {
                        p
                    } else {
                        p + 1
                    };
                    before.entry_in_map(m);
                    assert(before.keys()[m] == k);
                    precedes_is_irreflexive(k, self.paths);
                    if m < at {
                        assert(precedes(before.keys()[m], before.keys()[at as int], self.paths));
                    } else {
                        assert(precedes(before.keys()[at as int], before.keys()[m], self.paths));
                    }
                }
                if before@.contains_key(k) && k != key@ {
                    let p = before.key_has_position(k);
                    let m = if p < at {
                        p
                    } else {
                        p - 1
                    };
                    self.entry_in_map(m);
                    assert(self.keys()[m] == k);
                }
            }
            assert(self@.dom() =~= expected.dom());
            assert(self@ =~= expected);
        }
        Some(entry.value)
    }
}

impl<V> View for OrderedMap<V> {
    type V = Map<Seq<char>, V>;

    open spec fn view(&self) -> Map<Seq<char>, V> {
        Map::new(
            |key: Seq<char>| self.keys().contains(key),
            |key: Seq<char>| self.values()[self.keys().index_of(key)],
        )
    }
}

} // verus!
