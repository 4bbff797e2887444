//! Ordered sets of small numbers: key codes, usages and buttons that are down.
use vstd::prelude::*;

verus! {

pub open spec fn increasing(items: Seq<u32>) -> bool {
    forall|i: int, j: int| 0 <= i < j < items.len() ==> #[trigger] items[i] < #[trigger] items[j]
}

/// A set of numbers, kept in increasing order.
#[derive(Debug, PartialEq, Eq)]
pub struct CodeSet {
    items: Vec<u32>,
}

impl View for CodeSet {
    type V = Set<u32>;

    closed spec fn view(&self) -> Set<u32> {
        self.items@.to_set()
    }
}

impl CodeSet {
    #[verifier::type_invariant]
    spec fn sorted(&self) -> bool {
        increasing(self.items@)
    }

    pub fn new() -> (result: Self)
        ensures
            result@ == Set::<u32>::empty(),
    {
        let result = CodeSet { items: Vec::new() };
        assert(result@ =~= Set::<u32>::empty());
        result
    }

    pub fn from_codes(codes: &Vec<u32>) -> (result: Self)
        ensures
            result@ == codes@.to_set(),
    {
        let mut set = CodeSet::new();
        let mut at: usize = 0;
        assert(codes@.take(0).to_set() =~= Set::<u32>::empty());
        while at < codes.len()
            invariant
                at <= codes@.len(),
                set@ == codes@.take(at as int).to_set(),
            decreases codes@.len() - at,
        {
            set.insert(codes[at]);
            proof {
                let before = codes@.take(at as int);
                let after = codes@.take(at + 1);
                assert(after =~= before.push(codes@[at as int]));
                assert(after.to_set() =~= before.to_set().insert(codes@[at as int])) by {
                    assert forall|c: u32| after.to_set().contains(c) == before.to_set().insert(
                        codes@[at as int],
                    ).contains(c) by {
                        if before.contains(c) {
                            let k = choose|k: int| 0 <= k < before.len() && before[k] == c;
                            assert(after[k] == c);
                        }
                        if c == codes@[at as int] {
                            assert(after[at as int] == c);
                        }
                    }
                }
            }
            at = at + 1;
        }
        assert(codes@.take(at as int) =~= codes@);
        set
    }

    /// First position whose item is not below `code`.
    fn position(&self, code: u32) -> (at: usize)
        ensures
            at <= self.items@.len(),
            forall|i: int| 0 <= i < at ==> #[trigger] self.items@[i] < code,
            at < self.items@.len() ==> self.items@[at as int] >= code,
            self@.contains(code) <==> at < self.items@.len() && self.items@[at as int] == code,
    {
        proof {
            use_type_invariant(self);
        }
        let mut at: usize = 0;
        while at < self.items.len() && self.items[at] < code
            invariant
                at <= self.items@.len(),
                forall|i: int| 0 <= i < at ==> #[trigger] self.items@[i] < code,
            decreases self.items@.len() - at,
        {
            at = at + 1;
        }
        proof {
            if self@.contains(code) {
                let k = choose|k: int| 0 <= k < self.items@.len() && self.items@[k] == code;
                if k > at {
                    assert(self.items@[at as int] < self.items@[k]);
                }
            }
        }
        at
    }

    pub fn contains(&self, code: u32) -> (result: bool)
        ensures
            result == self@.contains(code),
    {
        let at: usize = self.position(code);
        at < self.items.len() && self.items[at] == code
    }

    pub fn insert(&mut self, code: u32)
        ensures
            final(self)@ == old(self)@.insert(code),
    {
        let at: usize = self.position(code);
        if at < self.items.len() && self.items[at] == code {
            assert(self@ =~= old(self)@.insert(code));
            return ;
        }
        proof {
            use_type_invariant(&*self);
        }
        let ghost before = self.items@;
        assert forall|i: int, j: int|
            0 <= i < j < before.len() + 1 implies #[trigger] before.insert(at as int, code)[i]
            < #[trigger] before.insert(at as int, code)[j] by {
            if i < at && j > at {
                assert(before[i] < before[j - 1]);
            }
            if i == at && j > at {
                assert(before[at as int] <= before[j - 1]);
            }
        }
        let mut items: Vec<u32> = self.copied_items();
        items.insert(at, code);
        self.items = items;
        assert(self@ =~= old(self)@.insert(code)) by {
            assert forall|c: u32| self@.contains(c) == old(self)@.insert(code).contains(c) by {
                if before.contains(c) {
                    let k = choose|k: int| 0 <= k < before.len() && before[k] == c;
                    assert(self.items@[if k < at {
                        k
                    } else {
                        k + 1
                    }] == c);
                }
                if c == code {
                    assert(self.items@[at as int] == c);
                }
                if self.items@.contains(c) && c != code {
                    let k = choose|k: int| 0 <= k < self.items@.len() && self.items@[k] == c;
                    assert(before[if k < at {
                        k
                    } else {
                        k - 1
                    }] == c);
                }
            }
        }
    }

    /// Removes a number and tells whether it was there.
    pub fn remove(&mut self, code: u32) -> (removed: bool)
        ensures
            removed == old(self)@.contains(code),
            final(self)@ == old(self)@.remove(code),
    {
        let at: usize = self.position(code);
        if at >= self.items.len() || self.items[at] != code {
            assert(self@ =~= old(self)@.remove(code));
            return false;
        }
        proof {
            use_type_invariant(&*self);
        }
        let ghost before = self.items@;
        assert forall|i: int, j: int|
            0 <= i < j < before.len() - 1 implies #[trigger] before.remove(at as int)[i]
            < #[trigger] before.remove(at as int)[j] by {
            let from = if i < at {
                i
            } else {
                i + 1
            };
            let to = if j < at {
                j
            } else {
                j + 1
            };
            assert(before[from] < before[to]);
        }
        let mut items: Vec<u32> = self.copied_items();
        items.remove(at);
        self.items = items;
        assert(self@ =~= old(self)@.remove(code)) by {
            assert forall|c: u32| self@.contains(c) == old(self)@.remove(code).contains(c) by {
                if before.contains(c) && c != code {
                    let k = choose|k: int| 0 <= k < before.len() && before[k] == c;
                    assert(self.items@[if k < at {
                        k
                    } else {
                        k - 1
                    }] == c);
                }
                if self.items@.contains(c) {
                    let k = choose|k: int| 0 <= k < self.items@.len() && self.items@[k] == c;
                    let m = if k < at {
                        k
                    } else {
                        k + 1
                    };
                    assert(before[m] == c);
                    if m < at {
                        assert(before[m] < before[at as int]);
                    } else {
                        assert(before[at as int] < before[m]);
                    }
                }
            }
        }
        true
    }

    pub fn clear(&mut self)
        ensures
            final(self)@ == Set::<u32>::empty(),
    {
        self.items = Vec::new();
        assert(self@ =~= Set::<u32>::empty());
    }

    pub fn is_empty(&self) -> (result: bool)
        ensures
            result == (self@ == Set::<u32>::empty()),
    {
        if self.items.len() == 0 {
            assert(self@ =~= Set::<u32>::empty());
            true
        } else {
            assert(self@.contains(self.items@[0]));
            false
        }
    }

    /// All numbers in increasing order.
    pub fn items(&self) -> (result: &Vec<u32>)
        ensures
            increasing(result@),
            result@.to_set() == self@,
    {
        proof {
            use_type_invariant(self);
        }
        &self.items
    }

    pub fn len(&self) -> (result: usize)
        ensures
            result == self@.len(),
    {
        proof {
            use_type_invariant(self);
            assert(self.items@.no_duplicates());
            self.items@.unique_seq_to_set();
        }
        self.items.len()
    }

    /// Whether every number of this set is in `other`.
    pub fn is_subset_of(&self, other: &CodeSet) -> (result: bool)
        ensures
            result == self@.subset_of(other@),
    {
        let mut at: usize = 0;
        while at < self.items.len()
            invariant
                at <= self.items@.len(),
                forall|i: int| 0 <= i < at ==> other@.contains(#[trigger] self.items@[i]),
            decreases self.items@.len() - at,
        {
            if !other.contains(self.items[at]) {
                assert(self@.contains(self.items@[at as int]));
                return false;
            }
            at = at + 1;
        }
        true
    }

    pub fn copy(&self) -> (result: CodeSet)
        ensures
            result@ == self@,
    {
        proof {
            use_type_invariant(self);
        }
        CodeSet { items: self.copied_items() }
    }

    fn copied_items(&self) -> (items: Vec<u32>)
        ensures
            items@ == self.items@,
    {
        let mut items: Vec<u32> = Vec::new();
        let mut at: usize = 0;
        while at < self.items.len()
            invariant
                at <= self.items@.len(),
                items@ =~= self.items@.take(at as int),
            decreases self.items@.len() - at,
        {
            items.push(self.items[at]);
            at = at + 1;
        }
        assert(items@ =~= self.items@);
        items
    }
}

} // verus!
