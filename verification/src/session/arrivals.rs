//! When motion arrived, until it has been shown.
use vstd::prelude::*;

verus! {

#[derive(Clone, Copy, Debug, PartialEq, Eq, Structural)]
pub struct Arrival {
    pub sequence: u64,
    pub at: u64,
}

/// Arrival times by motion sequence, in order.
#[derive(Debug, PartialEq, Eq)]
pub struct ArrivalLog {
    pub entries: Vec<Arrival>,
}

/// What the playout schedule did with motion that arrived.
#[derive(Clone, Copy, Debug, PartialEq, Eq, Structural)]
pub enum Enqueued {
    Queued { sequence: u64 },
    Duplicate,
    /// A later total already covers it.
    RetiredByTarget,
    /// A rebase already covers it.
    RetiredByRebase,
}

pub open spec fn sequences_increase(entries: Seq<Arrival>) -> bool {
    forall|i: int, j: int|
        0 <= i < j < entries.len() ==> (#[trigger] entries[i]).sequence < (
        #[trigger] entries[j]).sequence
}

impl View for ArrivalLog {
    type V = Map<u64, u64>;

    open spec fn view(&self) -> Map<u64, u64> {
        Map::new(
            |sequence: u64|
                exists|i: int|
                    0 <= i < self.entries@.len() && (#[trigger] self.entries@[i]).sequence
                        == sequence,
            |sequence: u64|
                (self.entries@[choose|i: int|
                    0 <= i < self.entries@.len() && (#[trigger] self.entries@[i]).sequence
                        == sequence]).at,
        )
    }
}

impl ArrivalLog {
    pub open spec fn wf(&self) -> bool {
        sequences_increase(self.entries@)
    }

    pub fn new() -> (result: Self)
        ensures
            result.wf(),
            result@ == Map::<u64, u64>::empty(),
    {
        let result = ArrivalLog { entries: Vec::new() };
        assert(result@ =~= Map::<u64, u64>::empty());
        result
    }

    proof fn entry_is_mapped(&self, at: int)
        requires
            self.wf(),
            0 <= at < self.entries@.len(),
        ensures
            self@.contains_pair(self.entries@[at].sequence, self.entries@[at].at),
    {
        let sequence = self.entries@[at].sequence;
        let found = choose|i: int|
            0 <= i < self.entries@.len() && (#[trigger] self.entries@[i]).sequence == sequence;
        assert(self.entries@[at].sequence == sequence);
        if found < at {
            assert(self.entries@[found].sequence < self.entries@[at].sequence);
        } else if at < found {
            assert(self.entries@[at].sequence < self.entries@[found].sequence);
        }
    }

    fn position(&self, sequence: u64) -> (result: usize)
        requires
            self.wf(),
        ensures
            result <= self.entries@.len(),
            forall|i: int| 0 <= i < result ==> (#[trigger] self.entries@[i]).sequence < sequence,
            forall|i: int|
                result <= i < self.entries@.len() ==> (#[trigger] self.entries@[i]).sequence
                    >= sequence,
    {
        let mut at: usize = self.entries.len();
        while at > 0 && self.entries[at - 1].sequence >= sequence
            invariant
                self.wf(),
                at <= self.entries@.len(),
                forall|i: int|
                    at <= i < self.entries@.len() ==> (#[trigger] self.entries@[i]).sequence
                        >= sequence,
            decreases at,
        {
            at = at - 1;
        }
        proof {
            assert forall|i: int| 0 <= i < at implies (#[trigger] self.entries@[i]).sequence
                < sequence by {
                if i < at - 1 {
                    assert(self.entries@[i].sequence < self.entries@[at - 1].sequence);
                }
            }
        }
        at
    }

    /// When motion arrived that has not been shown.
    pub fn get(&self, sequence: u64) -> (result: Option<u64>)
        requires
            self.wf(),
        ensures
            match result {
                Some(at) => self@.contains_pair(sequence, at),
                None => !self@.contains_key(sequence),
            },
    {
        let at: usize = self.position(sequence);
        if at < self.entries.len() && self.entries[at].sequence == sequence {
            proof {
                self.entry_is_mapped(at as int);
            }
            return Some(self.entries[at].at);
        }
        proof {
            assert forall|i: int| 0 <= i < self.entries@.len() implies (
            #[trigger] self.entries@[i]).sequence != sequence by {
                if i > at {
                    assert(self.entries@[at as int].sequence < self.entries@[i].sequence);
                }
            }
        }
        None
    }

    /// Motion was scheduled, or not. Gives whether it was stale.
    pub fn enqueued(&mut self, outcome: Enqueued, arrived_at: u64) -> (stale: bool)
        requires
            old(self).wf(),
        ensures
            final(self).wf(),
            stale == (outcome is RetiredByTarget || outcome is RetiredByRebase),
            final(self)@ == match outcome {
                Enqueued::Queued { sequence } => old(self)@.insert(sequence, arrived_at),
                _ => old(self)@,
            },
    {
        let sequence: u64 = match outcome {
            Enqueued::Queued { sequence } => sequence,
            Enqueued::Duplicate => return false,
            Enqueued::RetiredByTarget => return true,
            Enqueued::RetiredByRebase => return true,
        };
        let ghost before = *self;
        let at: usize = self.position(sequence);
        let known = at < self.entries.len() && self.entries[at].sequence == sequence;
        if known {
            let _ = self.entries.remove(at);
        }
        self.entries.insert(at, Arrival { sequence, at: arrived_at });
        proof {
            let entries = self.entries@;
            let earlier = before.entries@;
            let shift: int = if known {
                0
            } else {
                1
            };
            assert forall|i: int| 0 <= i < entries.len() implies entries[i] == if i < at {
                earlier[i]
            } else if i == at {
                Arrival { sequence, at: arrived_at }
            } else {
                earlier[i - shift]
            } by {}
            assert forall|i: int, j: int| 0 <= i < j < entries.len() implies (
            #[trigger] entries[i]).sequence < (#[trigger] entries[j]).sequence by {
                if j > at {
                    if i < at {
                        assert(earlier[i].sequence < earlier[j - shift].sequence);
                    } else if i == at {
                        if known {
                            assert(earlier[at as int].sequence < earlier[j].sequence);
                        } else {
                            assert(earlier[j - 1].sequence >= sequence);
                            if j - 1 > at {
                                assert(earlier[at as int].sequence < earlier[j - 1].sequence);
                            }
                        }
                    } else {
                        assert(earlier[i - shift].sequence < earlier[j - shift].sequence);
                    }
                } else if j < at {
                    assert(earlier[i].sequence < earlier[j].sequence);
                }
            }
            let after = self@;
            let wanted = before@.insert(sequence, arrived_at);
            self.entry_is_mapped(at as int);
            assert forall|other: u64| #[trigger]
                after.dom().contains(other) == wanted.dom().contains(other) && (
            wanted.dom().contains(other) ==> after[other] == wanted[other]) by {
                if other != sequence {
                    if after.dom().contains(other) {
                        let i = choose|i: int|
                            0 <= i < entries.len() && (#[trigger] entries[i]).sequence == other;
                        self.entry_is_mapped(i);
                        let k = if i < at {
                            i
                        } else {
                            i - shift
                        };
                        assert(earlier[k].sequence == other);
                        before.entry_is_mapped(k);
                    }
                    if wanted.dom().contains(other) {
                        let k = choose|k: int|
                            0 <= k < earlier.len() && (#[trigger] earlier[k]).sequence == other;
                        before.entry_is_mapped(k);
                        let i = if k < at {
                            k
                        } else {
                            k + shift
                        };
                        assert(entries[i].sequence == other);
                        self.entry_is_mapped(i);
                    }
                }
            }
            assert(after.dom() =~= wanted.dom());
            assert(after =~= wanted);
        }
        false
    }

    /// Motion up to a sequence has been shown or discarded.
    pub fn forget_through(&mut self, sequence: u64)
        requires
            old(self).wf(),
        ensures
            final(self).wf(),
            final(self)@ == old(self)@.restrict(
                Set::new(|other: u64| other > sequence),
            ),
    {
        let mut start: usize = 0;
        while start < self.entries.len() && self.entries[start].sequence <= sequence
            invariant
                *self == *old(self),
                self.wf(),
                start <= self.entries@.len(),
                forall|i: int|
                    0 <= i < start ==> (#[trigger] self.entries@[i]).sequence <= sequence,
            decreases self.entries@.len() - start,
        {
            start = start + 1;
        }
        let mut kept: Vec<Arrival> = Vec::new();
        let mut at: usize = start;
        while at < self.entries.len()
            invariant
                *self == *old(self),
                self.wf(),
                start <= at <= self.entries@.len(),
                kept@ =~= self.entries@.subrange(start as int, at as int),
            decreases self.entries@.len() - at,
        {
            kept.push(self.entries[at]);
            at = at + 1;
        }
        let ghost before = *self;
        self.entries = kept;
        proof {
            let earlier = before.entries@;
            let entries = self.entries@;
            assert forall|i: int, j: int| 0 <= i < j < entries.len() implies (
            #[trigger] entries[i]).sequence < (#[trigger] entries[j]).sequence by {
                assert(earlier[start + i].sequence < earlier[start + j].sequence);
            }
            assert forall|i: int| start <= i < earlier.len() implies (
            #[trigger] earlier[i]).sequence > sequence by {
                if i > start {
                    assert(earlier[start as int].sequence < earlier[i].sequence);
                }
            }
            let after = self@;
            let wanted = before@.restrict(Set::new(|other: u64| other > sequence));
            assert forall|other: u64| #[trigger]
                after.dom().contains(other) == wanted.dom().contains(other) && (
            wanted.dom().contains(other) ==> after[other] == wanted[other]) by {
                if after.dom().contains(other) {
                    let i = choose|i: int|
                        0 <= i < entries.len() && (#[trigger] entries[i]).sequence == other;
                    self.entry_is_mapped(i);
                    before.entry_is_mapped(start + i);
                    assert(earlier[start + i].sequence == other);
                }
                if wanted.dom().contains(other) {
                    let k = choose|k: int|
                        0 <= k < earlier.len() && (#[trigger] earlier[k]).sequence == other;
                    before.entry_is_mapped(k);
                    assert(k >= start);
                    assert(entries[k - start].sequence == other);
                    self.entry_is_mapped(k - start);
                }
            }
            assert(after.dom() =~= wanted.dom());
            assert(after =~= wanted);
        }
    }
}

} // verus!
