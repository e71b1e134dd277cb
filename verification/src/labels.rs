//! The labels of a pull request: a set of words.
use crate::text::{owned, str_eq};
use vstd::prelude::*;

verus! {

/// A set of labels, kept in the order in which they were added. No label is
/// held twice.
#[derive(Debug, PartialEq, Eq)]
pub struct LabelSet {
    items: Vec<String>,
}

impl View for LabelSet {
    type V = Set<Seq<char>>;

    closed spec fn view(&self) -> Set<Seq<char>> {
        self.labels().to_set()
    }
}

impl LabelSet {
    /// The labels, in the order in which they were added.
    pub closed spec fn labels(&self) -> Seq<Seq<char>> {
        self.items.deep_view()
    }

    /// No label is held twice.
    pub closed spec fn wf(&self) -> bool {
        self.labels().no_duplicates()
    }

    /// The list of labels is the set: each member once.
    pub proof fn lemma_members(&self)
        requires
            self.wf(),
        ensures
            self.labels().no_duplicates(),
            self@ == self.labels().to_set(),
            self@.finite(),
            self@.len() == self.labels().len(),
    {
        self.labels().unique_seq_to_set();
        vstd::seq_lib::seq_to_set_is_finite(self.labels());
    }

    /// The empty set.
    pub fn new() -> (r: Self)
        ensures
            r.wf(),
            r@ == Set::<Seq<char>>::empty(),
    {
        let r = LabelSet { items: Vec::new() };
        assert(r@ =~= Set::<Seq<char>>::empty());
        r
    }

    /// The number of labels.
    pub fn len(&self) -> (r: usize)
        requires
            self.wf(),
        ensures
            r == self@.len(),
            r == self.labels().len(),
    {
        proof {
            self.lemma_members();
        }
        self.items.len()
    }

    /// Whether there is no label.
    pub fn is_empty(&self) -> (r: bool)
        requires
            self.wf(),
        ensures
            r == (self@ == Set::<Seq<char>>::empty()),
    {
        proof {
            self.lemma_members();
            if self.labels().len() > 0 {
                assert(self.labels().contains(self.labels()[0]));
            } else {
                assert(self@ =~= Set::<Seq<char>>::empty());
            }
        }
        self.items.len() == 0
    }

    /// The label at position `i`.
    pub fn label(&self, i: usize) -> (r: &String)
        requires
            i < self.labels().len(),
        ensures
            r@ == self.labels()[i as int],
            self@.contains(r@),
    {
        proof {
            assert(self.labels().contains(self.labels()[i as int]));
        }
        &self.items[i]
    }

    fn find(&self, label: &str) -> (r: Option<usize>)
        ensures
            match r {
                Some(i) => i < self.items@.len() && self.labels()[i as int] == label@,
                None => !self.labels().contains(label@),
            },
    {
        let mut i: usize = 0;
        while i < self.items.len()
            invariant
                i <= self.items@.len(),
                forall|j: int| 0 <= j < i ==> self.labels()[j] != label@,
            decreases self.items@.len() - i,
        {
            if str_eq(self.items[i].as_str(), label) {
                return Some(i);
            }
            i += 1;
        }
        None
    }

    /// Whether `label` is in the set.
    pub fn contains(&self, label: &str) -> (r: bool)
        ensures
            r == self@.contains(label@),
    {
        let found = self.find(label);
        proof {
            if let Some(i) = found {
                assert(self.labels().contains(self.labels()[i as int]));
            }
        }
        found.is_some()
    }

    /// Adds `label`. The answer is whether it was new.
    pub fn insert(&mut self, label: &str) -> (added: bool)
        requires
            old(self).wf(),
        ensures
            final(self).wf(),
            final(self)@ == old(self)@.insert(label@),
            added == !old(self)@.contains(label@),
            final(self).labels() == if added {
                old(self).labels().push(label@)
            } else {
                old(self).labels()
            },
    {
        let ghost before = *self;
        match self.find(label) {
            Some(i) => {
                proof {
                    assert(self.labels().contains(self.labels()[i as int]));
                    assert(self@ =~= before@.insert(label@));
                }
                false
            },
            None => {
                self.items.push(owned(label));
                proof {
                    assert(self.labels() =~= before.labels().push(label@));
                    assert forall|a: int, b: int|
                        0 <= a < self.labels().len() && 0 <= b < self.labels().len() && a
                            != b implies self.labels()[a] != self.labels()[b] by {
                        if a < before.labels().len() {
                            assert(before.labels().contains(before.labels()[a]));
                        }
                        if b < before.labels().len() {
                            assert(before.labels().contains(before.labels()[b]));
                        }
                    }
                    assert(self@ =~= before@.insert(label@)) by {
                        assert(self.labels()[before.labels().len() as int] == label@);
                        assert forall|k: Seq<char>| before@.contains(k) implies self@.contains(k) by {
                            let j = before.labels().index_of(k);
                            assert(self.labels()[j] == k);
                        }
                        assert forall|k: Seq<char>| self@.contains(k) implies k == label@
                            || before@.contains(k) by {
                            let j = self.labels().index_of(k);
                            if j < before.labels().len() {
                                assert(before.labels()[j] == k);
                            }
                        }
                    }
                }
                true
            },
        }
    }

    /// Takes `label` out. The answer is whether it was there.
    pub fn remove(&mut self, label: &str) -> (removed: bool)
        requires
            old(self).wf(),
        ensures
            final(self).wf(),
            final(self)@ == old(self)@.remove(label@),
            removed == old(self)@.contains(label@),
            final(self).labels() == if removed {
                old(self).labels().remove(old(self).labels().index_of(label@))
            } else {
                old(self).labels()
            },
    {
        let ghost before = *self;
        match self.find(label) {
            Some(i) => {
                self.items.remove(i);
                proof {
                    assert(self.labels() =~= before.labels().remove(i as int));
                    assert(before.labels().contains(before.labels()[i as int]));
                    assert forall|a: int, b: int|
                        0 <= a < self.labels().len() && 0 <= b < self.labels().len() && a
                            != b implies self.labels()[a] != self.labels()[b] by {
                        let a0 = if a < i { a } else { a + 1 };
                        let b0 = if b < i { b } else { b + 1 };
                        assert(self.labels()[a] == before.labels()[a0]);
                        assert(self.labels()[b] == before.labels()[b0]);
                    }
                    assert(self@ =~= before@.remove(label@)) by {
                        assert forall|k: Seq<char>| self@.contains(k) implies before@.contains(k)
                            && k != label@ by {
                            let j = self.labels().index_of(k);
                            let j0 = if j < i { j } else { j + 1 };
                            assert(before.labels()[j0] == k);
                        }
                        assert forall|k: Seq<char>| before@.contains(k) && k
                            != label@ implies self@.contains(k) by {
                            let j = before.labels().index_of(k);
                            let j1 = if j < i { j } else { j - 1 };
                            assert(self.labels()[j1] == k);
                        }
                    }
                }
                true
            },
            None => {
                proof {
                    assert(self@ =~= before@.remove(label@));
                }
                false
            },
        }
    }
}

} // verus!
