use vstd::prelude::*;
use crate::transaction::transaction::bytes_eq;

verus! {

/// The set of byte strings that a list of hashes holds.
pub open spec fn hash_set_of(s: Seq<crate::transaction::transaction::Hash>) -> Set<Seq<u8>> {
    Set::new(|b: Seq<u8>| exists|i: int| 0 <= i < s.len() && #[trigger] s[i].0@ == b)
}

/// A set of hashes, each held once, in the order in which they came.
pub struct Hashes {
    items: Vec<crate::transaction::transaction::Hash>,
}

impl View for Hashes {
    type V = Set<Seq<u8>>;

    closed spec fn view(&self) -> Set<Seq<u8>> {
        hash_set_of(self.items@)
    }
}

impl Hashes {
    /// No hash is held twice.
    pub closed spec fn wf(&self) -> bool {
        forall|i: int, j: int|
            0 <= i < j < self.items@.len() ==> self.items@[i].0@ != self.items@[j].0@
    }

    /// Number of hashes held, as a count of the list.
    pub closed spec fn count(&self) -> nat {
        self.items@.len()
    }

    /// The empty set.
    pub fn new() -> (r: Hashes)
        ensures
            r.wf(),
            r@ == Set::<Seq<u8>>::empty(),
            r.count() == 0,
    {
        let r = Hashes { items: Vec::new() };
        assert(r@ =~= Set::<Seq<u8>>::empty());
        r
    }

    /// Whether `h` is held.
    pub fn contains(&self, h: &crate::transaction::transaction::Hash) -> (r: bool)
        ensures
            r == self@.contains(h.0@),
    {
        let mut i: usize = 0;
        while i < self.items.len()
            invariant
                i <= self.items@.len(),
                forall|j: int| 0 <= j < i ==> self.items@[j].0@ != h.0@,
            decreases self.items@.len() - i,
        {
            if bytes_eq(self.items[i].0.as_slice(), h.0.as_slice()) {
                assert(self.items@[i as int].0@ == h.0@);
                return true;
            }
            i = i + 1;
        }
        false
    }

    /// Adds `h`; the answer is whether it was new.
    pub fn insert(&mut self, h: crate::transaction::transaction::Hash) -> (r: bool)
        requires
            old(self).wf(),
        ensures
            final(self).wf(),
            r == !old(self)@.contains(h.0@),
            final(self)@ == old(self)@.insert(h.0@),
            final(self).count() == old(self).count() + (if r { 1nat } else { 0nat }),
    {
        if self.contains(&h) {
            assert(old(self)@.insert(h.0@) =~= old(self)@);
            return false;
        }
        let ghost before = self.items@;
        self.items.push(h);
        proof {
            assert(self.items@[before.len() as int].0@ == h.0@);
            assert forall|b: Seq<u8>| #[trigger] self@.contains(b) == old(self)@.insert(h.0@).contains(b) by {
                if exists|i: int| 0 <= i < before.len() && #[trigger] before[i].0@ == b {
                    let i = choose|i: int| 0 <= i < before.len() && #[trigger] before[i].0@ == b;
                    assert(self.items@[i].0@ == b);
                }
                if exists|i: int| 0 <= i < self.items@.len() && #[trigger] self.items@[i].0@ == b {
                    let i = choose|i: int| 0 <= i < self.items@.len() && #[trigger] self.items@[i].0@ == b;
                    if i < before.len() {
                        assert(before[i].0@ == b);
                    }
                }
            }
            assert(self@ =~= old(self)@.insert(h.0@));
            assert forall|i: int, j: int| 0 <= i < j < self.items@.len() implies self.items@[i].0@ != self.items@[j].0@ by {
                if j == before.len() {
                    assert(before[i].0@ == self.items@[i].0@);
                }
            }
        }
        true
    }

    /// Takes `h` out; the answer is whether it was held.
    pub fn remove(&mut self, h: &crate::transaction::transaction::Hash) -> (r: bool)
        requires
            old(self).wf(),
        ensures
            final(self).wf(),
            r == old(self)@.contains(h.0@),
            final(self)@ == old(self)@.remove(h.0@),
    {
        let mut i: usize = 0;
        while i < self.items.len()
            invariant
                i <= self.items@.len(),
                self.items@ == old(self).items@,
                old(self).wf(),
                forall|j: int| 0 <= j < i ==> self.items@[j].0@ != h.0@,
            decreases self.items@.len() - i,
        {
            if bytes_eq(self.items[i].0.as_slice(), h.0.as_slice()) {
                let ghost before = self.items@;
                self.items.remove(i);
                proof {
                    assert forall|b: Seq<u8>| #[trigger] self@.contains(b) == old(self)@.remove(h.0@).contains(b) by {
                        if exists|k: int| 0 <= k < self.items@.len() && #[trigger] self.items@[k].0@ == b {
                            let k = choose|k: int| 0 <= k < self.items@.len() && #[trigger] self.items@[k].0@ == b;
                            let k2 = if k < i { k } else { k + 1 };
                            assert(before[k2].0@ == b);
                            assert(k2 != i);
                        }
                        if b != h.0@ && exists|k: int| 0 <= k < before.len() && #[trigger] before[k].0@ == b {
                            let k = choose|k: int| 0 <= k < before.len() && #[trigger] before[k].0@ == b;
                            if k < i {
                                assert(self.items@[k].0@ == b);
                            } else if k > i {
                                assert(self.items@[k - 1].0@ == b);
                            }
                        }
                    }
                    assert(self@ =~= old(self)@.remove(h.0@));
                    assert forall|a: int, b: int| 0 <= a < b < self.items@.len() implies self.items@[a].0@ != self.items@[b].0@ by {
                        let a2 = if a < i { a } else { a + 1 };
                        let b2 = if b < i { b } else { b + 1 };
                        assert(self.items@[a] == before[a2]);
                        assert(self.items@[b] == before[b2]);
                    }
                }
                return true;
            }
            i = i + 1;
        }
        proof {
            if old(self)@.contains(h.0@) {
                let k = choose|k: int|
                    0 <= k < self.items@.len() && #[trigger] self.items@[k].0@ == h.0@;
                assert(self.items@[k].0@ != h.0@);
            }
        }
        assert(old(self)@.remove(h.0@) =~= old(self)@);
        false
    }

    /// The hashes held, in the order in which they came.
    pub fn as_slice(&self) -> (r: &[crate::transaction::transaction::Hash])
        ensures
            hash_set_of(r@) == self@,
            r@.len() == self.count(),
    {
        self.items.as_slice()
    }

    /// Number of hashes held.
    pub fn len(&self) -> (r: usize)
        ensures
            r == self.count(),
    {
        self.items.len()
    }
}

} // verus!
