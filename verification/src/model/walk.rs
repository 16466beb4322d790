use vstd::prelude::*;
use std::collections::VecDeque;
use crate::storage::hashes::Hashes;

verus! {

/// A breadth-first walk over the tangle: the hashes still to look at, in order,
/// and the hashes already looked at.
pub struct TangleWalk {
    pub visited: Hashes,
    pub queue: VecDeque<crate::transaction::transaction::Hash>,
}

/// What taking the next hash of a walk does: the first `k` hashes of the queue
/// leave it, all but the last of them already visited, the last one not; it is
/// the answer, and becomes visited. With no such hash the queue empties and the
/// answer is `None`.
pub open spec fn next_taken(
    q: Seq<crate::transaction::transaction::Hash>,
    visited: Set<Seq<u8>>,
    q2: Seq<crate::transaction::transaction::Hash>,
    visited2: Set<Seq<u8>>,
    r: Option<crate::transaction::transaction::Hash>,
) -> bool {
    match r {
        None => q2.len() == 0 && visited2 == visited && forall|i: int|
            0 <= i < q.len() ==> visited.contains(#[trigger] q[i].0@),
        Some(h) => exists|k: int|
            #![trigger q.skip(k)]
            {
                &&& 1 <= k <= q.len()
                &&& q[k - 1] == h
                &&& !visited.contains(h.0@)
                &&& forall|i: int| 0 <= i < k - 1 ==> visited.contains(#[trigger] q[i].0@)
                &&& q2 == q.skip(k)
                &&& visited2 == visited.insert(h.0@)
            },
    }
}

impl TangleWalk {
    /// A walk that starts from `start`, with `visited` already seen.
    pub fn new(visited: Hashes, start: Option<crate::transaction::transaction::Hash>) -> (r:
        TangleWalk)
        ensures
            r.visited == visited,
            r.queue@ == (match start {
                Some(h) => seq![h],
                None => Seq::<crate::transaction::transaction::Hash>::empty(),
            }),
    {
        let mut queue: VecDeque<crate::transaction::transaction::Hash> = VecDeque::new();
        match start {
            Some(h) => {
                queue.push_back(h);
                assert(queue@ =~= seq![h]);
            },
            None => {},
        }
        TangleWalk { visited, queue }
    }

    /// Adds a hash at the end of the queue.
    pub fn push(&mut self, h: crate::transaction::transaction::Hash)
        ensures
            final(self).queue@ == old(self).queue@.push(h),
            final(self).visited == old(self).visited,
    {
        self.queue.push_back(h);
    }

    /// Takes the next hash not visited yet out of the queue, and marks it visited.
    pub fn next(&mut self) -> (r: Option<crate::transaction::transaction::Hash>)
        requires
            old(self).visited.wf(),
        ensures
            final(self).visited.wf(),
            next_taken(
                old(self).queue@,
                old(self).visited@,
                final(self).queue@,
                final(self).visited@,
                r,
            ),
    {
        let ghost q = self.queue@;
        let ghost v0 = self.visited@;
        let mut k: usize = 0;
        let n = self.queue.len();
        loop
            invariant
                n == q.len(),
                q == old(self).queue@,
                v0 == old(self).visited@,
                self.visited.wf(),
                self.visited@ == v0,
                k <= q.len(),
                self.queue@ == q.skip(k as int),
                forall|i: int| 0 <= i < k ==> v0.contains(#[trigger] q[i].0@),
            decreases q.len() - k,
        {
            match self.queue.pop_front() {
                None => {
                    assert(k == q.len());
                    assert(self.queue@.len() == 0);
                    return None;
                },
                Some(h) => {
                    proof {
                        assert(q.skip(k as int)[0] == q[k as int]);
                        assert(q.skip(k as int).subrange(1, q.skip(k as int).len() as int) =~= q.skip(
                            k + 1,
                        ));
                    }
                    k = k + 1;
                    if self.visited.insert(h) {
                        assert(q.skip(k as int) == q.skip(k as int));
                        return Some(h);
                    }
                },
            }
        }
    }
}

} // verus!
