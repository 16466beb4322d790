use vstd::prelude::*;
use linked_hash_set::LinkedHashSet;
use crate::model::tips_view_model::{
    hash_set_contains,
    hash_set_insert,
    hash_set_items,
    hash_set_len,
    hash_set_new,
    hash_set_nth,
    hash_set_pop_front,
    hash_set_remove,
    hash_bytes,
    lemma_hash_bytes_push,
    seq_without,
};
use crate::transaction::transaction::hash_null;

verus! {

/// Most hashes waiting in the list of ordinary requests.
pub const MAX_TX_REQ_QUEUE_SIZE: usize = 10000;

/// Hashes of transactions to ask neighbours for: those that milestones need,
/// and the others.
pub struct TransactionRequester {
    pub milestone_transactions_to_request: LinkedHashSet<crate::transaction::transaction::Hash>,
    pub transactions_to_request: LinkedHashSet<crate::transaction::transaction::Hash>,
}

/// Takes hashes from the front of `set` until one is not stored, and gives back
/// the last hash taken: `k` hashes leave, the first `k - 1` of them stored, the
/// `k`-th not stored unless it was the last.
pub open spec fn drained<F: Fn(crate::transaction::transaction::Hash) -> bool>(
    before: Seq<Seq<u8>>,
    after: Seq<Seq<u8>>,
    r: Option<crate::transaction::transaction::Hash>,
    stored: F,
) -> bool {
    if before.len() == 0 {
        r is None && after == before
    } else {
        exists|k: int|
            #![trigger before.skip(k)]
            {
                &&& 1 <= k <= before.len()
                &&& after == before.skip(k)
                &&& r is Some
                &&& opt_hash_bytes(r) == before[k - 1]
                &&& stored_prefix(before, k - 1, stored)
                &&& k < before.len() ==> call_ensures(stored, (r->0,), false)
            }
    }
}

/// Each of the first `k` hashes of `before` was answered `true` by `stored`.
pub open spec fn stored_prefix<F: Fn(crate::transaction::transaction::Hash) -> bool>(
    before: Seq<Seq<u8>>,
    k: int,
    stored: F,
) -> bool {
    forall|i: int|
        #![trigger before[i]]
        0 <= i < k ==> call_ensures(stored, (hash_with_bytes(before[i]),), true)
}

/// The hash whose bytes are `b`.
pub open spec fn hash_with_bytes(b: Seq<u8>) -> crate::transaction::transaction::Hash {
    choose|h: crate::transaction::transaction::Hash| h.0@ == b
}

proof fn lemma_hash_with_bytes(h: crate::transaction::transaction::Hash)
    ensures
        hash_with_bytes(h.0@) == h,
{
    let g = hash_with_bytes(h.0@);
    assert(g.0@ == h.0@);
    assert(g.0 =~= h.0);
}

/// The bytes of the hash, if there is one.
pub open spec fn opt_hash_bytes(r: Option<crate::transaction::transaction::Hash>) -> Seq<u8> {
    match r {
        Some(h) => h.0@,
        None => Seq::empty(),
    }
}

fn drain_until_missing<F: Fn(crate::transaction::transaction::Hash) -> bool>(
    set: &mut LinkedHashSet<crate::transaction::transaction::Hash>,
    stored: F,
) -> (r: Option<crate::transaction::transaction::Hash>)
    requires
        forall|h: crate::transaction::transaction::Hash| call_requires(stored, (h,)),
        hash_set_items(*old(set)).no_duplicates(),
    ensures
        hash_set_items(*final(set)).no_duplicates(),
        drained(
            hash_set_items(*old(set)),
            hash_set_items(*final(set)),
            r,
            stored,
        ),
{
    let ghost before = hash_set_items(*set);
    let n = hash_set_len(set);
    let mut hash: Option<crate::transaction::transaction::Hash> = None;
    let mut k: usize = 0;
    let mut done = false;
    while !done
        invariant
            forall|h: crate::transaction::transaction::Hash| call_requires(stored, (h,)),
            n == before.len(),
            k <= before.len(),
            hash_set_items(*set) == before.skip(k as int),
            k == 0 <==> hash is None,
            hash matches Some(h) ==> h.0@ == before[k - 1],
            stored_prefix(before, k - 1, stored),
            !done && k > 0 ==> call_ensures(stored, (hash->0,), true),
            done ==> k == before.len() || (k > 0 && call_ensures(stored, (hash->0,), false)),
        decreases before.len() - k + (if done { 0int } else { 1int }),
    {
        let ghost prev = hash;
        match hash_set_pop_front(set) {
            None => {
                done = true;
            },
            Some(h) => {
                proof {
                    assert(before.skip(k as int).drop_first() =~= before.skip(k + 1));
                    assert(before.skip(k as int)[0] == before[k as int]);
                }
                let is_stored = stored(h);
                proof {
                    if k > 0 {
                        let g = prev->0;
                        lemma_hash_with_bytes(g);
                        assert(call_ensures(stored, (hash_with_bytes(before[k - 1]),), true));
                    }
                }
                hash = Some(h);
                k = k + 1;
                if !is_stored {
                    done = true;
                }
            },
        }
    }
    proof {
        lemma_skip_no_duplicates(before, k as int);
        if before.len() == 0 {
            assert(before.skip(k as int) =~= before);
        } else {
            assert(drained(before, hash_set_items(*set), hash, stored));
        }
    }
    hash
}

proof fn lemma_skip_no_duplicates(s: Seq<Seq<u8>>, k: int)
    requires
        s.no_duplicates(),
        0 <= k <= s.len(),
    ensures
        s.skip(k).no_duplicates(),
{
    assert forall|i: int, j: int| 0 <= i < s.skip(k).len() && 0 <= j < s.skip(k).len() && i != j
        implies s.skip(k)[i] != s.skip(k)[j] by {
        assert(s.skip(k)[i] == s[i + k]);
        assert(s.skip(k)[j] == s[j + k]);
    }
}

impl TransactionRequester {
    /// The milestone requests, oldest first.
    pub open spec fn milestone_items(&self) -> Seq<Seq<u8>> {
        hash_set_items(self.milestone_transactions_to_request)
    }

    /// The ordinary requests, oldest first.
    pub open spec fn normal_items(&self) -> Seq<Seq<u8>> {
        hash_set_items(self.transactions_to_request)
    }

    /// No list holds a hash twice, and the ordinary list is within its bound.
    pub open spec fn wf(&self) -> bool {
        &&& self.milestone_items().no_duplicates()
        &&& self.normal_items().no_duplicates()
        &&& self.normal_items().len() <= MAX_TX_REQ_QUEUE_SIZE
    }

    /// No requests.
    pub fn new() -> (r: TransactionRequester)
        ensures
            r.wf(),
            r.milestone_items() == Seq::<Seq<u8>>::empty(),
            r.normal_items() == Seq::<Seq<u8>>::empty(),
    {
        TransactionRequester {
            milestone_transactions_to_request: hash_set_new(),
            transactions_to_request: hash_set_new(),
        }
    }

    /// Every requested hash: the milestone ones, then the ordinary ones.
    pub fn get_requested_transactions(&self) -> (r: Vec<crate::transaction::transaction::Hash>)
        ensures
            hash_bytes(r@) == self.milestone_items() + self.normal_items(),
    {
        let mut out: Vec<crate::transaction::transaction::Hash> = Vec::new();
        let n = hash_set_len(&self.milestone_transactions_to_request);
        let mut i: usize = 0;
        while i < n
            invariant
                n == self.milestone_items().len(),
                i <= n,
                hash_bytes(out@) == self.milestone_items().take(i as int),
            decreases n - i,
        {
            let h = hash_set_nth(&self.milestone_transactions_to_request, i).unwrap();
            let ghost before = out@;
            out.push(h);
            proof {
                lemma_hash_bytes_push(before, h);
                assert(self.milestone_items().take(i + 1) =~= self.milestone_items().take(
                    i as int,
                ).push(h.0@));
            }
            i = i + 1;
        }
        let m = hash_set_len(&self.transactions_to_request);
        let mut j: usize = 0;
        while j < m
            invariant
                n == self.milestone_items().len(),
                m == self.normal_items().len(),
                j <= m,
                hash_bytes(out@) == self.milestone_items().take(n as int) + self.normal_items().take(
                    j as int,
                ),
            decreases m - j,
        {
            let h = hash_set_nth(&self.transactions_to_request, j).unwrap();
            let ghost before = out@;
            out.push(h);
            proof {
                lemma_hash_bytes_push(before, h);
                assert(self.normal_items().take(j + 1) =~= self.normal_items().take(
                    j as int,
                ).push(h.0@));
                assert(hash_bytes(out@) =~= self.milestone_items().take(n as int)
                    + self.normal_items().take(j + 1));
            }
            j = j + 1;
        }
        assert(self.milestone_items().take(n as int) =~= self.milestone_items());
        assert(self.normal_items().take(m as int) =~= self.normal_items());
        out
    }

    /// Number of hashes waiting in both lists.
    pub fn num_transactions_to_request(&self) -> (r: usize)
        requires
            self.wf(),
            self.milestone_items().len() + self.normal_items().len() <= usize::MAX,
        ensures
            r == self.milestone_items().len() + self.normal_items().len(),
    {
        hash_set_len(&self.milestone_transactions_to_request) + hash_set_len(
            &self.transactions_to_request,
        )
    }

    /// Takes a hash out of the milestone requests; the answer is whether it was
    /// there. The ordinary requests are left as they are.
    pub fn clear_transaction_request(&mut self, hash: crate::transaction::transaction::Hash) -> (r:
        bool)
        requires
            old(self).wf(),
        ensures
            final(self).wf(),
            r == old(self).milestone_items().contains(hash.0@),
            final(self).milestone_items() == seq_without(old(self).milestone_items(), hash.0@),
            final(self).normal_items() == old(self).normal_items(),
    {
        let milestone = hash_set_remove(&mut self.milestone_transactions_to_request, &hash);
        proof {
            lemma_without_props(old(self).milestone_items(), hash.0@);
        }
        let normal = hash_set_remove(&mut self.milestone_transactions_to_request, &hash);
        proof {
            lemma_without_props(seq_without(old(self).milestone_items(), hash.0@), hash.0@);
        }
        milestone || normal
    }

    /// Whether the ordinary list is full.
    pub fn transactions_to_request_is_full(&self) -> (r: bool)
        ensures
            r == (self.normal_items().len() >= MAX_TX_REQ_QUEUE_SIZE),
    {
        hash_set_len(&self.transactions_to_request) >= MAX_TX_REQ_QUEUE_SIZE
    }

    /// Asks for a transaction that is not stored yet (`stored` says whether it is).
    /// A milestone request moves the hash out of the ordinary list to the end of the
    /// milestone list; an ordinary one goes to the end of the ordinary list unless
    /// a milestone request holds it or the list is full. The null hash is never
    /// asked for.
    pub fn request_transaction(
        &mut self,
        hash: crate::transaction::transaction::Hash,
        milestone: bool,
        stored: bool,
    )
        requires
            old(self).wf(),
        ensures
            final(self).wf(),
            ({
                let ms = old(self).milestone_items();
                let ns = old(self).normal_items();
                if hash.0@ == Seq::new(32, |i: int| 0u8) || stored {
                    final(self).milestone_items() == ms && final(self).normal_items() == ns
                } else if milestone {
                    final(self).milestone_items() == seq_without(ms, hash.0@).push(hash.0@)
                        && final(self).normal_items() == seq_without(ns, hash.0@)
                } else if !ms.contains(hash.0@) && ns.len() < MAX_TX_REQ_QUEUE_SIZE {
                    final(self).milestone_items() == ms && final(self).normal_items() == seq_without(
                        ns,
                        hash.0@,
                    ).push(hash.0@)
                } else {
                    final(self).milestone_items() == ms && final(self).normal_items() == ns
                }
            }),
    {
        let null = hash_null();
        if !crate::transaction::transaction::bytes_eq(hash.0.as_slice(), null.0.as_slice())
            && !stored {
            if milestone {
                hash_set_remove(&mut self.transactions_to_request, &hash);
                proof {
                    lemma_without_props(old(self).normal_items(), hash.0@);
                }
                hash_set_insert(&mut self.milestone_transactions_to_request, hash);
                proof {
                    lemma_without_push_props(old(self).milestone_items(), hash.0@);
                }
            } else {
                if !hash_set_contains(&self.milestone_transactions_to_request, &hash)
                    && !self.transactions_to_request_is_full() {
                    hash_set_insert(&mut self.transactions_to_request, hash);
                    proof {
                        lemma_without_push_props(old(self).normal_items(), hash.0@);
                    }
                }
            }
        }
    }

    /// Takes the next hash to ask for. The milestone list is used (the ordinary one
    /// when it is empty) if `milestone`, else the ordinary list (the milestone one
    /// when it is empty). Hashes leave the front of that list until one that is not
    /// stored has left; that last one is returned. When `remove_requested` and not
    /// `milestone`, the returned hash also leaves the ordinary list.
    pub fn poll_transaction_to_request<F: Fn(crate::transaction::transaction::Hash) -> bool>(
        &mut self,
        milestone: bool,
        stored: F,
        remove_requested: bool,
    ) -> (r: Option<crate::transaction::transaction::Hash>)
        requires
            old(self).wf(),
            forall|h: crate::transaction::transaction::Hash| call_requires(stored, (h,)),
        ensures
            final(self).wf(),
            ({
                let ms = old(self).milestone_items();
                let ns = old(self).normal_items();
                let from_milestone = if milestone {
                    ms.len() > 0
                } else {
                    ns.len() == 0
                };
                if from_milestone {
                    exists|ms2: Seq<Seq<u8>>|
                        #![trigger drained(ms, ms2, r, stored)]
                        drained(ms, ms2, r, stored) && final(self).milestone_items() == ms2 && (if !milestone
                            && remove_requested && r is Some {
                            final(self).normal_items() == seq_without(ns, opt_hash_bytes(r))
                        } else {
                            final(self).normal_items() == ns
                        })
                } else {
                    final(self).milestone_items() == ms && exists|ns2: Seq<Seq<u8>>|
                        #![trigger drained(ns, ns2, r, stored)]
                        drained(ns, ns2, r, stored) && (if !milestone && remove_requested && r is Some {
                            final(self).normal_items() == seq_without(ns2, opt_hash_bytes(r))
                        } else {
                            final(self).normal_items() == ns2
                        })
                }
            }),
    {
        let use_milestone = if milestone {
            hash_set_len(&self.milestone_transactions_to_request) > 0
        } else {
            hash_set_len(&self.transactions_to_request) == 0
        };
        let hash = if use_milestone {
            drain_until_missing(&mut self.milestone_transactions_to_request, stored)
        } else {
            drain_until_missing(&mut self.transactions_to_request, stored)
        };
        let ghost mid = self.normal_items();
        if !milestone && remove_requested {
            if let Some(h) = hash {
                hash_set_remove(&mut self.transactions_to_request, &h);
                proof {
                    lemma_without_props(mid, h.0@);
                }
            }
        }
        hash
    }
}

proof fn lemma_without_props(s: Seq<Seq<u8>>, x: Seq<u8>)
    requires
        s.no_duplicates(),
    ensures
        seq_without(s, x).no_duplicates(),
        seq_without(s, x).len() <= s.len(),
        !seq_without(s, x).contains(x),
{
    if s.contains(x) {
        let i = s.index_of(x);
        let t = s.remove(i);
        assert forall|a: int, b: int| 0 <= a < t.len() && 0 <= b < t.len() && a != b implies t[a] != t[b] by {
            let a2 = if a < i { a } else { a + 1 };
            let b2 = if b < i { b } else { b + 1 };
            assert(t[a] == s[a2]);
            assert(t[b] == s[b2]);
        }
        if t.contains(x) {
            let k = choose|k: int| 0 <= k < t.len() && t[k] == x;
            let k2 = if k < i { k } else { k + 1 };
            assert(s[k2] == x);
        }
    }
}

proof fn lemma_without_push_props(s: Seq<Seq<u8>>, x: Seq<u8>)
    requires
        s.no_duplicates(),
    ensures
        seq_without(s, x).push(x).no_duplicates(),
        seq_without(s, x).push(x).len() <= s.len() + 1,
{
    lemma_without_props(s, x);
    let t = seq_without(s, x);
    assert forall|a: int, b: int| 0 <= a < t.push(x).len() && 0 <= b < t.push(x).len() && a != b
        implies t.push(x)[a] != t.push(x)[b] by {
        if a == t.len() {
            assert(t[b] == t.push(x)[b]);
        } else if b == t.len() {
            assert(t[a] == t.push(x)[a]);
        } else {
            assert(t[a] == t.push(x)[a]);
            assert(t[b] == t.push(x)[b]);
        }
    }
}

} // verus!
