use vstd::prelude::*;
use linked_hash_set::LinkedHashSet;

verus! {

/// Most tips kept in each of the two lists.
pub const MAX_TIPS: u32 = 5000;

#[verifier::external_type_specification]
#[verifier::external_body]
#[verifier::reject_recursive_types(T)]
#[verifier::reject_recursive_types(S)]
pub struct ExLinkedHashSet<T, S>(LinkedHashSet<T, S>);

/// The hashes a `LinkedHashSet` holds, as bytes, in its order: oldest first.
pub uninterp spec fn hash_set_items(s: LinkedHashSet<crate::transaction::transaction::Hash>) -> Seq<
    Seq<u8>,
>;

/// The bytes of each hash of a list.
pub open spec fn hash_bytes(v: Seq<crate::transaction::transaction::Hash>) -> Seq<Seq<u8>> {
    v.map_values(|h: crate::transaction::transaction::Hash| h.0@)
}

/// `s` with `x` taken out, where it occurs.
pub open spec fn seq_without(s: Seq<Seq<u8>>, x: Seq<u8>) -> Seq<Seq<u8>> {
    if s.contains(x) {
        s.remove(s.index_of(x))
    } else {
        s
    }
}

/// `LinkedHashSet::new`: an empty set.
#[verifier::external_body]
pub(crate) fn hash_set_new() -> (r: LinkedHashSet<crate::transaction::transaction::Hash>)
    ensures
        hash_set_items(r) == Seq::<Seq<u8>>::empty(),
{
    LinkedHashSet::new()
}

/// `LinkedHashSet::len`: the number of hashes held.
#[verifier::external_body]
pub(crate) fn hash_set_len(s: &LinkedHashSet<crate::transaction::transaction::Hash>) -> (r: usize)
    ensures
        r == hash_set_items(*s).len(),
{
    s.len()
}

/// `LinkedHashSet::contains`: whether the hash is held.
#[verifier::external_body]
pub(crate) fn hash_set_contains(
    s: &LinkedHashSet<crate::transaction::transaction::Hash>,
    h: &crate::transaction::transaction::Hash,
) -> (r: bool)
    ensures
        r == hash_set_items(*s).contains(h.0@),
{
    s.contains(h)
}

/// `LinkedHashSet::insert`: the hash goes to the end of the order, whether it was
/// held before or not; the answer is whether it was new. No hash is held twice.
#[verifier::external_body]
pub(crate) fn hash_set_insert(
    s: &mut LinkedHashSet<crate::transaction::transaction::Hash>,
    h: crate::transaction::transaction::Hash,
) -> (r: bool)
    requires
        hash_set_items(*old(s)).no_duplicates(),
    ensures
        r == !hash_set_items(*old(s)).contains(h.0@),
        hash_set_items(*final(s)) == seq_without(hash_set_items(*old(s)), h.0@).push(h.0@),
{
    s.insert(h)
}

/// `LinkedHashSet::remove`: takes the hash out, leaving the order of the others;
/// the answer is whether it was held.
#[verifier::external_body]
pub(crate) fn hash_set_remove(
    s: &mut LinkedHashSet<crate::transaction::transaction::Hash>,
    h: &crate::transaction::transaction::Hash,
) -> (r: bool)
    ensures
        r == hash_set_items(*old(s)).contains(h.0@),
        hash_set_items(*final(s)) == seq_without(hash_set_items(*old(s)), h.0@),
{
    s.remove(h)
}

/// `LinkedHashSet::pop_front`: takes out the oldest hash.
#[verifier::external_body]
pub(crate) fn hash_set_pop_front(s: &mut LinkedHashSet<crate::transaction::transaction::Hash>) -> (r: Option<
    crate::transaction::transaction::Hash,
>)
    ensures
        r is None <==> hash_set_items(*old(s)).len() == 0,
        r is None ==> hash_set_items(*final(s)) == hash_set_items(*old(s)),
        r matches Some(h) ==> h.0@ == hash_set_items(*old(s))[0] && hash_set_items(*final(s))
            == hash_set_items(*old(s)).drop_first(),
{
    s.pop_front()
}

/// The hash at a position of the order, from `LinkedHashSet::iter`.
#[verifier::external_body]
pub(crate) fn hash_set_nth(s: &LinkedHashSet<crate::transaction::transaction::Hash>, index: usize) -> (r:
    Option<crate::transaction::transaction::Hash>)
    ensures
        r is None <==> index >= hash_set_items(*s).len(),
        r matches Some(h) ==> h.0@ == hash_set_items(*s)[index as int],
{
    s.iter().skip(index).next().cloned()
}

/// A number below `n` from `rand::random_range` over the thread's random generator.
/// Claimed of every outcome: it is below `n`.
#[verifier::external_body]
pub(crate) fn random_index(n: usize) -> (r: usize)
    requires
        n > 0,
    ensures
        r < n,
{
    rand::random_range(0..n)
}

/// A list of tips after `h` is added at its end, its oldest tip leaving first
/// when it is full.
pub open spec fn spec_add_tip(items: Seq<Seq<u8>>, h: Seq<u8>) -> Seq<Seq<u8>> {
    seq_without(
        if items.len() == MAX_TIPS {
            items.drop_first()
        } else {
            items
        },
        h,
    ).push(h)
}

/// The non-solid and solid lists after `h` is taken out of the tips: out of the
/// non-solid list if it is there, else out of the solid one.
pub open spec fn spec_remove_tip(tips: Seq<Seq<u8>>, solid: Seq<Seq<u8>>, h: Seq<u8>) -> (
    Seq<Seq<u8>>,
    Seq<Seq<u8>>,
) {
    if tips.contains(h) {
        (seq_without(tips, h), solid)
    } else {
        (tips, seq_without(solid, h))
    }
}

/// The tips of the tangle, split into those not yet known solid and the solid
/// ones; each list keeps at most `MAX_TIPS` hashes, oldest first.
pub struct TipsViewModel {
    pub tips: LinkedHashSet<crate::transaction::transaction::Hash>,
    pub solid_tips: LinkedHashSet<crate::transaction::transaction::Hash>,
}

impl TipsViewModel {
    /// The non-solid tips, oldest first.
    pub open spec fn tip_items(&self) -> Seq<Seq<u8>> {
        hash_set_items(self.tips)
    }

    /// The solid tips, oldest first.
    pub open spec fn solid_items(&self) -> Seq<Seq<u8>> {
        hash_set_items(self.solid_tips)
    }

    /// Neither list holds a hash twice or more than `MAX_TIPS` hashes.
    pub open spec fn wf(&self) -> bool {
        &&& self.tip_items().no_duplicates()
        &&& self.solid_items().no_duplicates()
        &&& self.tip_items().len() <= MAX_TIPS
        &&& self.solid_items().len() <= MAX_TIPS
    }

    /// No tips.
    pub fn new() -> (r: TipsViewModel)
        ensures
            r.wf(),
            r.tip_items() == Seq::<Seq<u8>>::empty(),
            r.solid_items() == Seq::<Seq<u8>>::empty(),
    {
        TipsViewModel { tips: hash_set_new(), solid_tips: hash_set_new() }
    }

    /// Adds a non-solid tip at the end of its list; when the list is full, its
    /// oldest tip leaves first.
    pub fn add_tip(&mut self, hash: crate::transaction::transaction::Hash)
        requires
            old(self).wf(),
        ensures
            final(self).wf(),
            final(self).solid_items() == old(self).solid_items(),
            final(self).tip_items() == spec_add_tip(old(self).tip_items(), hash.0@),
    {
        let len = hash_set_len(&self.tips);
        if len == MAX_TIPS as usize {
            hash_set_pop_front(&mut self.tips);
        }
        proof {
            lemma_no_duplicates_drop_first(old(self).tip_items());
        }
        hash_set_insert(&mut self.tips, hash);
        proof {
            lemma_without_push(
                if old(self).tip_items().len() == MAX_TIPS {
                    old(self).tip_items().drop_first()
                } else {
                    old(self).tip_items()
                },
                hash.0@,
            );
        }
    }

    /// Takes a hash out of the tips: out of the non-solid list if it is there,
    /// else out of the solid list.
    pub fn remove_tip(&mut self, hash: &crate::transaction::transaction::Hash)
        requires
            old(self).wf(),
        ensures
            final(self).wf(),
            (final(self).tip_items(), final(self).solid_items()) == spec_remove_tip(
                old(self).tip_items(),
                old(self).solid_items(),
                hash.0@,
            ),
    {
        if !hash_set_remove(&mut self.tips, hash) {
            assert(seq_without(old(self).tip_items(), hash.0@) == old(self).tip_items());
            hash_set_remove(&mut self.solid_tips, hash);
            proof {
                lemma_without_keeps(old(self).solid_items(), hash.0@);
            }
        } else {
            proof {
                lemma_without_keeps(old(self).tip_items(), hash.0@);
            }
        }
    }

    /// Moves a non-solid tip to the end of the solid list; when that list is full,
    /// its oldest tip leaves first. A hash that is not a non-solid tip changes
    /// nothing.
    pub fn set_solid(&mut self, hash: &crate::transaction::transaction::Hash)
        requires
            old(self).wf(),
        ensures
            final(self).wf(),
            old(self).tip_items().contains(hash.0@) ==> final(self).tip_items() == seq_without(
                old(self).tip_items(),
                hash.0@,
            ) && final(self).solid_items() == seq_without(
                if old(self).solid_items().len() == MAX_TIPS {
                    old(self).solid_items().drop_first()
                } else {
                    old(self).solid_items()
                },
                hash.0@,
            ).push(hash.0@),
            !old(self).tip_items().contains(hash.0@) ==> final(self).tip_items() == old(
                self,
            ).tip_items() && final(self).solid_items() == old(self).solid_items(),
    {
        if hash_set_remove(&mut self.tips, hash) {
            proof {
                lemma_without_keeps(old(self).tip_items(), hash.0@);
            }
            let len = hash_set_len(&self.solid_tips);
            if len == MAX_TIPS as usize {
                hash_set_pop_front(&mut self.solid_tips);
            }
            proof {
                lemma_no_duplicates_drop_first(old(self).solid_items());
            }
            hash_set_insert(&mut self.solid_tips, *hash);
            proof {
                lemma_without_push(
                    if old(self).solid_items().len() == MAX_TIPS {
                        old(self).solid_items().drop_first()
                    } else {
                        old(self).solid_items()
                    },
                    hash.0@,
                );
            }
        } else {
            assert(seq_without(old(self).tip_items(), hash.0@) == old(self).tip_items());
        }
    }

    /// Every tip: the non-solid ones, then the solid ones that are not also
    /// non-solid, each list oldest first.
    pub fn get_tips(&self) -> (r: Vec<crate::transaction::transaction::Hash>)
        requires
            self.wf(),
        ensures
            hash_bytes(r@) == self.tip_items() + self.solid_items().filter(
                |x: Seq<u8>| !self.tip_items().contains(x),
            ),
    {
        let mut out: Vec<crate::transaction::transaction::Hash> = Vec::new();
        let n = hash_set_len(&self.tips);
        let mut i: usize = 0;
        while i < n
            invariant
                n == self.tip_items().len(),
                i <= n,
                hash_bytes(out@) == self.tip_items().take(i as int),
            decreases n - i,
        {
            let h = hash_set_nth(&self.tips, i).unwrap();
            let ghost before = out@;
            out.push(h);
            proof {
                lemma_hash_bytes_push(before, h);
                assert(self.tip_items().take(i + 1) =~= self.tip_items().take(i as int).push(h.0@));
            }
            i = i + 1;
        }
        assert(self.tip_items().take(n as int) =~= self.tip_items());
        let m = hash_set_len(&self.solid_tips);
        let mut j: usize = 0;
        let ghost pred = |x: Seq<u8>| !self.tip_items().contains(x);
        assert(self.solid_items().take(0).filter(pred) =~= Seq::<Seq<u8>>::empty()) by {
            reveal(Seq::filter);
        }
        while j < m
            invariant
                m == self.solid_items().len(),
                j <= m,
                pred == (|x: Seq<u8>| !self.tip_items().contains(x)),
                hash_bytes(out@) == self.tip_items() + self.solid_items().take(j as int).filter(
                    pred,
                ),
            decreases m - j,
        {
            let h = hash_set_nth(&self.solid_tips, j).unwrap();
            let ghost before = self.solid_items().take(j as int);
            proof {
                assert(self.solid_items().take(j + 1).drop_last() =~= before);
                assert(self.solid_items().take(j + 1).last() == h.0@);
                reveal(Seq::filter);
            }
            if !hash_set_contains(&self.tips, &h) {
                let ghost prev = out@;
                out.push(h);
                proof {
                    lemma_hash_bytes_push(prev, h);
                    assert(self.solid_items().take(j + 1).filter(pred) == before.filter(pred).push(
                        h.0@,
                    ));
                    assert(hash_bytes(out@) =~= self.tip_items() + self.solid_items().take(
                        j + 1,
                    ).filter(pred));
                }
            } else {
                assert(self.solid_items().take(j + 1).filter(pred) == before.filter(pred));
            }
            j = j + 1;
        }
        assert(self.solid_items().take(m as int) =~= self.solid_items());
        out
    }

    /// A non-solid tip taken at random; `None` when there is none.
    pub fn get_random_tip(&self) -> (r: Option<crate::transaction::transaction::Hash>)
        requires
            self.wf(),
        ensures
            r is None <==> self.tip_items().len() == 0,
            r matches Some(h) ==> self.tip_items().contains(h.0@),
    {
        let len = hash_set_len(&self.tips);
        if len == 0 {
            return None;
        }
        let index = random_index(len);
        self.tip_at(index)
    }

    /// The non-solid tip at a position of the list, oldest first.
    pub fn tip_at(&self, index: usize) -> (r: Option<crate::transaction::transaction::Hash>)
        ensures
            r is None <==> index >= self.tip_items().len(),
            r matches Some(h) ==> h.0@ == self.tip_items()[index as int],
    {
        hash_set_nth(&self.tips, index)
    }

    /// The solid tip at a position of the list, oldest first.
    pub fn solid_tip_at(&self, index: usize) -> (r: Option<crate::transaction::transaction::Hash>)
        ensures
            r is None <==> index >= self.solid_items().len(),
            r matches Some(h) ==> h.0@ == self.solid_items()[index as int],
    {
        hash_set_nth(&self.solid_tips, index)
    }

    /// A solid tip taken at random; a non-solid one when there is no solid tip;
    /// `None` when there is no tip at all.
    pub fn get_random_solid_tip(&self) -> (r: Option<crate::transaction::transaction::Hash>)
        requires
            self.wf(),
        ensures
            r is None <==> self.tip_items().len() == 0 && self.solid_items().len() == 0,
            r matches Some(h) ==> (if self.solid_items().len() > 0 {
                self.solid_items().contains(h.0@)
            } else {
                self.tip_items().contains(h.0@)
            }),
    {
        let len = hash_set_len(&self.solid_tips);
        if len == 0 {
            return self.get_random_tip();
        }
        let index = random_index(len);
        self.solid_tip_at(index)
    }

    /// Takes in what a scan found of a non-solid tip: a tip that something approves
    /// is no tip any more and leaves; one that nothing approves becomes solid when
    /// its transaction is.
    pub fn settle_tip(&mut self, hash: &crate::transaction::transaction::Hash, has_approvers: bool, solid: bool)
        requires
            old(self).wf(),
        ensures
            final(self).wf(),
            has_approvers ==> (final(self).tip_items(), final(self).solid_items()) == spec_remove_tip(
                old(self).tip_items(),
                old(self).solid_items(),
                hash.0@,
            ),
            !has_approvers && solid && old(self).tip_items().contains(hash.0@) ==> final(self).tip_items()
                == seq_without(old(self).tip_items(), hash.0@) && final(self).solid_items() == seq_without(
                if old(self).solid_items().len() == MAX_TIPS {
                    old(self).solid_items().drop_first()
                } else {
                    old(self).solid_items()
                },
                hash.0@,
            ).push(hash.0@),
            !has_approvers && (!solid || !old(self).tip_items().contains(hash.0@)) ==> final(self).tip_items()
                == old(self).tip_items() && final(self).solid_items() == old(self).solid_items(),
    {
        if has_approvers {
            self.remove_tip(hash);
        } else if solid {
            self.set_solid(hash);
        }
    }

    /// Number of non-solid tips.
    pub fn get_non_solid_tips_count(&self) -> (r: usize)
        ensures
            r == self.tip_items().len(),
    {
        hash_set_len(&self.tips)
    }

    /// Number of tips, solid or not.
    pub fn get_tips_count(&self) -> (r: usize)
        requires
            self.wf(),
        ensures
            r == self.tip_items().len() + self.solid_items().len(),
    {
        hash_set_len(&self.tips) + hash_set_len(&self.solid_tips)
    }
}

pub(crate) proof fn lemma_hash_bytes_push(
    v: Seq<crate::transaction::transaction::Hash>,
    h: crate::transaction::transaction::Hash,
)
    ensures
        hash_bytes(v.push(h)) == hash_bytes(v).push(h.0@),
{
    assert(hash_bytes(v.push(h)) =~= hash_bytes(v).push(h.0@));
}

proof fn lemma_no_duplicates_drop_first(s: Seq<Seq<u8>>)
    requires
        s.no_duplicates(),
    ensures
        s.len() > 0 ==> s.drop_first().no_duplicates(),
{
    if s.len() > 0 {
        assert forall|i: int, j: int| 0 <= i < s.drop_first().len() && 0 <= j < s.drop_first().len()
            && i != j implies s.drop_first()[i] != s.drop_first()[j] by {
            assert(s.drop_first()[i] == s[i + 1]);
            assert(s.drop_first()[j] == s[j + 1]);
        }
    }
}

proof fn lemma_without_keeps(s: Seq<Seq<u8>>, x: Seq<u8>)
    requires
        s.no_duplicates(),
    ensures
        seq_without(s, x).no_duplicates(),
        !seq_without(s, x).contains(x),
        seq_without(s, x).len() <= s.len(),
        forall|y: Seq<u8>| y != x ==> (#[trigger] seq_without(s, x).contains(y) <==> s.contains(y)),
{
    if s.contains(x) {
        let i = s.index_of(x);
        let t = s.remove(i);
        assert forall|a: int, b: int| 0 <= a < t.len() && 0 <= b < t.len() && a != b implies t[a] != t[b] by {
            let a2 = if a < i { a } else { a + 1 };
            let b2 = if b < i { b } else { b + 1 };
            assert(t[a] == s[a2]);
            assert(t[b] == s[b2]);
        }
        if t.contains(x) {
            let k = choose|k: int| 0 <= k < t.len() && t[k] == x;
            let k2 = if k < i { k } else { k + 1 };
            assert(s[k2] == x);
        }
        assert forall|y: Seq<u8>| y != x implies (#[trigger] t.contains(y) <==> s.contains(y)) by {
            if s.contains(y) {
                let k = choose|k: int| 0 <= k < s.len() && s[k] == y;
                if k < i {
                    assert(t[k] == y);
                } else if k > i {
                    assert(t[k - 1] == y);
                }
            }
            if t.contains(y) {
                let k = choose|k: int| 0 <= k < t.len() && t[k] == y;
                let k2 = if k < i { k } else { k + 1 };
                assert(s[k2] == y);
            }
        }
    }
}

proof fn lemma_without_push(s: Seq<Seq<u8>>, x: Seq<u8>)
    requires
        s.no_duplicates(),
    ensures
        seq_without(s, x).push(x).no_duplicates(),
        seq_without(s, x).push(x).len() <= s.len() + 1,
        s.contains(x) ==> seq_without(s, x).push(x).len() == s.len(),
{
    lemma_without_keeps(s, x);
    let t = seq_without(s, x);
    assert forall|a: int, b: int| 0 <= a < t.push(x).len() && 0 <= b < t.push(x).len() && a != b
        implies t.push(x)[a] != t.push(x)[b] by {
        if a == t.len() {
            assert(t[b] == t.push(x)[b]);
        } else if b == t.len() {
            assert(t[a] == t.push(x)[a]);
        } else {
            assert(t[a] == t.push(x)[a]);
            assert(t[b] == t.push(x)[b]);
        }
    }
}

} // verus!
