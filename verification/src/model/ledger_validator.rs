use vstd::prelude::*;
use crate::model::transaction_validator::TransactionError;
use crate::model::walk::{next_taken, TangleWalk};
use crate::storage::balances::Balances;
use crate::storage::hashes::Hashes;
use crate::storage::snapshot::{no_negative, spec_merged, spec_patched, sums_fit, Snapshot};
use crate::transaction::transaction::{
    hash_null,
    spec_address_of_digest,
    spec_sha3_256,
    spec_uncompressed_key,
    Address,
    TransactionObject,
    TransactionType,
};

verus! {

/// Whether `x` fits in an `i32`.
pub open spec fn fits_i32(x: int) -> bool {
    i32::MIN <= x <= i32::MAX
}

/// Every balance of `m` fits in an `i32`.
pub open spec fn all_i32(m: Map<Seq<u8>, int>) -> bool {
    forall|k: Seq<u8>| #![trigger m[k]] m.dom().contains(k) ==> fits_i32(m[k])
}

/// `k` receives `v`: its balance goes up by `v`, or becomes `v` where it had none;
/// `None` when the sum does not fit in an `i32`.
pub open spec fn spec_credit(m: Map<Seq<u8>, int>, k: Seq<u8>, v: int) -> Option<Map<Seq<u8>, int>> {
    if m.dom().contains(k) {
        if fits_i32(m[k] + v) {
            Some(m.insert(k, m[k] + v))
        } else {
            None
        }
    } else {
        Some(m.insert(k, v))
    }
}

/// `k` gives `v`: its balance goes down by `v`; where it had none, it becomes `v`
/// (as the ledger has always done); `None` when the difference does not fit in an
/// `i32`.
pub open spec fn spec_debit(m: Map<Seq<u8>, int>, k: Seq<u8>, v: int) -> Option<Map<Seq<u8>, int>> {
    if m.dom().contains(k) {
        if fits_i32(m[k] - v) {
            Some(m.insert(k, m[k] - v))
        } else {
            None
        }
    } else {
        Some(m.insert(k, v))
    }
}

/// The address bytes of a public key, `None` when it is not a key.
pub open spec fn spec_key_address(pk: Seq<u8>) -> Option<Seq<u8>> {
    match spec_uncompressed_key(pk) {
        Some(u) => Some(spec_address_of_digest(spec_sha3_256(u))),
        None => None,
    }
}

/// Records a transfer of `value` (taken as an `i32`) from `from` to `to` in a
/// diff: first the credit, then the debit. A sum or difference that does not
/// fit refuses the transfer with `InvalidData`, after the credit when it is the
/// debit that fails.
pub fn apply_transfer(state: &mut Balances, to: &Address, from: &Address, value: u32) -> (r: Result<
    (),
    TransactionError,
>)
    requires
        old(state).wf(),
        all_i32(old(state)@),
    ensures
        final(state).wf(),
        all_i32(final(state)@),
        match spec_credit(old(state)@, to.0@, (value as i32) as int) {
            None => r == Err::<(), TransactionError>(TransactionError::InvalidData) && final(state)@
                == old(state)@,
            Some(m1) => match spec_debit(m1, from.0@, (value as i32) as int) {
                None => r == Err::<(), TransactionError>(TransactionError::InvalidData) && final(state)@ == m1,
                Some(m2) => r == Ok::<(), TransactionError>(()) && final(state)@ == m2,
            },
        },
{
    let v: i32 = value as i32;
    let credited: i32 = match state.get(to) {
        Some(n) => {
            let n32: i32 = n as i32;
            match v.checked_add(n32) {
                Some(s) => s,
                None => return Err(TransactionError::InvalidData),
            }
        },
        None => v,
    };
    state.insert(*to, credited as i64);
    let debited: i32 = match state.get(from) {
        Some(n) => {
            let n32: i32 = n as i32;
            match n32.checked_sub(v) {
                Some(s) => s,
                None => return Err(TransactionError::InvalidData),
            }
        },
        None => v,
    };
    state.insert(*from, debited as i64);
    Ok(())
}

/// What the walk that sums a diff asks for after a transaction.
#[derive(Copy, Clone, Debug)]
pub enum DiffStep {
    /// Go on with the next hash of the walk.
    Continue,
    /// The transaction is known only by its hash: it must be requested, and the
    /// diff cannot be summed yet.
    Request(crate::transaction::transaction::Hash),
}

/// The walk from a tip down the tangle that sums the value transfers of the
/// transactions not yet in a snapshot at or before `latest_snapshot_index`.
pub struct DiffWalk {
    pub walk: TangleWalk,
    pub counted: Hashes,
    pub state: Balances,
    pub analyzed: usize,
    pub latest_snapshot_index: u32,
}

impl DiffWalk {
    /// The sets hold each hash once, and every balance fits in an `i32`.
    pub open spec fn wf(&self) -> bool {
        &&& self.walk.visited.wf()
        &&& self.counted.wf()
        &&& self.state.wf()
        &&& all_i32(self.state@)
    }

    /// Whether a transaction in snapshot `snapshot` is still to be counted.
    pub open spec fn in_scope(&self, snapshot: u32) -> bool {
        snapshot == 0 || snapshot > self.latest_snapshot_index
    }

    /// A walk from `tip` (none without a tip), with `visited` already seen; the null
    /// hash counts as seen and counted.
    pub fn new(
        visited: Hashes,
        tip: Option<crate::transaction::transaction::Hash>,
        latest_snapshot_index: u32,
    ) -> (r: DiffWalk)
        requires
            visited.wf(),
        ensures
            r.wf(),
            r.walk.visited@ == visited@.insert(Seq::new(32, |i: int| 0u8)),
            r.walk.queue@ == (match tip {
                Some(h) => seq![h],
                None => Seq::<crate::transaction::transaction::Hash>::empty(),
            }),
            r.counted@ == Set::<Seq<u8>>::empty().insert(Seq::new(32, |i: int| 0u8)),
            r.state@ == Map::<Seq<u8>, int>::empty(),
            r.analyzed == 0,
            r.latest_snapshot_index == latest_snapshot_index,
    {
        let mut visited = visited;
        visited.insert(hash_null());
        let mut counted = Hashes::new();
        counted.insert(hash_null());
        DiffWalk {
            walk: TangleWalk::new(visited, tip),
            counted,
            state: Balances::new(),
            analyzed: 0,
            latest_snapshot_index,
        }
    }

    /// The next hash to load, not seen before; `None` when the walk is over.
    pub fn next(&mut self) -> (r: Option<crate::transaction::transaction::Hash>)
        requires
            old(self).wf(),
        ensures
            final(self).wf(),
            next_taken(
                old(self).walk.queue@,
                old(self).walk.visited@,
                final(self).walk.queue@,
                final(self).walk.visited@,
                r,
            ),
            final(self).counted == old(self).counted,
            final(self).state == old(self).state,
            final(self).analyzed == old(self).analyzed,
            final(self).latest_snapshot_index == old(self).latest_snapshot_index,
    {
        self.walk.next()
    }

    /// Takes in the transaction loaded for the last hash. One in scope is counted as
    /// analyzed; if it is known only by its hash it must be requested; else its
    /// transfer, when it moves value and was not counted yet, is added to the diff,
    /// and its trunk then its branch join the walk.
    pub fn on_transaction(&mut self, t: &TransactionObject) -> (r: Result<DiffStep, TransactionError>)
        requires
            old(self).wf(),
            old(self).analyzed < usize::MAX,
        ensures
            final(self).wf(),
            final(self).walk.visited == old(self).walk.visited,
            final(self).latest_snapshot_index == old(self).latest_snapshot_index,
            !old(self).in_scope(t.snapshot) ==> r == Ok::<DiffStep, TransactionError>(
                DiffStep::Continue,
            ) && final(self).walk.queue@ == old(self).walk.queue@ && final(self).counted@ == old(self).counted@ && final(self).state@ == old(self).state@ && final(self).analyzed == old(self).analyzed,
            old(self).in_scope(t.snapshot) ==> final(self).analyzed == old(self).analyzed + 1,
            old(self).in_scope(t.snapshot) && t.data_type == TransactionType::HashOnly ==> r == Ok::<
                DiffStep,
                TransactionError,
            >(DiffStep::Request(t.hash)) && final(self).walk.queue@ == old(self).walk.queue@
                && final(self).counted@ == old(self).counted@ && final(self).state@ == old(self).state@,
            old(self).in_scope(t.snapshot) && t.data_type == TransactionType::Full ==> ({
                let counts = t.value != 0 && !old(self).counted@.contains(t.hash.0@);
                &&& final(self).counted@ == (if t.value != 0 {
                    old(self).counted@.insert(t.hash.0@)
                } else {
                    old(self).counted@
                })
                &&& !counts ==> r == Ok::<DiffStep, TransactionError>(DiffStep::Continue)
                    && final(self).state@ == old(self).state@
                &&& counts ==> match spec_key_address(t.signature_pubkey@) {
                    None => r == Err::<DiffStep, TransactionError>(TransactionError::InvalidData)
                        && final(self).state@ == old(self).state@,
                    Some(from) => match spec_credit(
                        old(self).state@,
                        t.address.0@,
                        (t.value as i32) as int,
                    ) {
                        None => r == Err::<DiffStep, TransactionError>(
                            TransactionError::InvalidData,
                        ) && final(self).state@ == old(self).state@,
                        Some(m1) => match spec_debit(m1, from, (t.value as i32) as int) {
                            None => r == Err::<DiffStep, TransactionError>(
                                TransactionError::InvalidData,
                            ) && final(self).state@ == m1,
                            Some(m2) => r == Ok::<DiffStep, TransactionError>(DiffStep::Continue)
                                && final(self).state@ == m2,
                        },
                    },
                }
                &&& r is Ok ==> final(self).walk.queue@ == old(self).walk.queue@.push(
                    t.trunk_transaction,
                ).push(t.branch_transaction)
            }),
    {
        if !(t.snapshot == 0 || t.snapshot > self.latest_snapshot_index) {
            return Ok(DiffStep::Continue);
        }
        self.analyzed = self.analyzed + 1;
        match t.data_type {
            TransactionType::HashOnly => {
                return Ok(DiffStep::Request(t.hash));
            },
            TransactionType::Full => {},
        }
        if t.value != 0 && self.counted.insert(t.hash) {
            let from = match Address::from_public_key(&t.signature_pubkey) {
                Some(a) => a,
                None => return Err(TransactionError::InvalidData),
            };
            match apply_transfer(&mut self.state, &t.address, &from, t.value) {
                Ok(()) => {},
                Err(e) => return Err(e),
            }
        }
        self.walk.push(t.trunk_transaction);
        self.walk.push(t.branch_transaction);
        Ok(DiffStep::Continue)
    }
}

/// `current` with the addresses of `diff` that it lacks, each with its balance in
/// `diff` taken as an `i32`.
pub open spec fn spec_merge_missing(current: Map<Seq<u8>, int>, diff: Map<Seq<u8>, int>) -> Map<Seq<u8>, int> {
    Map::new(
        |k: Seq<u8>| current.dom().contains(k) || diff.dom().contains(k),
        |k: Seq<u8>|
            if current.dom().contains(k) {
                current[k]
            } else {
                (diff[k] as i64 as i32) as int
            },
    )
}

/// Where the diff summed so far lacks an address of `diff`, gives it the
/// balance it has in `diff`, taken as an `i32`.
pub fn merge_missing(current: &mut Balances, diff: &Balances)
    requires
        old(current).wf(),
        diff.wf(),
        all_i32(old(current)@),
        forall|k: Seq<u8>|
            #![trigger diff@[k]]
            diff@.dom().contains(k) && old(current)@.dom().contains(k) ==> fits_i32(
                (diff@[k] as i64 as i32) + old(current)@[k],
            ),
    ensures
        final(current).wf(),
        all_i32(final(current)@),
        final(current)@ == spec_merge_missing(old(current)@, diff@),
{
    let entries = diff.as_slice();
    let ghost s = entries@;
    let ghost c0 = current@;
    let mut i: usize = 0;
    while i < entries.len()
        invariant
            s == entries@,
            crate::storage::balances::distinct_keys(s),
            crate::storage::balances::map_of(s) == diff@,
            i <= s.len(),
            current.wf(),
            all_i32(current@),
            all_i32(c0),
            forall|k: Seq<u8>|
                #![trigger diff@[k]]
                diff@.dom().contains(k) && c0.dom().contains(k) ==> fits_i32(
                    (diff@[k] as i64 as i32) + c0[k],
                ),
            current@ == Map::new(
                |k: Seq<u8>| c0.dom().contains(k) || crate::storage::balances::map_of(
                    s.take(i as int),
                ).dom().contains(k),
                |k: Seq<u8>|
                    if c0.dom().contains(k) {
                        c0[k]
                    } else {
                        (diff@[k] as i64 as i32) as int
                    },
            ),
        decreases s.len() - i,
    {
        let (a, v) = entries[i];
        proof {
            crate::storage::balances::lemma_map_of_index(s, i as int);
            assert(s.take(i + 1).drop_last() =~= s.take(i as int));
        }
        let present = current.get(&a);
        match present {
            Some(old_value) => {
                assert(c0.dom().contains(a.0@)) by {
                    if !c0.dom().contains(a.0@) {
                        crate::storage::balances::lemma_map_of_contains(s.take(i as int), a.0@);
                        let j = choose|j: int|
                            0 <= j < s.take(i as int).len() && #[trigger] s.take(i as int)[j].0.0@
                                == a.0@;
                        assert(s[j].0.0@ == s[i as int].0.0@);
                    }
                }
                assert(diff@[a.0@] == v);
                // the sum the ledger has always formed here, though only the
                // balance of an address that is missing is changed
                let _sum: i32 = (v as i32) + (old_value as i32);
            },
            None => {
                current.insert(a, (v as i32) as i64);
            },
        }
        proof {
            assert(current@ =~= Map::new(
                |k: Seq<u8>| c0.dom().contains(k) || crate::storage::balances::map_of(
                    s.take(i + 1),
                ).dom().contains(k),
                |k: Seq<u8>|
                    if c0.dom().contains(k) {
                        c0[k]
                    } else {
                        (diff@[k] as i64 as i32) as int
                    },
            ));
        }
        i = i + 1;
    }
    assert(s.take(s.len() as int) =~= s);
    assert(current@ =~= spec_merge_missing(c0, diff@));
}

/// Copies every balance of `current` into `diff`.
pub fn commit_diff(current: &Balances, diff: &mut Balances)
    requires
        current.wf(),
        old(diff).wf(),
    ensures
        final(diff).wf(),
        final(diff)@ == old(diff)@.union_prefer_right(current@),
{
    let entries = current.as_slice();
    let ghost s = entries@;
    let ghost d0 = diff@;
    let mut i: usize = 0;
    while i < entries.len()
        invariant
            s == entries@,
            crate::storage::balances::map_of(s) == current@,
            i <= s.len(),
            diff.wf(),
            diff@ == d0.union_prefer_right(crate::storage::balances::map_of(s.take(i as int))),
        decreases s.len() - i,
    {
        let (a, v) = entries[i];
        diff.insert(a, v);
        proof {
            assert(s.take(i + 1).drop_last() =~= s.take(i as int));
            assert(diff@ =~= d0.union_prefer_right(crate::storage::balances::map_of(s.take(i + 1))));
        }
        i = i + 1;
    }
    assert(s.take(s.len() as int) =~= s);
}

/// The early answers of `update_diff` for a tip, given whether it is stored and
/// solid (`None` when it is not stored) and whether it is approved already: a
/// tip that is not stored is refused with `InvalidHash`; one that is not solid is
/// answered `false`, and one approved already `true`; `None` means the walk from
/// the tip runs (an empty walk result then also answers `false`, and otherwise
/// `finish_update_diff` decides).
pub fn update_diff_start(stored_solid: Option<bool>, already_approved: bool) -> (r: Result<
    Option<bool>,
    TransactionError,
>)
    ensures
        r == (match stored_solid {
            None => Err(TransactionError::InvalidHash),
            Some(false) => Ok(Some(false)),
            Some(true) => if already_approved {
                Ok(Some(true))
            } else {
                Ok(None)
            },
        }),
{
    match stored_solid {
        None => Err(TransactionError::InvalidHash),
        Some(false) => Ok(Some(false)),
        Some(true) => if already_approved {
            Ok(Some(true))
        } else {
            Ok(None)
        },
    }
}

/// The end of `update_diff`, given the diff `current` that the walk from the tip
/// summed and the hashes `visited` it went through: the balances of `diff` that
/// `current` lacks are merged into it; when the snapshot patched with the result
/// has no negative balance, the result goes into `diff` and `visited` into
/// `approved`, and otherwise neither changes. The answer is whether it has none.
pub fn finish_update_diff(
    snapshot: &Snapshot,
    current: Balances,
    diff: &mut Balances,
    approved: &mut Hashes,
    visited: &Hashes,
) -> (r: bool)
    requires
        snapshot.state.wf(),
        current.wf(),
        old(diff).wf(),
        old(approved).wf(),
        all_i32(current@),
        forall|k: Seq<u8>|
            #![trigger old(diff)@[k]]
            old(diff)@.dom().contains(k) && current@.dom().contains(k) ==> fits_i32(
                (old(diff)@[k] as i64 as i32) + current@[k],
            ),
        sums_fit(snapshot.state@, spec_merge_missing(current@, old(diff)@)),
    ensures
        final(diff).wf(),
        final(approved).wf(),
        r == no_negative(spec_patched(snapshot.state@, spec_merge_missing(current@, old(diff)@))),
        r ==> final(diff)@ == old(diff)@.union_prefer_right(spec_merge_missing(current@, old(diff)@))
            && final(approved)@ == old(approved)@.union(visited@),
        !r ==> final(diff)@ == old(diff)@ && final(approved)@ == old(approved)@,
{
    let mut current = current;
    merge_missing(&mut current, diff);
    let copy = match Balances::from_entries(vstd::slice::slice_to_vec(current.as_slice())) {
        Some(b) => b,
        None => {
            proof {
                assert(false);
            }
            Balances::new()
        },
    };
    let mut patched = snapshot.patched_diff(copy);
    if !Snapshot::is_consistent(&mut patched) {
        return false;
    }
    commit_diff(&current, diff);
    let hs = visited.as_slice();
    let ghost a0 = approved@;
    let mut i: usize = 0;
    while i < hs.len()
        invariant
            i <= hs@.len(),
            approved.wf(),
            approved@ == a0.union(crate::storage::hashes::hash_set_of(hs@.take(i as int))),
        decreases hs@.len() - i,
    {
        approved.insert(hs[i]);
        proof {
            let t = hs@.take(i + 1);
            assert forall|b: Seq<u8>| #[trigger] approved@.contains(b) == a0.union(crate::storage::hashes::hash_set_of(t)).contains(b) by {
                if crate::storage::hashes::hash_set_of(hs@.take(i as int)).contains(b) {
                    let j = choose|j: int| 0 <= j < hs@.take(i as int).len() && #[trigger] hs@.take(i as int)[j].0@ == b;
                    assert(t[j].0@ == b);
                }
                if crate::storage::hashes::hash_set_of(t).contains(b) {
                    let j = choose|j: int| 0 <= j < t.len() && #[trigger] t[j].0@ == b;
                    if j < i {
                        assert(hs@.take(i as int)[j].0@ == b);
                    }
                }
                if b == hs@[i as int].0@ {
                    assert(t[i as int].0@ == b);
                }
            }
            assert(approved@ =~= a0.union(crate::storage::hashes::hash_set_of(t)));
        }
        i = i + 1;
    }
    assert(hs@.take(hs@.len() as int) =~= hs@);
    true
}

/// What `update_diff` answers once the walk from the tip is over, given the diff
/// the walk summed (`None` when it could not sum one, as a transaction is still
/// to be requested) and the hashes it went through: no diff answers `false` and
/// changes nothing; a diff goes to `finish_update_diff`.
pub fn update_diff_after_walk(
    snapshot: &Snapshot,
    walk: Option<Balances>,
    visited: &Hashes,
    diff: &mut Balances,
    approved: &mut Hashes,
) -> (r: bool)
    requires
        snapshot.state.wf(),
        old(diff).wf(),
        old(approved).wf(),
        walk matches Some(c) ==> {
            &&& c.wf()
            &&& all_i32(c@)
            &&& forall|k: Seq<u8>|
                #![trigger old(diff)@[k]]
                old(diff)@.dom().contains(k) && c@.dom().contains(k) ==> fits_i32(
                    (old(diff)@[k] as i64 as i32) + c@[k],
                )
            &&& sums_fit(snapshot.state@, spec_merge_missing(c@, old(diff)@))
        },
    ensures
        final(diff).wf(),
        final(approved).wf(),
        walk is None ==> !r && final(diff)@ == old(diff)@ && final(approved)@ == old(approved)@,
        walk matches Some(c) ==> {
            &&& r == no_negative(spec_patched(snapshot.state@, spec_merge_missing(c@, old(diff)@)))
            &&& r ==> final(diff)@ == old(diff)@.union_prefer_right(spec_merge_missing(c@, old(diff)@))
                && final(approved)@ == old(approved)@.union(visited@)
            &&& !r ==> final(diff)@ == old(diff)@ && final(approved)@ == old(approved)@
        },
{
    match walk {
        None => false,
        Some(current) => finish_update_diff(snapshot, current, diff, approved, visited),
    }
}

/// What `update_snapshot` does with a milestone whose transaction is in no
/// snapshot yet, once the walk from it is over: no diff answers `false`; a diff
/// is applied to the snapshot, which moves to the milestone's index, when the
/// balances it leads to are all zero or above (see `advance_if_consistent`).
pub fn update_snapshot_after_walk(snapshot: &mut Snapshot, walk: Option<Balances>, index: u32) -> (r:
    bool)
    requires
        old(snapshot).state.wf(),
        walk matches Some(c) ==> c.wf() && sums_fit(old(snapshot).state@, c@),
    ensures
        final(snapshot).state.wf(),
        walk is None ==> !r && final(snapshot).state@ == old(snapshot).state@ && final(snapshot).index
            == old(snapshot).index,
        walk matches Some(c) ==> {
            &&& r == no_negative(spec_patched(old(snapshot).state@, c@))
            &&& r && c.total() == 0 ==> final(snapshot).state@ == spec_merged(old(snapshot).state@, c@)
                && final(snapshot).index == index
            &&& !(r && c.total() == 0) ==> final(snapshot).state@ == old(snapshot).state@
                && final(snapshot).index == old(snapshot).index
        },
{
    match walk {
        None => false,
        Some(current) => snapshot.advance_if_consistent(&current, index),
    }
}

impl Snapshot {
    /// Applies `diff` when the balances it leads to are all zero or above; the
    /// answer is whether they are. (A diff whose changes do not sum to zero is
    /// then refused by `apply`, and the answer is still `true`.)
    pub fn advance_if_consistent(&mut self, diff: &Balances, new_index: u32) -> (r: bool)
        requires
            old(self).state.wf(),
            diff.wf(),
            sums_fit(old(self).state@, diff@),
        ensures
            final(self).state.wf(),
            r == no_negative(spec_patched(old(self).state@, diff@)),
            r && diff.total() == 0 ==> final(self).state@ == spec_merged(old(self).state@, diff@)
                && final(self).index == new_index,
            !(r && diff.total() == 0) ==> final(self).state@ == old(self).state@ && final(self).index == old(self).index,
    {
        let entries = diff.as_slice();
        let copy = match Balances::from_entries(vstd::slice::slice_to_vec(entries)) {
            Some(b) => b,
            None => {
                proof {
                    assert(false);
                }
                Balances::new()
            },
        };
        let mut patched = self.patched_diff(copy);
        if Snapshot::is_consistent(&mut patched) {
            let _ = self.apply(diff, new_index);
            true
        } else {
            false
        }
    }
}

} // verus!
