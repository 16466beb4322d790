use vstd::prelude::*;
use crate::model::transaction_validator::TransactionError;
use crate::storage::balances::{
    balance_or_zero,
    distinct_keys,
    lemma_map_of_contains,
    lemma_map_of_index,
    map_of,
    sum_values,
    Balances,
};
use crate::transaction::transaction::Address;

verus! {

/// Public key under which the initial snapshot is published.
pub const SNAPSHOT_PUBKEY: &'static str = "ABC123";

/// Index of the initial snapshot.
pub const SNAPSHOT_INDEX: u32 = 1;

/// Each address of `diff` with its balance in `state` (zero where it has none)
/// plus its change in `diff`.
pub open spec fn spec_patched(state: Map<Seq<u8>, int>, diff: Map<Seq<u8>, int>) -> Map<
    Seq<u8>,
    int,
> {
    Map::new(|k: Seq<u8>| diff.dom().contains(k), |k: Seq<u8>| balance_or_zero(state, k) + diff[k])
}

/// `state` with the changes of `patch` added: every address of either, with the sum
/// of its balances in both.
pub open spec fn spec_merged(state: Map<Seq<u8>, int>, patch: Map<Seq<u8>, int>) -> Map<
    Seq<u8>,
    int,
> {
    Map::new(
        |k: Seq<u8>| state.dom().contains(k) || patch.dom().contains(k),
        |k: Seq<u8>| balance_or_zero(state, k) + balance_or_zero(patch, k),
    )
}

/// Whether every sum that `state` and `diff` form for an address of `diff` fits in
/// an `i64`.
pub open spec fn sums_fit(state: Map<Seq<u8>, int>, diff: Map<Seq<u8>, int>) -> bool {
    forall|k: Seq<u8>|
        #![trigger diff.dom().contains(k)]
        diff.dom().contains(k) ==> i64::MIN <= balance_or_zero(state, k) + diff[k] <= i64::MAX
}

/// `state` without the addresses whose balance is zero or below.
pub open spec fn spec_positive(state: Map<Seq<u8>, int>) -> Map<Seq<u8>, int> {
    Map::new(|k: Seq<u8>| state.dom().contains(k) && state[k] > 0, |k: Seq<u8>| state[k])
}

/// Every balance of `state` is zero or above.
pub open spec fn no_negative(state: Map<Seq<u8>, int>) -> bool {
    forall|k: Seq<u8>| #![trigger state[k]] state.dom().contains(k) ==> state[k] >= 0
}

/// `k` is one of the listed addresses.
spec fn zero_listed(st: Map<Seq<u8>, int>, l: Seq<Address>, k: Seq<u8>) -> bool {
    exists|j: int| 0 <= j < l.len() && #[trigger] l[j].0@ == k
}

proof fn lemma_take_step(s: Seq<(Address, i64)>, i: int)
    requires
        0 <= i < s.len(),
    ensures
        map_of(s.take(i + 1)) == map_of(s.take(i)).insert(s[i].0.0@, s[i].1 as int),
        sum_values(s.take(i + 1)) == sum_values(s.take(i)) + s[i].1,
{
    assert(s.take(i + 1).drop_last() =~= s.take(i));
}

proof fn lemma_fresh_key(s: Seq<(Address, i64)>, i: int)
    requires
        distinct_keys(s),
        0 <= i < s.len(),
    ensures
        !map_of(s.take(i)).dom().contains(s[i].0.0@),
{
    lemma_map_of_contains(s.take(i), s[i].0.0@);
    if map_of(s.take(i)).dom().contains(s[i].0.0@) {
        let j = choose|j: int| 0 <= j < s.take(i).len() && #[trigger] s.take(i)[j].0.0@ == s[i].0.0@;
        assert(s[j].0.0@ == s[i].0.0@);
    }
}

/// The balances of every address at one milestone index.
pub struct Snapshot {
    pub state: Balances,
    pub index: u32,
}

impl Snapshot {
    /// The balance of `addr`, if it has one.
    pub fn get_balance(&self, addr: &Address) -> (r: Option<i64>)
        requires
            self.state.wf(),
        ensures
            r is Some <==> self.state@.dom().contains(addr.0@),
            r matches Some(v) ==> self.state@[addr.0@] == v as int,
    {
        self.state.get(addr)
    }

    /// For each address of `diff`, its balance here (zero where it has none) plus
    /// its change in `diff`.
    pub fn patched_diff(&self, diff: Balances) -> (r: Balances)
        requires
            self.state.wf(),
            diff.wf(),
            sums_fit(self.state@, diff@),
        ensures
            r.wf(),
            r@ == spec_patched(self.state@, diff@),
    {
        let entries = diff.as_slice();
        let ghost s = entries@;
        let mut out = Balances::new();
        let mut i: usize = 0;
        while i < entries.len()
            invariant
                s == entries@,
                distinct_keys(s),
                map_of(s) == diff@,
                i <= s.len(),
                out.wf(),
                out@ == spec_patched(self.state@, map_of(s.take(i as int))),
                self.state.wf(),
                sums_fit(self.state@, diff@),
            decreases s.len() - i,
        {
            let (a, v) = entries[i];
            proof {
                lemma_map_of_index(s, i as int);
                lemma_take_step(s, i as int);
                assert(diff@.dom().contains(a.0@));
            }
            let base: i64 = match self.state.get(&a) {
                Some(n) => n,
                None => 0,
            };
            out.insert(a, base + v);
            proof {
                assert(out@ =~= spec_patched(self.state@, map_of(s.take(i + 1))));
            }
            i = i + 1;
        }
        assert(s.take(s.len() as int) =~= s);
        out
    }

    /// Adds a diff whose changes sum to zero to the balances and moves the snapshot
    /// to `new_index`. A diff whose changes do not sum to zero is refused with
    /// `InvalidData` and changes nothing. An accepted diff leaves the total of all
    /// balances as it was.
    pub fn apply(&mut self, patch: &Balances, new_index: u32) -> (r: Result<(), TransactionError>)
        requires
            old(self).state.wf(),
            patch.wf(),
            sums_fit(old(self).state@, patch@),
        ensures
            final(self).state.wf(),
            r is Err <==> patch.total() != 0,
            r matches Err(e) ==> e == TransactionError::InvalidData && final(self).state@ == old(self).state@ && final(self).index == old(self).index,
            r is Ok ==> final(self).state@ == spec_merged(old(self).state@, patch@) && final(self).index == new_index && final(self).state.total() == old(self).state.total(),
    {
        if patch.sum() != 0 {
            return Err(TransactionError::InvalidData);
        }
        let entries = patch.as_slice();
        let ghost s = entries@;
        let ghost st0 = self.state@;
        let ghost total0 = self.state.total();
        let mut i: usize = 0;
        while i < entries.len()
            invariant
                s == entries@,
                distinct_keys(s),
                map_of(s) == patch@,
                sum_values(s) == 0,
                i <= s.len(),
                self.state.wf(),
                self.state@ == spec_merged(st0, map_of(s.take(i as int))),
                self.state.total() == total0 + sum_values(s.take(i as int)),
                sums_fit(st0, patch@),
            decreases s.len() - i,
        {
            let (a, v) = entries[i];
            proof {
                lemma_map_of_index(s, i as int);
                lemma_take_step(s, i as int);
                lemma_fresh_key(s, i as int);
                assert(patch@.dom().contains(a.0@));
                assert(balance_or_zero(self.state@, a.0@) == balance_or_zero(st0, a.0@));
            }
            let new_balance: i64 = match self.state.get(&a) {
                Some(n) => n + v,
                None => v,
            };
            self.state.insert(a, new_balance);
            proof {
                assert(self.state@ =~= spec_merged(st0, map_of(s.take(i + 1))));
            }
            i = i + 1;
        }
        assert(s.take(s.len() as int) =~= s);
        self.index = new_index;
        Ok(())
    }

    /// Whether no balance of `state` is negative. Addresses with a zero balance
    /// are removed from `state`: all of them when the answer is `true`; when it is
    /// `false`, some of them, and only such addresses.
    pub fn is_consistent(state: &mut Balances) -> (r: bool)
        requires
            old(state).wf(),
        ensures
            final(state).wf(),
            r == no_negative(old(state)@),
            r ==> final(state)@ == spec_positive(old(state)@),
            !r ==> final(state)@.submap_of(old(state)@),
            !r ==> forall|k: Seq<u8>|
                #![trigger old(state)@[k]]
                old(state)@.dom().contains(k) && old(state)@[k] != 0 ==> final(state)@.dom().contains(
                    k,
                ),
    {
        let ghost st0 = state@;
        let mut consistent = true;
        let mut to_remove: Vec<Address> = Vec::new();
        {
            let entries = state.as_slice();
            let ghost s = entries@;
            let mut i: usize = 0;
            while i < entries.len()
                invariant_except_break
                    consistent,
                    forall|j: int| 0 <= j < i ==> #[trigger] s[j].1 >= 0,
                invariant
                    s == entries@,
                    distinct_keys(s),
                    map_of(s) == st0,
                    i <= s.len(),
                    forall|j: int|
                        0 <= j < to_remove@.len() ==> st0.dom().contains(#[trigger] to_remove@[j].0@)
                            && st0[to_remove@[j].0@] == 0,
                    forall|j: int|
                        0 <= j < i && #[trigger] s[j].1 == 0 ==> exists|m: int|
                            0 <= m < to_remove@.len() && #[trigger] to_remove@[m].0@ == s[j].0.0@,
                ensures
                    consistent ==> i == s.len(),
                    !consistent ==> exists|j: int| 0 <= j < s.len() && #[trigger] s[j].1 < 0,
                    forall|j: int|
                        0 <= j < to_remove@.len() ==> st0.dom().contains(#[trigger] to_remove@[j].0@)
                            && st0[to_remove@[j].0@] == 0,
                    consistent ==> forall|j: int|
                        0 <= j < s.len() ==> #[trigger] s[j].1 >= 0,
                    consistent ==> forall|j: int|
                        0 <= j < s.len() && #[trigger] s[j].1 == 0 ==> exists|m: int|
                            0 <= m < to_remove@.len() && #[trigger] to_remove@[m].0@ == s[j].0.0@,
                decreases s.len() - i,
            {
                let (a, v) = entries[i];
                if v <= 0 {
                    if v < 0 {
                        consistent = false;
                        assert(s[i as int].1 < 0);
                        break;
                    }
                    proof {
                        lemma_map_of_index(s, i as int);
                    }
                    let ghost before = to_remove@;
                    to_remove.push(a);
                    proof {
                        assert(to_remove@[to_remove@.len() - 1].0@ == s[i as int].0.0@);
                        assert forall|j: int|
                            0 <= j < i + 1 && #[trigger] s[j].1 == 0 implies exists|m: int|
                                0 <= m < to_remove@.len() && #[trigger] to_remove@[m].0@ == s[j].0.0@ by {
                            if j < i {
                                let m = choose|m: int|
                                    0 <= m < before.len() && #[trigger] before[m].0@ == s[j].0.0@;
                                assert(to_remove@[m] == before[m]);
                            } else {
                                assert(to_remove@[before.len() as int].0@ == s[j].0.0@);
                            }
                        }
                    }
                }
                i = i + 1;
            }
            proof {
                if consistent {
                    assert forall|k: Seq<u8>| st0.dom().contains(k) implies st0[k] >= 0 && (st0[k]
                        == 0 ==> zero_listed(st0, to_remove@, k)) by {
                        lemma_map_of_contains(s, k);
                        let j = choose|j: int| 0 <= j < s.len() && #[trigger] s[j].0.0@ == k;
                        lemma_map_of_index(s, j);
                        assert(s[j].1 >= 0);
                    }
                } else {
                    let j = choose|j: int| 0 <= j < s.len() && #[trigger] s[j].1 < 0;
                    lemma_map_of_index(s, j);
                    assert(!(st0[s[j].0.0@] >= 0));
                }
            }
        }
        let mut m: usize = 0;
        while m < to_remove.len()
            invariant
                m <= to_remove@.len(),
                consistent == no_negative(st0),
                consistent ==> forall|k: Seq<u8>|
                    #![trigger st0[k]]
                    st0.dom().contains(k) && st0[k] == 0 ==> zero_listed(st0, to_remove@, k),
                state.wf(),
                forall|j: int|
                    0 <= j < to_remove@.len() ==> st0.dom().contains(#[trigger] to_remove@[j].0@)
                        && st0[to_remove@[j].0@] == 0,
                state@ == Map::new(
                    |k: Seq<u8>|
                        st0.dom().contains(k) && !(exists|j: int|
                            0 <= j < m && #[trigger] to_remove@[j].0@ == k),
                    |k: Seq<u8>| st0[k],
                ),
            decreases to_remove@.len() - m,
        {
            state.remove(&to_remove[m]);
            proof {
                let ghost nm = Map::new(
                    |k: Seq<u8>|
                        st0.dom().contains(k) && !(exists|j: int|
                            0 <= j < m + 1 && #[trigger] to_remove@[j].0@ == k),
                    |k: Seq<u8>| st0[k],
                );
                assert forall|k: Seq<u8>| #[trigger] state@.dom().contains(k) == nm.dom().contains(
                    k,
                ) by {
                    if k == to_remove@[m as int].0@ {
                        assert(to_remove@[m as int].0@ == k);
                    }
                }
                assert(state@ =~= nm);
            }
            m = m + 1;
        }
        proof {
            let ghost fin = Map::new(
                |k: Seq<u8>|
                    st0.dom().contains(k) && !(exists|j: int|
                        0 <= j < to_remove@.len() && #[trigger] to_remove@[j].0@ == k),
                |k: Seq<u8>| st0[k],
            );
            assert(state@ == fin);
            if consistent {
                assert forall|k: Seq<u8>| #[trigger] state@.dom().contains(k) == spec_positive(
                    st0,
                ).dom().contains(k) by {
                    if st0.dom().contains(k) && st0[k] == 0 {
                        assert(zero_listed(st0, to_remove@, k));
                    }
                    if exists|j: int| 0 <= j < to_remove@.len() && #[trigger] to_remove@[j].0@ == k {
                        let j = choose|j: int| 0 <= j < to_remove@.len() && #[trigger] to_remove@[j].0@ == k;
                        assert(st0[to_remove@[j].0@] == 0);
                    }
                }
                assert(state@ =~= spec_positive(st0));
            } else {
                assert forall|k: Seq<u8>|
                    st0.dom().contains(k) && #[trigger] st0[k] != 0 implies state@.dom().contains(k) by {
                    if exists|j: int| 0 <= j < to_remove@.len() && #[trigger] to_remove@[j].0@ == k {
                        let j = choose|j: int| 0 <= j < to_remove@.len() && #[trigger] to_remove@[j].0@ == k;
                        assert(st0[to_remove@[j].0@] == 0);
                    }
                }
            }
        }
        consistent
    }
}

} // verus!
