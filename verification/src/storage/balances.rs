use vstd::prelude::*;
use crate::transaction::transaction::{bytes_eq, Address};

verus! {

/// The map that a list of `(address, balance)` entries stands for: a later entry
/// for an address overrides an earlier one.
pub open spec fn map_of(s: Seq<(Address, i64)>) -> Map<Seq<u8>, int>
    decreases s.len(),
{
    if s.len() == 0 {
        Map::empty()
    } else {
        map_of(s.drop_last()).insert(s.last().0.0@, s.last().1 as int)
    }
}

/// No address occurs in two entries.
pub open spec fn distinct_keys(s: Seq<(Address, i64)>) -> bool {
    forall|i: int, j: int| 0 <= i < j < s.len() ==> s[i].0.0@ != s[j].0.0@
}

/// The sum of the balances of the entries.
pub open spec fn sum_values(s: Seq<(Address, i64)>) -> int
    decreases s.len(),
{
    if s.len() == 0 {
        0
    } else {
        sum_values(s.drop_last()) + s.last().1
    }
}

/// The balance of `k` in `m`, zero where `m` has none.
pub open spec fn balance_or_zero(m: Map<Seq<u8>, int>, k: Seq<u8>) -> int {
    if m.dom().contains(k) {
        m[k]
    } else {
        0
    }
}

pub proof fn lemma_map_of_contains(s: Seq<(Address, i64)>, k: Seq<u8>)
    ensures
        map_of(s).dom().contains(k) <==> exists|i: int| 0 <= i < s.len() && #[trigger] s[i].0.0@
            == k,
    decreases s.len(),
{
    if s.len() > 0 {
        lemma_map_of_contains(s.drop_last(), k);
        if map_of(s.drop_last()).dom().contains(k) {
            let i = choose|i: int| 0 <= i < s.drop_last().len() && #[trigger] s.drop_last()[i].0.0@
                == k;
            assert(s[i].0.0@ == k);
        }
        if exists|i: int| 0 <= i < s.len() && #[trigger] s[i].0.0@ == k {
            let i = choose|i: int| 0 <= i < s.len() && #[trigger] s[i].0.0@ == k;
            if i < s.len() - 1 {
                assert(s.drop_last()[i].0.0@ == k);
            }
        }
    }
}

pub proof fn lemma_map_of_index(s: Seq<(Address, i64)>, i: int)
    requires
        distinct_keys(s),
        0 <= i < s.len(),
    ensures
        map_of(s).dom().contains(s[i].0.0@),
        map_of(s)[s[i].0.0@] == s[i].1 as int,
    decreases s.len(),
{
    if i < s.len() - 1 {
        lemma_map_of_index(s.drop_last(), i);
        assert(s.drop_last()[i] == s[i]);
    }
}

proof fn lemma_map_of_update(s: Seq<(Address, i64)>, i: int, v: i64)
    requires
        distinct_keys(s),
        0 <= i < s.len(),
    ensures
        map_of(s.update(i, (s[i].0, v))) == map_of(s).insert(s[i].0.0@, v as int),
        distinct_keys(s.update(i, (s[i].0, v))),
        sum_values(s.update(i, (s[i].0, v))) == sum_values(s) - s[i].1 + v,
    decreases s.len(),
{
    let t = s.update(i, (s[i].0, v));
    if i == s.len() - 1 {
        assert(t.drop_last() =~= s.drop_last());
        assert(!map_of(s.drop_last()).dom().contains(s[i].0.0@)) by {
            lemma_map_of_contains(s.drop_last(), s[i].0.0@);
        }
        assert(map_of(t) =~= map_of(s).insert(s[i].0.0@, v as int));
    } else {
        lemma_map_of_update(s.drop_last(), i, v);
        assert(t.drop_last() =~= s.drop_last().update(i, (s[i].0, v)));
        assert(map_of(t) =~= map_of(s).insert(s[i].0.0@, v as int));
    }
}

proof fn lemma_map_of_push(s: Seq<(Address, i64)>, a: Address, v: i64)
    requires
        distinct_keys(s),
        !map_of(s).dom().contains(a.0@),
    ensures
        map_of(s.push((a, v))) == map_of(s).insert(a.0@, v as int),
        distinct_keys(s.push((a, v))),
        sum_values(s.push((a, v))) == sum_values(s) + v,
{
    assert(s.push((a, v)).drop_last() =~= s);
    assert forall|i: int| 0 <= i < s.len() implies s[i].0.0@ != a.0@ by {
        lemma_map_of_contains(s, a.0@);
    }
}

proof fn lemma_map_of_remove(s: Seq<(Address, i64)>, i: int)
    requires
        distinct_keys(s),
        0 <= i < s.len(),
    ensures
        map_of(s.remove(i)) == map_of(s).remove(s[i].0.0@),
        distinct_keys(s.remove(i)),
    decreases s.len(),
{
    let t = s.remove(i);
    let k = s[i].0.0@;
    if i == s.len() - 1 {
        assert(t =~= s.drop_last());
        assert(!map_of(s.drop_last()).dom().contains(k)) by {
            lemma_map_of_contains(s.drop_last(), k);
        }
        assert(map_of(t) =~= map_of(s).remove(k));
    } else {
        lemma_map_of_remove(s.drop_last(), i);
        assert(t.drop_last() =~= s.drop_last().remove(i));
        assert(t.last() == s.last());
        assert(map_of(t) =~= map_of(s).remove(k));
    }
}

/// Balances keyed by address, at most one entry per address.
pub struct Balances {
    entries: Vec<(Address, i64)>,
}

impl View for Balances {
    type V = Map<Seq<u8>, int>;

    closed spec fn view(&self) -> Map<Seq<u8>, int> {
        map_of(self.entries@)
    }
}

impl Balances {
    /// No address has two entries.
    pub closed spec fn wf(&self) -> bool {
        distinct_keys(self.entries@)
    }

    /// The sum of all balances.
    pub closed spec fn total(&self) -> int {
        sum_values(self.entries@)
    }

    /// The empty set of balances.
    pub fn new() -> (b: Balances)
        ensures
            b.wf(),
            b@ == Map::<Seq<u8>, int>::empty(),
            b.total() == 0,
    {
        Balances { entries: Vec::new() }
    }

    /// Builds balances from entries; `None` when an address occurs twice.
    pub fn from_entries(entries: Vec<(Address, i64)>) -> (r: Option<Balances>)
        ensures
            r is Some <==> distinct_keys(entries@),
            r matches Some(b) ==> b.wf() && b@ == map_of(entries@) && b.total() == sum_values(
                entries@,
            ),
    {
        let mut i: usize = 0;
        while i < entries.len()
            invariant
                i <= entries@.len(),
                forall|a: int, b: int| 0 <= a < b < entries@.len() && a < i ==> entries@[a].0.0@
                    != entries@[b].0.0@,
            decreases entries@.len() - i,
        {
            let mut j: usize = i + 1;
            while j < entries.len()
                invariant
                    i < entries@.len(),
                    i < j <= entries@.len(),
                    forall|a: int, b: int| 0 <= a < b < entries@.len() && a < i ==> entries@[a].0.0@
                        != entries@[b].0.0@,
                    forall|b: int| i < b < j ==> entries@[i as int].0.0@ != entries@[b].0.0@,
                decreases entries@.len() - j,
            {
                if bytes_eq(entries[i].0.0.as_slice(), entries[j].0.0.as_slice()) {
                    return None;
                }
                j = j + 1;
            }
            i = i + 1;
        }
        Some(Balances { entries })
    }

    /// The entries, one per address, in the order in which the addresses came.
    pub fn as_slice(&self) -> (r: &[(Address, i64)])
        requires
            self.wf(),
        ensures
            distinct_keys(r@),
            map_of(r@) == self@,
            sum_values(r@) == self.total(),
    {
        self.entries.as_slice()
    }

    /// The number of addresses that have a balance.
    pub fn len(&self) -> (r: usize)
        requires
            self.wf(),
        ensures
            r == self@.dom().len(),
    {
        proof {
            self.lemma_dom_len();
        }
        self.entries.len()
    }

    proof fn lemma_dom_len(&self)
        requires
            self.wf(),
        ensures
            self@.dom().len() == self.entries@.len(),
            self@.dom().finite(),
    {
        lemma_len_of_distinct(self.entries@);
    }

    /// The index of the entry for `a`, if there is one.
    fn find(&self, a: &Address) -> (r: Option<usize>)
        requires
            self.wf(),
        ensures
            r matches Some(i) ==> i < self.entries@.len() && self.entries@[i as int].0.0@ == a.0@,
            r is None ==> !self@.dom().contains(a.0@),
    {
        let mut i: usize = 0;
        while i < self.entries.len()
            invariant
                i <= self.entries@.len(),
                forall|j: int| 0 <= j < i ==> self.entries@[j].0.0@ != a.0@,
            decreases self.entries@.len() - i,
        {
            if bytes_eq(self.entries[i].0.0.as_slice(), a.0.as_slice()) {
                return Some(i);
            }
            i = i + 1;
        }
        proof {
            lemma_map_of_contains(self.entries@, a.0@);
        }
        None
    }

    /// The balance of `a`, if it has one.
    pub fn get(&self, a: &Address) -> (r: Option<i64>)
        requires
            self.wf(),
        ensures
            r is Some <==> self@.dom().contains(a.0@),
            r matches Some(v) ==> self@[a.0@] == v as int,
    {
        match self.find(a) {
            Some(i) => {
                proof {
                    lemma_map_of_index(self.entries@, i as int);
                }
                Some(self.entries[i].1)
            },
            None => None,
        }
    }

    /// Sets the balance of `a` to `v`; gives back the balance it had.
    pub fn insert(&mut self, a: Address, v: i64) -> (r: Option<i64>)
        requires
            old(self).wf(),
        ensures
            final(self).wf(),
            final(self)@ == old(self)@.insert(a.0@, v as int),
            r is Some <==> old(self)@.dom().contains(a.0@),
            r matches Some(w) ==> old(self)@[a.0@] == w as int,
            final(self).total() == old(self).total() - balance_or_zero(old(self)@, a.0@) + v,
    {
        match self.find(&a) {
            Some(i) => {
                let w = self.entries[i].1;
                proof {
                    lemma_map_of_index(self.entries@, i as int);
                    lemma_map_of_update(self.entries@, i as int, v);
                }
                let key = self.entries[i].0;
                self.entries.set(i, (key, v));
                Some(w)
            },
            None => {
                proof {
                    lemma_map_of_push(self.entries@, a, v);
                }
                self.entries.push((a, v));
                None
            },
        }
    }

    /// Removes the balance of `a`; gives back the balance it had.
    pub fn remove(&mut self, a: &Address) -> (r: Option<i64>)
        requires
            old(self).wf(),
        ensures
            final(self).wf(),
            final(self)@ == old(self)@.remove(a.0@),
            r is Some <==> old(self)@.dom().contains(a.0@),
            r matches Some(w) ==> old(self)@[a.0@] == w as int,
    {
        match self.find(a) {
            Some(i) => {
                proof {
                    lemma_map_of_index(self.entries@, i as int);
                    lemma_map_of_remove(self.entries@, i as int);
                }
                let (_, w) = self.entries.remove(i);
                Some(w)
            },
            None => {
                assert(old(self)@.remove(a.0@) =~= old(self)@);
                None
            },
        }
    }

    /// The balances summed in a wide integer, so that no sum overflows.
    pub fn sum(&self) -> (r: i128)
        ensures
            r == self.total(),
    {
        let mut acc: i128 = 0;
        let mut i: usize = 0;
        let n: usize = self.entries.len();
        while i < n
            invariant
                i <= self.entries@.len(),
                acc == sum_values(self.entries@.take(i as int)),
                -0x8000_0000_0000_0000 * i <= acc <= 0x7fff_ffff_ffff_ffff * i,
                n == self.entries@.len(),
            decreases n - i,
        {
            assert(self.entries@.take(i + 1).drop_last() =~= self.entries@.take(i as int));
            proof {
                assert(i < 0x1_0000_0000_0000_0000);
                assert(0x7fff_ffff_ffff_ffff * (i + 1) < 0x7fff_ffff_ffff_ffff_ffff_ffff_ffff_ffff)
                    by (nonlinear_arith)
                    requires
                        i < 0x1_0000_0000_0000_0000,
                ;
                assert(-0x8000_0000_0000_0000 * (i + 1) >= -0x8000_0000_0000_0000_0000_0000_0000_0000)
                    by (nonlinear_arith)
                    requires
                        i < 0x1_0000_0000_0000_0000,
                ;
            }
            acc = acc + self.entries[i].1 as i128;
            i = i + 1;
        }
        assert(self.entries@.take(self.entries@.len() as int) =~= self.entries@);
        acc
    }
}

proof fn lemma_len_of_distinct(s: Seq<(Address, i64)>)
    requires
        distinct_keys(s),
    ensures
        map_of(s).dom().len() == s.len(),
        map_of(s).dom().finite(),
    decreases s.len(),
{
    if s.len() > 0 {
        let t = s.drop_last();
        assert(distinct_keys(t));
        lemma_len_of_distinct(t);
        assert(!map_of(t).dom().contains(s.last().0.0@)) by {
            lemma_map_of_contains(t, s.last().0.0@);
        }
    }
}

} // verus!
