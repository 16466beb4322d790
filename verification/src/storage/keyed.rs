use vstd::prelude::*;
use crate::transaction::transaction::bytes_eq;

verus! {

/// The map that a list of `(hash, value)` entries stands for: a later entry for
/// a hash overrides an earlier one.
pub open spec fn keyed_map<V>(s: Seq<(crate::transaction::transaction::Hash, V)>) -> Map<Seq<u8>, V>
    decreases s.len(),
{
    if s.len() == 0 {
        Map::empty()
    } else {
        keyed_map(s.drop_last()).insert(s.last().0.0@, s.last().1)
    }
}

/// No hash occurs in two entries.
pub open spec fn keyed_distinct<V>(s: Seq<(crate::transaction::transaction::Hash, V)>) -> bool {
    forall|i: int, j: int| 0 <= i < j < s.len() ==> s[i].0.0@ != s[j].0.0@
}

proof fn lemma_keyed_contains<V>(s: Seq<(crate::transaction::transaction::Hash, V)>, k: Seq<u8>)
    ensures
        keyed_map(s).dom().contains(k) <==> exists|i: int| 0 <= i < s.len() && #[trigger] s[i].0.0@
            == k,
    decreases s.len(),
{
    if s.len() > 0 {
        lemma_keyed_contains(s.drop_last(), k);
        if keyed_map(s.drop_last()).dom().contains(k) {
            let i = choose|i: int| 0 <= i < s.drop_last().len() && #[trigger] s.drop_last()[i].0.0@
                == k;
            assert(s[i].0.0@ == k);
        }
        if exists|i: int| 0 <= i < s.len() && #[trigger] s[i].0.0@ == k {
            let i = choose|i: int| 0 <= i < s.len() && #[trigger] s[i].0.0@ == k;
            if i < s.len() - 1 {
                assert(s.drop_last()[i].0.0@ == k);
            }
        }
    }
}

proof fn lemma_keyed_index<V>(s: Seq<(crate::transaction::transaction::Hash, V)>, i: int)
    requires
        keyed_distinct(s),
        0 <= i < s.len(),
    ensures
        keyed_map(s).dom().contains(s[i].0.0@),
        keyed_map(s)[s[i].0.0@] == s[i].1,
    decreases s.len(),
{
    if i < s.len() - 1 {
        lemma_keyed_index(s.drop_last(), i);
        assert(s.drop_last()[i] == s[i]);
    }
}

proof fn lemma_keyed_update<V>(s: Seq<(crate::transaction::transaction::Hash, V)>, i: int, v: V)
    requires
        keyed_distinct(s),
        0 <= i < s.len(),
    ensures
        keyed_map(s.update(i, (s[i].0, v))) == keyed_map(s).insert(s[i].0.0@, v),
        keyed_distinct(s.update(i, (s[i].0, v))),
    decreases s.len(),
{
    let t = s.update(i, (s[i].0, v));
    if i == s.len() - 1 {
        assert(t.drop_last() =~= s.drop_last());
        assert(!keyed_map(s.drop_last()).dom().contains(s[i].0.0@)) by {
            lemma_keyed_contains(s.drop_last(), s[i].0.0@);
        }
        assert(keyed_map(t) =~= keyed_map(s).insert(s[i].0.0@, v));
    } else {
        lemma_keyed_update(s.drop_last(), i, v);
        assert(t.drop_last() =~= s.drop_last().update(i, (s[i].0, v)));
        assert(keyed_map(t) =~= keyed_map(s).insert(s[i].0.0@, v));
    }
}

proof fn lemma_keyed_push<V>(
    s: Seq<(crate::transaction::transaction::Hash, V)>,
    a: crate::transaction::transaction::Hash,
    v: V,
)
    requires
        keyed_distinct(s),
        !keyed_map(s).dom().contains(a.0@),
    ensures
        keyed_map(s.push((a, v))) == keyed_map(s).insert(a.0@, v),
        keyed_distinct(s.push((a, v))),
{
    assert(s.push((a, v)).drop_last() =~= s);
    assert forall|i: int| 0 <= i < s.len() implies s[i].0.0@ != a.0@ by {
        lemma_keyed_contains(s, a.0@);
    }
}

proof fn lemma_keyed_remove<V>(s: Seq<(crate::transaction::transaction::Hash, V)>, i: int)
    requires
        keyed_distinct(s),
        0 <= i < s.len(),
    ensures
        keyed_map(s.remove(i)) == keyed_map(s).remove(s[i].0.0@),
        keyed_distinct(s.remove(i)),
    decreases s.len(),
{
    let t = s.remove(i);
    let k = s[i].0.0@;
    if i == s.len() - 1 {
        assert(t =~= s.drop_last());
        assert(!keyed_map(s.drop_last()).dom().contains(k)) by {
            lemma_keyed_contains(s.drop_last(), k);
        }
        assert(keyed_map(t) =~= keyed_map(s).remove(k));
    } else {
        lemma_keyed_remove(s.drop_last(), i);
        assert(t.drop_last() =~= s.drop_last().remove(i));
        assert(t.last() == s.last());
        assert(keyed_map(t) =~= keyed_map(s).remove(k));
    }
}

/// Values keyed by hash, at most one entry per hash, in the order in which the
/// hashes came.
pub struct KeyedList<V> {
    entries: Vec<(crate::transaction::transaction::Hash, V)>,
}

impl<V> View for KeyedList<V> {
    type V = Map<Seq<u8>, V>;

    closed spec fn view(&self) -> Map<Seq<u8>, V> {
        keyed_map(self.entries@)
    }
}

impl<V> KeyedList<V> {
    /// No hash has two entries.
    pub closed spec fn wf(&self) -> bool {
        keyed_distinct(self.entries@)
    }

    /// The entries in their order.
    pub closed spec fn entries_seq(&self) -> Seq<(crate::transaction::transaction::Hash, V)> {
        self.entries@
    }

    /// The empty list.
    pub fn new() -> (r: KeyedList<V>)
        ensures
            r.wf(),
            r@ == Map::<Seq<u8>, V>::empty(),
            r.entries_seq().len() == 0,
    {
        KeyedList { entries: Vec::new() }
    }

    fn find(&self, h: &crate::transaction::transaction::Hash) -> (r: Option<usize>)
        requires
            self.wf(),
        ensures
            r matches Some(i) ==> i < self.entries@.len() && self.entries@[i as int].0.0@ == h.0@,
            r is None ==> !self@.dom().contains(h.0@),
    {
        let mut i: usize = 0;
        while i < self.entries.len()
            invariant
                i <= self.entries@.len(),
                forall|j: int| 0 <= j < i ==> self.entries@[j].0.0@ != h.0@,
            decreases self.entries@.len() - i,
        {
            if bytes_eq(self.entries[i].0.0.as_slice(), h.0.as_slice()) {
                return Some(i);
            }
            i = i + 1;
        }
        proof {
            lemma_keyed_contains(self.entries@, h.0@);
        }
        None
    }

    /// The entries, one per hash, in the order in which the hashes came.
    pub fn as_slice(&self) -> (r: &[(crate::transaction::transaction::Hash, V)])
        requires
            self.wf(),
        ensures
            r@ == self.entries_seq(),
            keyed_distinct(r@),
            keyed_map(r@) == self@,
    {
        self.entries.as_slice()
    }
    /// The value of `h`, if it has one.
    pub fn get_ref(&self, h: &crate::transaction::transaction::Hash) -> (r: Option<&V>)
        requires
            self.wf(),
        ensures
            r is Some <==> self@.dom().contains(h.0@),
            r matches Some(v) ==> self@[h.0@] == *v,
    {
        match self.find(h) {
            Some(i) => {
                proof {
                    lemma_keyed_index(self.entries@, i as int);
                }
                Some(&self.entries[i].1)
            },
            None => None,
        }
    }

    /// Whether `h` has a value.
    pub fn contains_key(&self, h: &crate::transaction::transaction::Hash) -> (r: bool)
        requires
            self.wf(),
        ensures
            r == self@.dom().contains(h.0@),
    {
        self.get_ref(h).is_some()
    }

    /// Sets the value of `h`.
    pub fn put(&mut self, h: crate::transaction::transaction::Hash, v: V)
        requires
            old(self).wf(),
        ensures
            final(self).wf(),
            final(self)@ == old(self)@.insert(h.0@, v),
    {
        match self.find(&h) {
            Some(i) => {
                proof {
                    lemma_keyed_update(self.entries@, i as int, v);
                }
                let key = self.entries[i].0;
                self.entries.set(i, (key, v));
            },
            None => {
                proof {
                    lemma_keyed_push(self.entries@, h, v);
                }
                self.entries.push((h, v));
            },
        }
    }

    /// Takes the value of `h` out; the answer is whether it had one.
    pub fn remove(&mut self, h: &crate::transaction::transaction::Hash) -> (r: bool)
        requires
            old(self).wf(),
        ensures
            final(self).wf(),
            r == old(self)@.dom().contains(h.0@),
            final(self)@ == old(self)@.remove(h.0@),
    {
        match self.find(h) {
            Some(i) => {
                proof {
                    lemma_keyed_index(self.entries@, i as int);
                    lemma_keyed_remove(self.entries@, i as int);
                }
                self.entries.remove(i);
                true
            },
            None => {
                assert(old(self)@.remove(h.0@) =~= old(self)@);
                false
            },
        }
    }

    /// Number of hashes with a value.
    pub fn len(&self) -> (r: usize)
        ensures
            r == self.entries_seq().len(),
    {
        self.entries.len()
    }

}

impl<V: Copy> KeyedList<V> {
    /// The value of `h`, if it has one.
    pub fn get(&self, h: &crate::transaction::transaction::Hash) -> (r: Option<V>)
        requires
            self.wf(),
        ensures
            r is Some <==> self@.dom().contains(h.0@),
            r matches Some(v) ==> self@[h.0@] == v,
    {
        match self.find(h) {
            Some(i) => {
                proof {
                    lemma_keyed_index(self.entries@, i as int);
                }
                Some(self.entries[i].1)
            },
            None => None,
        }
    }

    /// Sets the value of `h`; gives back the value it had.
    pub fn insert(&mut self, h: crate::transaction::transaction::Hash, v: V) -> (r: Option<V>)
        requires
            old(self).wf(),
        ensures
            final(self).wf(),
            final(self)@ == old(self)@.insert(h.0@, v),
            r is Some <==> old(self)@.dom().contains(h.0@),
            r matches Some(w) ==> old(self)@[h.0@] == w,
            old(self)@.dom().contains(h.0@) ==> final(self).entries_seq().len() == old(self).entries_seq().len(),
            !old(self)@.dom().contains(h.0@) ==> final(self).entries_seq() == old(self).entries_seq().push((h, v)),
    {
        match self.find(&h) {
            Some(i) => {
                let w = self.entries[i].1;
                proof {
                    lemma_keyed_index(self.entries@, i as int);
                    lemma_keyed_update(self.entries@, i as int, v);
                }
                let key = self.entries[i].0;
                self.entries.set(i, (key, v));
                Some(w)
            },
            None => {
                proof {
                    lemma_keyed_push(self.entries@, h, v);
                }
                self.entries.push((h, v));
                None
            },
        }
    }

}

/// The value of an entry of a distinct list is the one its key maps to.
pub proof fn lemma_keyed_entry<V>(s: Seq<(crate::transaction::transaction::Hash, V)>, i: int)
    requires
        keyed_distinct(s),
        0 <= i < s.len(),
    ensures
        keyed_map(s).dom().contains(s[i].0.0@),
        keyed_map(s)[s[i].0.0@] == s[i].1,
{
    lemma_keyed_index(s, i);
}

/// Every key of a list's map is the key of one of its entries.
pub proof fn lemma_keyed_key<V>(s: Seq<(crate::transaction::transaction::Hash, V)>, k: Seq<u8>)
    requires
        keyed_map(s).dom().contains(k),
    ensures
        exists|i: int| 0 <= i < s.len() && #[trigger] s[i].0.0@ == k,
{
    lemma_keyed_contains(s, k);
}

/// A well-formed list holds each key once, and its entries make up its map.
pub proof fn lemma_entries_view<V>(l: KeyedList<V>)
    requires
        l.wf(),
    ensures
        keyed_distinct(l.entries_seq()),
        keyed_map(l.entries_seq()) == l@,
{
}

/// A list that holds each key once has as many keys as entries.
pub proof fn lemma_keyed_len<V>(s: Seq<(crate::transaction::transaction::Hash, V)>)
    requires
        keyed_distinct(s),
    ensures
        keyed_map(s).dom().finite(),
        keyed_map(s).dom().len() == s.len(),
    decreases s.len(),
{
    if s.len() > 0 {
        let p = s.drop_last();
        assert(keyed_distinct(p)) by {
            assert forall|i: int, j: int| 0 <= i < j < p.len() implies p[i].0.0@ != p[j].0.0@ by {
                assert(s[i].0.0@ != s[j].0.0@);
            }
        }
        lemma_keyed_len(p);
        lemma_keyed_contains(p, s.last().0.0@);
        if keyed_map(p).dom().contains(s.last().0.0@) {
            let i = choose|i: int| 0 <= i < p.len() && #[trigger] p[i].0.0@ == s.last().0.0@;
            assert(s[i].0.0@ != s[s.len() - 1].0.0@);
        }
    }
}

} // verus!
