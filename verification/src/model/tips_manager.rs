use vstd::prelude::*;
use crate::model::walk::{next_taken, TangleWalk};
use crate::storage::hashes::Hashes;
use crate::storage::hive::MilestoneLookup;
use crate::storage::keyed::{keyed_distinct, keyed_map, lemma_keyed_entry, lemma_keyed_key, KeyedList};
use crate::transaction::milestone::{Milestone, MilestoneObject};
use crate::transaction::transaction::{bytes_eq, hash_null, TransactionObject};

verus! {

/// Milliseconds between two scans of the tips for solidity.
pub const RESCAN_TX_TO_REQUEST_INTERVAL: u32 = 750;

/// The bound of a rating sum: half the largest `i64`.
pub const RATING_CAP: i64 = 4611686018427387903;

/// The capped sum: `max` when the sum is negative or above `max`.
pub open spec fn spec_cap_sum(a: int, b: int, max: int) -> int {
    if a + b < 0 || a + b > max {
        max
    } else {
        a + b
    }
}

/// Adds two ratings, giving `max` when the sum is negative or above `max`.
pub fn cap_sum(a: i64, b: i64, max: i64) -> (r: i64)
    requires
        i64::MIN <= a + b <= i64::MAX,
    ensures
        r == spec_cap_sum(a as int, b as int, max as int),
{
    if a + b < 0 || a + b > max {
        return max;
    }
    a + b
}

/// Every rating lies between zero and one above the cap.
pub open spec fn ratings_in_range(m: Map<Seq<u8>, i64>) -> bool {
    forall|k: Seq<u8>| #![trigger m[k]] m.dom().contains(k) ==> 0 <= m[k] <= RATING_CAP + 1
}

/// The capped sum of the ratings of the approvers that have one, in their order.
pub open spec fn spec_approver_sum(
    approvers: Seq<crate::transaction::transaction::Hash>,
    ratings: Map<Seq<u8>, i64>,
) -> int
    decreases approvers.len(),
{
    if approvers.len() == 0 {
        0
    } else {
        let acc = spec_approver_sum(approvers.drop_last(), ratings);
        if ratings.dom().contains(approvers.last().0@) {
            spec_cap_sum(acc, ratings[approvers.last().0@] as int, RATING_CAP as int)
        } else {
            acc
        }
    }
}

/// The rating of a transaction: one (zero for an already visited transaction
/// while an extra tip is in play) plus the capped sum of its approvers' ratings.
pub open spec fn spec_rating(
    extra_tip_is_some: bool,
    visited: Set<Seq<u8>>,
    current: Seq<u8>,
    approvers: Seq<crate::transaction::transaction::Hash>,
    ratings: Map<Seq<u8>, i64>,
) -> int {
    (if extra_tip_is_some && visited.contains(current) {
        0int
    } else {
        1int
    }) + spec_approver_sum(approvers, ratings)
}

proof fn lemma_approver_sum_bounds(
    approvers: Seq<crate::transaction::transaction::Hash>,
    ratings: Map<Seq<u8>, i64>,
)
    requires
        ratings_in_range(ratings),
    ensures
        0 <= spec_approver_sum(approvers, ratings) <= RATING_CAP,
    decreases approvers.len(),
{
    if approvers.len() > 0 {
        lemma_approver_sum_bounds(approvers.drop_last(), ratings);
    }
}

/// The rating of `current` from the ratings of its approvers.
pub fn rating_calc(
    extra_tip_is_some: bool,
    visited: &Hashes,
    current: &crate::transaction::transaction::Hash,
    approvers: &[crate::transaction::transaction::Hash],
    ratings: &KeyedList<i64>,
) -> (r: i64)
    requires
        ratings.wf(),
        ratings_in_range(ratings@),
    ensures
        r == spec_rating(extra_tip_is_some, visited@, current.0@, approvers@, ratings@),
        0 <= r <= RATING_CAP + 1,
{
    let base: i64 = if extra_tip_is_some && visited.contains(current) {
        0
    } else {
        1
    };
    let mut acc: i64 = 0;
    let mut i: usize = 0;
    while i < approvers.len()
        invariant
            i <= approvers@.len(),
            ratings.wf(),
            ratings_in_range(ratings@),
            acc == spec_approver_sum(approvers@.take(i as int), ratings@),
            0 <= acc <= RATING_CAP,
        decreases approvers@.len() - i,
    {
        proof {
            assert(approvers@.take(i + 1).drop_last() =~= approvers@.take(i as int));
            lemma_approver_sum_bounds(approvers@.take(i + 1), ratings@);
        }
        match ratings.get(&approvers[i]) {
            Some(v) => {
                acc = cap_sum(acc, v, RATING_CAP);
            },
            None => {},
        }
        i = i + 1;
    }
    assert(approvers@.take(approvers@.len() as int) =~= approvers@);
    base + acc
}

/// The approvers, in order, that have no rating yet and are not `current`.
pub open spec fn spec_unrated(
    approvers: Seq<crate::transaction::transaction::Hash>,
    ratings: Map<Seq<u8>, i64>,
    current: Seq<u8>,
) -> Seq<crate::transaction::transaction::Hash>
    decreases approvers.len(),
{
    if approvers.len() == 0 {
        Seq::empty()
    } else {
        let rest = spec_unrated(approvers.drop_last(), ratings, current);
        let a = approvers.last();
        if !ratings.dom().contains(a.0@) && a.0@ != current {
            rest.push(a)
        } else {
            rest
        }
    }
}

/// The depth-first rating of the transactions that approve one transaction: a
/// stack of hashes still to rate, the ratings so far and the hashes rated.
pub struct RatingWalk {
    pub stack: Vec<crate::transaction::transaction::Hash>,
    pub ratings: KeyedList<i64>,
    pub analyzed: Hashes,
    pub extra_tip_is_some: bool,
}

impl RatingWalk {
    /// The ratings are well formed and in range, and the rated set holds each hash once.
    pub open spec fn wf(&self) -> bool {
        &&& self.ratings.wf()
        &&& ratings_in_range(self.ratings@)
        &&& self.analyzed.wf()
    }

    /// A walk that rates `tx_hash` and what approves it.
    pub fn new(
        tx_hash: crate::transaction::transaction::Hash,
        ratings: KeyedList<i64>,
        analyzed: Hashes,
        extra_tip_is_some: bool,
    ) -> (r: RatingWalk)
        ensures
            r.stack@ == seq![tx_hash],
            r.ratings == ratings,
            r.analyzed == analyzed,
            r.extra_tip_is_some == extra_tip_is_some,
    {
        let mut stack: Vec<crate::transaction::transaction::Hash> = Vec::new();
        stack.push(tx_hash);
        assert(stack@ =~= seq![tx_hash]);
        RatingWalk { stack, ratings, analyzed, extra_tip_is_some }
    }

    /// The hash on top of the stack, taken off; `None` when the walk is over.
    pub fn next(&mut self) -> (r: Option<crate::transaction::transaction::Hash>)
        ensures
            r is None <==> old(self).stack@.len() == 0,
            r is None ==> final(self).stack@ == old(self).stack@,
            r matches Some(h) ==> h == old(self).stack@.last() && final(self).stack@ == old(self).stack@.drop_last(),
            final(self).ratings == old(self).ratings,
            final(self).analyzed == old(self).analyzed,
            final(self).extra_tip_is_some == old(self).extra_tip_is_some,
    {
        self.stack.pop()
    }

    /// Takes in the approvers of `current`. Those not rated yet go on the stack,
    /// above `current` itself, so that they are rated first; when all are rated,
    /// `current` is rated, once.
    pub fn on_approvers(
        &mut self,
        current: crate::transaction::transaction::Hash,
        approvers: &[crate::transaction::transaction::Hash],
        visited: &Hashes,
    )
        requires
            old(self).wf(),
        ensures
            final(self).wf(),
            final(self).extra_tip_is_some == old(self).extra_tip_is_some,
            ({
                let pending = spec_unrated(approvers@, old(self).ratings@, current.0@);
                if pending.len() > 0 {
                    &&& final(self).stack@ == old(self).stack@.push(current) + pending
                    &&& final(self).ratings@ == old(self).ratings@
                    &&& final(self).analyzed@ == old(self).analyzed@
                } else if old(self).analyzed@.contains(current.0@) {
                    &&& final(self).stack@ == old(self).stack@
                    &&& final(self).ratings@ == old(self).ratings@
                    &&& final(self).analyzed@ == old(self).analyzed@
                } else {
                    &&& final(self).stack@ == old(self).stack@
                    &&& final(self).analyzed@ == old(self).analyzed@.insert(current.0@)
                    &&& final(self).ratings@ == old(self).ratings@.insert(
                        current.0@,
                        spec_rating(
                            old(self).extra_tip_is_some,
                            visited@,
                            current.0@,
                            approvers@,
                            old(self).ratings@,
                        ) as i64,
                    )
                }
            }),
    {
        let ghost s0 = self.stack@;
        let mut added_back = false;
        let mut i: usize = 0;
        while i < approvers.len()
            invariant
                i <= approvers@.len(),
                old(self).wf(),
                self.analyzed == old(self).analyzed,
                self.extra_tip_is_some == old(self).extra_tip_is_some,
                self.ratings == old(self).ratings,
                self.ratings.wf(),
                added_back <==> spec_unrated(approvers@.take(i as int), self.ratings@, current.0@).len()
                    > 0,
                added_back ==> self.stack@ == s0.push(current) + spec_unrated(
                    approvers@.take(i as int),
                    self.ratings@,
                    current.0@,
                ),
                !added_back ==> self.stack@ == s0,
            decreases approvers@.len() - i,
        {
            let a = approvers[i];
            proof {
                assert(approvers@.take(i + 1).drop_last() =~= approvers@.take(i as int));
            }
            if !self.ratings.contains_key(&a) && !bytes_eq(a.0.as_slice(), current.0.as_slice()) {
                if !added_back {
                    added_back = true;
                    self.stack.push(current);
                }
                self.stack.push(a);
                proof {
                    assert(self.stack@ =~= s0.push(current) + spec_unrated(
                        approvers@.take(i + 1),
                        self.ratings@,
                        current.0@,
                    ));
                }
            }
            i = i + 1;
        }
        assert(approvers@.take(approvers@.len() as int) =~= approvers@);
        if !added_back && self.analyzed.insert(current) {
            let rating = rating_calc(self.extra_tip_is_some, visited, &current, approvers, &self.ratings);
            self.ratings.insert(current, rating);
        }
    }
}

/// The largest depth a walk may go to: the depth asked for, at most `max_depth`.
pub fn approval_depth(depth: u32, max_depth: u32) -> (r: u32)
    ensures
        r == (if depth > max_depth {
            max_depth
        } else {
            depth
        }),
{
    if depth > max_depth {
        max_depth
    } else {
        depth
    }
}

/// What a random walk does at the transaction it has reached.
#[derive(Copy, Clone, Debug, PartialEq, Eq, Structural)]
pub enum WalkStep {
    /// The walk stops; the tail reached before this transaction is its answer.
    Stop,
    /// The transaction becomes the tail and the walk stops there.
    StopAtTip,
    /// The transaction becomes the tail and the walk moves to its one approver.
    MoveToApprover,
    /// The transaction becomes the tail and the walk picks one of its approvers
    /// by their ratings.
    PickApprover,
}

/// The decision a random walk takes at a transaction. It stops where the
/// transaction is known by its hash only, is not solid, lies below the maximal
/// depth, does not fit the ledger diff of the walk so far, or is the extra tip,
/// checked in this order (an input matters only where the checks before it
/// passed); otherwise the transaction becomes the tail and the number of its
/// approvers decides whether the walk ends there, moves on to the only one, or
/// picks one of several.
pub fn walk_step(
    is_full: bool,
    solid: bool,
    below_max_depth: bool,
    diff_ok: bool,
    is_extra_tip: bool,
    n_approvers: usize,
) -> (r: WalkStep)
    ensures
        r == (if !is_full || !solid || below_max_depth || !diff_ok || is_extra_tip {
            WalkStep::Stop
        } else if n_approvers == 0 {
            WalkStep::StopAtTip
        } else if n_approvers == 1 {
            WalkStep::MoveToApprover
        } else {
            WalkStep::PickApprover
        }),
{
    if !is_full {
        return WalkStep::Stop;
    }
    if !solid {
        return WalkStep::Stop;
    }
    if below_max_depth {
        return WalkStep::Stop;
    }
    if !diff_ok {
        return WalkStep::Stop;
    }
    if is_extra_tip {
        return WalkStep::Stop;
    }
    if n_approvers == 0 {
        WalkStep::StopAtTip
    } else if n_approvers == 1 {
        WalkStep::MoveToApprover
    } else {
        WalkStep::PickApprover
    }
}

/// The decision of the Monte Carlo walk at a transaction: it stops before the
/// transaction when it heads its bundle (index zero) and is the extra tip;
/// otherwise the transaction becomes the tail, and the capacity that its set of
/// approvers reports decides: none, the walk ends there; one, it moves on; more,
/// it picks an approver by rating, and ends there when the transaction has no
/// rating.
pub fn monte_carlo_step(
    heads_bundle: bool,
    is_extra_tip: bool,
    approvers_capacity: usize,
    has_rating: bool,
) -> (r: WalkStep)
    ensures
        r == (if heads_bundle && is_extra_tip {
            WalkStep::Stop
        } else if approvers_capacity == 0 {
            WalkStep::StopAtTip
        } else if approvers_capacity == 1 {
            WalkStep::MoveToApprover
        } else if !has_rating {
            WalkStep::StopAtTip
        } else {
            WalkStep::PickApprover
        }),
{
    if heads_bundle && is_extra_tip {
        return WalkStep::Stop;
    }
    if approvers_capacity == 0 {
        WalkStep::StopAtTip
    } else if approvers_capacity == 1 {
        WalkStep::MoveToApprover
    } else if !has_rating {
        WalkStep::StopAtTip
    } else {
        WalkStep::PickApprover
    }
}

/// Where a walk for a transaction to approve starts.
#[derive(Copy, Clone, Debug)]
pub enum EntryPoint {
    /// At this hash.
    At(crate::transaction::transaction::Hash),
    /// At the milestone this lookup finds, or the latest solid milestone.
    Find(MilestoneLookup),
}

/// The settings of tip selection.
pub struct TipsManager {
    pub max_depth: u32,
    pub milestone_start_index: u32,
    pub testnet: bool,
    pub shutting_down: bool,
}

impl TipsManager {
    /// Tip selection with these settings.
    pub fn new(max_depth: u32, testnet: bool, milestone_start_index: u32) -> (r: TipsManager)
        ensures
            r.max_depth == max_depth,
            r.testnet == testnet,
            r.milestone_start_index == milestone_start_index,
            !r.shutting_down,
    {
        TipsManager { max_depth, milestone_start_index, testnet, shutting_down: false }
    }

    /// The largest depth of a walk.
    pub fn get_max_depth(&self) -> (r: u32)
        ensures
            r == self.max_depth,
    {
        self.max_depth
    }

    /// Asks the solidity scan to stop.
    pub fn shutdown(&mut self)
        ensures
            final(self).shutting_down,
            final(self).max_depth == old(self).max_depth,
    {
        self.shutting_down = true;
    }

    /// Whether tips can be selected yet: the latest solid milestone is past the
    /// start index, or the latest milestone is the start one.
    pub fn can_select(&self, milestone: &Milestone) -> (r: bool)
        ensures
            r == (milestone.latest_solid_subhive_milestone_index > self.milestone_start_index
                || milestone.latest_milestone_index == self.milestone_start_index),
    {
        milestone.latest_solid_subhive_milestone_index > self.milestone_start_index
            || milestone.latest_milestone_index == self.milestone_start_index
    }

    /// Where a walk starts. Without an extra tip: at the reference, else at the
    /// latest solid milestone. With one: at the first milestone after the latest
    /// solid one less `depth + 1` (the first one when that is not above zero).
    pub fn entry_point(
        &self,
        milestone: &Milestone,
        reference: Option<crate::transaction::transaction::Hash>,
        extra_tip: Option<crate::transaction::transaction::Hash>,
        depth: u32,
    ) -> (r: EntryPoint)
        requires
            extra_tip is Some ==> milestone.latest_solid_subhive_milestone_index > 0,
        ensures
            extra_tip is None ==> r == EntryPoint::At(match reference {
                Some(h) => h,
                None => milestone.latest_solid_subhive_milestone,
            }),
            extra_tip is Some ==> r == EntryPoint::Find(
                crate::storage::hive::spec_closest_next_milestone_lookup(
                    (if milestone.latest_solid_subhive_milestone_index - 1 > depth {
                        milestone.latest_solid_subhive_milestone_index - depth - 1
                    } else {
                        0
                    }) as u32,
                    self.testnet,
                    self.milestone_start_index,
                ),
            ),
    {
        match extra_tip {
            None => match reference {
                Some(h) => EntryPoint::At(h),
                None => EntryPoint::At(milestone.latest_solid_subhive_milestone),
            },
            Some(_) => {
                let milestone_index: u32 = if milestone.latest_solid_subhive_milestone_index - 1
                    > depth {
                    milestone.latest_solid_subhive_milestone_index - depth - 1
                } else {
                    0
                };
                EntryPoint::Find(
                    crate::storage::hive::closest_next_milestone_lookup(
                        milestone_index,
                        self.testnet,
                        self.milestone_start_index,
                    ),
                )
            },
        }
    }
}

/// The start of a walk from the milestone a lookup found: its hash unless it is
/// the null hash or nothing was found, else the latest solid milestone.
pub fn entry_from_milestone(milestone: &Milestone, found: Option<MilestoneObject>) -> (r:
    crate::transaction::transaction::Hash)
    ensures
        r == (match found {
            Some(m) => if m.hash.0@ != Seq::new(32, |i: int| 0u8) {
                m.hash
            } else {
                milestone.latest_solid_subhive_milestone
            },
            None => milestone.latest_solid_subhive_milestone,
        }),
{
    match found {
        Some(m) => {
            let z = hash_null();
            if !bytes_eq(m.hash.0.as_slice(), z.0.as_slice()) {
                return m.hash;
            }
            milestone.latest_solid_subhive_milestone
        },
        None => milestone.latest_solid_subhive_milestone,
    }
}

/// The walk that tells whether an unconfirmed tip references a transaction
/// confirmed below the depth bound.
pub struct DepthWalk {
    pub walk: TangleWalk,
    pub depth: u32,
}

impl DepthWalk {
    /// A tip already confirmed at or after the bound is never below it.
    pub fn tip_confirmed(tip: &TransactionObject, depth: u32) -> (r: bool)
        ensures
            r == (tip.snapshot >= depth),
    {
        tip.snapshot >= depth
    }

    /// A walk from `tip`.
    pub fn new(tip: crate::transaction::transaction::Hash, depth: u32) -> (r: DepthWalk)
        ensures
            r.walk.visited.wf(),
            r.walk.visited@ == Set::<Seq<u8>>::empty(),
            r.walk.queue@ == seq![tip],
            r.depth == depth,
    {
        DepthWalk { walk: TangleWalk::new(Hashes::new(), Some(tip)), depth }
    }

    /// The next hash to load; `None` when the walk is over.
    pub fn next(&mut self) -> (r: Option<crate::transaction::transaction::Hash>)
        requires
            old(self).walk.visited.wf(),
        ensures
            final(self).walk.visited.wf(),
            next_taken(
                old(self).walk.queue@,
                old(self).walk.visited@,
                final(self).walk.queue@,
                final(self).walk.visited@,
                r,
            ),
            final(self).depth == old(self).depth,
    {
        self.walk.next()
    }

    /// Takes in the transaction loaded for `hash`: `true` when it is confirmed below
    /// the bound. An unconfirmed one not yet known to be within the bound has its
    /// trunk then its branch join the walk.
    pub fn on_transaction(
        &mut self,
        hash: &crate::transaction::transaction::Hash,
        t: &TransactionObject,
        max_depth_ok: &Hashes,
    ) -> (r: bool)
        ensures
            r == (t.snapshot != 0 && t.snapshot < old(self).depth),
            final(self).walk.visited == old(self).walk.visited,
            final(self).depth == old(self).depth,
            !r && t.snapshot == 0 && !max_depth_ok@.contains(hash.0@) ==> final(self).walk.queue@
                == old(self).walk.queue@.push(t.trunk_transaction).push(t.branch_transaction),
            !(!r && t.snapshot == 0 && !max_depth_ok@.contains(hash.0@)) ==> final(self).walk.queue@ == old(self).walk.queue@,
    {
        if t.snapshot != 0 && t.snapshot < self.depth {
            return true;
        }
        if t.snapshot == 0 {
            if !max_depth_ok.contains(hash) {
                self.walk.push(t.trunk_transaction);
                self.walk.push(t.branch_transaction);
            }
        }
        false
    }
}

/// Counts one more walk ending at `tail`.
pub fn tally_tail(tally: &mut KeyedList<i32>, tail: crate::transaction::transaction::Hash)
    requires
        old(tally).wf(),
        old(tally)@.dom().contains(tail.0@) ==> old(tally)@[tail.0@] < i32::MAX,
    ensures
        final(tally).wf(),
        final(tally)@ == old(tally)@.insert(
            tail.0@,
            if old(tally)@.dom().contains(tail.0@) {
                (old(tally)@[tail.0@] + 1) as i32
            } else {
                1i32
            },
        ),
{
    match tally.get(&tail) {
        Some(v) => {
            tally.insert(tail, v + 1);
        },
        None => {
            tally.insert(tail, 1);
        },
    }
}

/// A fair coin: the lowest bit of a random byte.
fn random_coin() -> (r: bool) {
    let b = crate::storage::hive::random_bytes();
    b[0] % 2 == 0
}

/// The tail most walks ended at, ties broken at random; `None` when no walk
/// ended anywhere or the winner is the null hash.
pub fn best_tail(tally: &KeyedList<i32>) -> (r: Option<crate::transaction::transaction::Hash>)
    requires
        tally.wf(),
        forall|k: Seq<u8>| #![trigger tally@[k]] tally@.dom().contains(k) ==> tally@[k] > 0,
    ensures
        tally@ == Map::<Seq<u8>, i32>::empty() ==> r is None,
        r matches Some(h) ==> tally@.dom().contains(h.0@) && h.0@ != Seq::new(32, |i: int| 0u8)
            && forall|k: Seq<u8>| #![trigger tally@[k]] tally@.dom().contains(k) ==> tally@[k] <= tally@[h.0@],
        r is None && tally@ != Map::<Seq<u8>, i32>::empty() ==> exists|k: Seq<u8>|
            #![trigger tally@[k]]
            tally@.dom().contains(k) && k == Seq::new(32, |i: int| 0u8) && forall|j: Seq<u8>|
                #![trigger tally@[j]]
                tally@.dom().contains(j) ==> tally@[j] <= tally@[k],
{
    let entries = tally.as_slice();
    let ghost s = entries@;
    let mut best = hash_null();
    let mut best_count: i32 = 0;
    let mut i: usize = 0;
    while i < entries.len()
        invariant
            s == entries@,
            keyed_distinct(s),
            keyed_map(s) == tally@,
            i <= s.len(),
            forall|k: Seq<u8>| #![trigger tally@[k]] tally@.dom().contains(k) ==> tally@[k] > 0,
            i == 0 ==> best_count == 0 && best.0@ == Seq::new(32, |j: int| 0u8),
            i > 0 ==> keyed_map(s.take(i as int)).dom().contains(best.0@) && best_count
                == tally@[best.0@],
            forall|j: int| 0 <= j < i ==> #[trigger] s[j].1 <= best_count,
        decreases s.len() - i,
    {
        let (h, c) = entries[i];
        proof {
            lemma_keyed_entry(s, i as int);
            assert(s.take(i + 1).drop_last() =~= s.take(i as int));
        }
        if best_count > c {
        } else if best_count < c {
            best = h;
            best_count = c;
        } else if random_coin() {
        } else {
            best = h;
            best_count = c;
        }
        proof {
            if i > 0 {
                assert(keyed_map(s.take(i + 1)).dom().contains(best.0@));
            }
        }
        i = i + 1;
    }
    proof {
        assert(s.take(s.len() as int) =~= s);
        assert forall|k: Seq<u8>| #![trigger tally@[k]] tally@.dom().contains(k) implies tally@[k] <= best_count by {
            lemma_keyed_key(s, k);
            let j = choose|j: int| 0 <= j < s.len() && #[trigger] s[j].0.0@ == k;
            lemma_keyed_entry(s, j);
        }
        if s.len() == 0 {
            assert(tally@ =~= Map::<Seq<u8>, i32>::empty());
        } else {
            lemma_keyed_entry(s, 0);
        }
    }
    let z = hash_null();
    if bytes_eq(best.0.as_slice(), z.0.as_slice()) {
        proof {
            if s.len() > 0 {
                assert(tally@.dom().contains(best.0@));
                assert(tally@[best.0@] == best_count);
            }
        }
        return None;
    }
    Some(best)
}

} // verus!
