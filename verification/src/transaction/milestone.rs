use vstd::prelude::*;
use byteorder::ByteOrder;
use crate::storage::hashes::Hashes;
use crate::storage::snapshot::Snapshot;
use crate::transaction::transaction::{
    hash_null,
    Address,
    PublicKey,
    TransactionType,
};
use crate::model::ledger_validator::spec_key_address;

verus! {

/// Milliseconds between two scans of the milestone trackers.
pub const RESCAN_INTERVAL: i32 = 5000;

/// Highest milestone index accepted, plus one.
pub const MAX_MILESTONE_INDEX: u32 = 0x200000;

/// The verdict on a milestone candidate.
#[derive(Copy, Clone, Debug, PartialEq, Eq, Structural)]
pub enum Validity {
    Valid,
    Invalid,
    Incomplete,
}

/// A milestone: its index and the hash of its transaction.
#[derive(Copy, Clone, Debug)]
pub struct MilestoneObject {
    pub index: u32,
    pub hash: crate::transaction::transaction::Hash,
}

impl MilestoneObject {
    /// Identifier of the serialized type.
    pub const SVUID: i32 = 927164361;

    /// The milestone of index `index` whose transaction has hash `hash`.
    pub fn new(index: u32, hash: crate::transaction::transaction::Hash) -> (r: MilestoneObject)
        ensures
            r.index == index,
            r.hash == hash,
    {
        MilestoneObject { index, hash }
    }

    /// The milestone's index.
    pub fn index(&self) -> (r: u32)
        ensures
            r == self.index,
    {
        self.index
    }

    /// The hash of the milestone's transaction.
    pub fn get_hash(&self) -> (r: crate::transaction::transaction::Hash)
        ensures
            r == self.hash,
    {
        self.hash
    }
}

/// The big-endian number that four bytes stand for.
pub open spec fn be_u32(b: Seq<u8>) -> int {
    b[0] * 0x100_0000 + b[1] * 0x1_0000 + b[2] * 0x100 + b[3]
}

/// `byteorder::BigEndian::read_u32`: the big-endian number in the first four
/// bytes. It panics on fewer than four, which `requires` leaves out.
#[verifier::external_body]
fn read_u32_be(buf: &[u8]) -> (r: u32)
    requires
        buf@.len() >= 4,
    ensures
        r == be_u32(buf@),
{
    byteorder::BigEndian::read_u32(buf)
}

/// The index a milestone transaction carries: the big-endian number in the last
/// four bytes of its tag.
pub fn get_index(tag: &crate::transaction::transaction::Hash) -> (r: u32)
    ensures
        r == be_u32(tag.0@.subrange(28, 32)),
{
    let tail = vstd::slice::slice_subrange(tag.0.as_slice(), 28, 32);
    read_u32_be(tail)
}

/// How long a tracker sleeps after a scan that took `elapsed` milliseconds: what
/// is left of the rescan interval, at least one millisecond. The elapsed time is
/// taken as an `i32`, as the trackers always have.
pub fn rescan_delay(elapsed: u64) -> (r: u32)
    requires
        RESCAN_INTERVAL - (elapsed as i32) <= i32::MAX,
    ensures
        r as int == (if RESCAN_INTERVAL - (elapsed as i32) > 1 {
            RESCAN_INTERVAL - (elapsed as i32)
        } else {
            1
        }),
{
    let e: i32 = elapsed as i32;
    let left: i32 = RESCAN_INTERVAL - e;
    if left > 1 {
        left as u32
    } else {
        1
    }
}

/// What the milestone trackers know: the coordinator, the settings of the
/// network, the candidates already looked at, and the latest milestone and the
/// latest one whose sub-tangle is solid.
pub struct Milestone {
    pub latest_snapshot: Snapshot,
    pub coordinator: Address,
    pub testnet: bool,
    pub num_of_keys_in_milestone: u32,
    pub milestone_start_index: u32,
    pub accept_any_testnet_coo: bool,
    pub analyzed_milestone_candidates: Hashes,
    pub latest_solid_subhive_milestone_index: u32,
    pub latest_milestone_index: u32,
    pub latest_solid_subhive_milestone: crate::transaction::transaction::Hash,
    pub latest_milestone: crate::transaction::transaction::Hash,
    pub shutting_down: bool,
}

/// The verdict on a candidate of index `index`: out of range, invalid; already
/// stored, valid; else valid when its trunk is a full transaction signed by the
/// coordinator (by anyone on a test network that accepts any coordinator), and
/// invalid otherwise.
pub open spec fn spec_milestone_validity(
    m: Milestone,
    index: u32,
    stored: bool,
    trunk: Option<(TransactionType, PublicKey)>,
) -> Validity {
    if index >= MAX_MILESTONE_INDEX {
        Validity::Invalid
    } else if stored {
        Validity::Valid
    } else {
        match trunk {
            Some((TransactionType::Full, pk)) => if (m.testnet && m.accept_any_testnet_coo)
                || spec_key_address(pk@) == Some(m.coordinator.0@) {
                Validity::Valid
            } else {
                Validity::Invalid
            },
            _ => Validity::Invalid,
        }
    }
}

/// Neither the latest milestone index nor the latest solid milestone index went
/// down from `a` to `b`.
pub open spec fn indices_forward(a: Milestone, b: Milestone) -> bool {
    &&& a.latest_milestone_index <= b.latest_milestone_index
    &&& a.latest_solid_subhive_milestone_index <= b.latest_solid_subhive_milestone_index
}

/// The trackers only move the two indices forward: every step keeps
/// `indices_forward` (see the steps' contracts), and it carries over a run of
/// steps, so any later state has indices at least those of any earlier one.
pub proof fn law_indices_only_move_forward(a: Milestone, b: Milestone, c: Milestone)
    requires
        indices_forward(a, b),
        indices_forward(b, c),
    ensures
        indices_forward(a, c),
{
}

/// Step `k` of a run of tracker states kept the indices from going down.
pub open spec fn run_step_forward(states: Seq<Milestone>, k: int) -> bool {
    indices_forward(states[k], states[k + 1])
}

/// Over a run of tracker states in which every step keeps `indices_forward` (as
/// each tracker step's contract says it does), any state has indices at least
/// those of every state before it.
pub proof fn law_run_only_moves_forward(states: Seq<Milestone>, i: int, j: int)
    requires
        forall|k: int| 0 <= k < states.len() - 1 ==> #[trigger] run_step_forward(states, k),
        0 <= i <= j < states.len(),
    ensures
        indices_forward(states[i], states[j]),
    decreases j - i,
{
    if i < j {
        law_run_only_moves_forward(states, i, j - 1);
        assert(run_step_forward(states, j - 1));
        law_indices_only_move_forward(states[i], states[j - 1], states[j]);
    }
}

impl Milestone {
    /// The trackers' state before any scan: no milestone known.
    pub fn new(
        coordinator: Address,
        initial_snapshot: Snapshot,
        testnet: bool,
        num_of_keys_in_milestone: u32,
        milestone_start_index: u32,
        accept_any_testnet_coo: bool,
    ) -> (r: Milestone)
        ensures
            r.coordinator == coordinator,
            r.latest_snapshot == initial_snapshot,
            r.testnet == testnet,
            r.num_of_keys_in_milestone == num_of_keys_in_milestone,
            r.milestone_start_index == milestone_start_index,
            r.accept_any_testnet_coo == accept_any_testnet_coo,
            r.analyzed_milestone_candidates.wf(),
            r.analyzed_milestone_candidates@ == Set::<Seq<u8>>::empty(),
            r.latest_solid_subhive_milestone_index == 0,
            r.latest_milestone_index == 0,
            r.latest_solid_subhive_milestone.0@ == Seq::new(32, |i: int| 0u8),
            r.latest_milestone.0@ == Seq::new(32, |i: int| 0u8),
            !r.shutting_down,
    {
        let latest_milestone = hash_null();
        Milestone {
            latest_snapshot: initial_snapshot,
            coordinator,
            testnet,
            num_of_keys_in_milestone,
            milestone_start_index,
            accept_any_testnet_coo,
            analyzed_milestone_candidates: Hashes::new(),
            latest_solid_subhive_milestone_index: 0,
            latest_milestone_index: 0,
            latest_solid_subhive_milestone: latest_milestone,
            latest_milestone,
            shutting_down: false,
        }
    }

    /// The verdict on a milestone candidate whose transaction has hash
    /// `transaction_hash` and claims index `index`, given whether a milestone of
    /// that index is stored already and the type and signing key of the
    /// candidate's trunk. A candidate newly found valid comes back as the
    /// milestone to store.
    pub fn validate_milestone(
        &self,
        transaction_hash: crate::transaction::transaction::Hash,
        index: u32,
        stored: bool,
        trunk: Option<(TransactionType, PublicKey)>,
    ) -> (r: (Validity, Option<MilestoneObject>))
        ensures
            r.0 == spec_milestone_validity(*self, index, stored, trunk),
            r.1 is Some <==> (r.0 == Validity::Valid && !stored && index < MAX_MILESTONE_INDEX),
            r.1 matches Some(m) ==> m.index == index && m.hash == transaction_hash,
    {
        if index >= MAX_MILESTONE_INDEX {
            return (Validity::Invalid, None);
        }
        if stored {
            return (Validity::Valid, None);
        }
        match trunk {
            Some((TransactionType::Full, pk)) => {
                let signer_is_coordinator = match Address::from_public_key(&pk) {
                    Some(a) => crate::transaction::transaction::bytes_eq(
                        a.0.as_slice(),
                        self.coordinator.0.as_slice(),
                    ),
                    None => false,
                };
                if self.testnet && self.accept_any_testnet_coo || signer_is_coordinator {
                    (Validity::Valid, Some(MilestoneObject { index, hash: transaction_hash }))
                } else {
                    (Validity::Invalid, None)
                }
            },
            _ => (Validity::Invalid, None),
        }
    }

    /// Marks a candidate as looked at; the answer is whether it was new.
    pub fn begin_candidate(&mut self, hash: crate::transaction::transaction::Hash) -> (r: bool)
        requires
            old(self).analyzed_milestone_candidates.wf(),
        ensures
            final(self).analyzed_milestone_candidates.wf(),
            r == !old(self).analyzed_milestone_candidates@.contains(hash.0@),
            final(self).analyzed_milestone_candidates@ == old(self).analyzed_milestone_candidates@.insert(hash.0@),
            final(self).latest_milestone_index == old(self).latest_milestone_index,
            final(self).latest_milestone == old(self).latest_milestone,
            final(self).latest_solid_subhive_milestone_index == old(self).latest_solid_subhive_milestone_index,
            final(self).latest_solid_subhive_milestone == old(self).latest_solid_subhive_milestone,
            final(self).latest_snapshot == old(self).latest_snapshot,
            final(self).coordinator == old(self).coordinator,
            final(self).testnet == old(self).testnet,
            final(self).num_of_keys_in_milestone == old(self).num_of_keys_in_milestone,
            final(self).milestone_start_index == old(self).milestone_start_index,
            final(self).accept_any_testnet_coo == old(self).accept_any_testnet_coo,
            final(self).shutting_down == old(self).shutting_down,
            indices_forward(*old(self), *final(self)),
    {
        self.analyzed_milestone_candidates.insert(hash)
    }

    /// Takes in the verdict on a candidate: a valid one lets the latest stored
    /// milestone become the latest milestone when its index is higher; an
    /// incomplete one is looked at again later; an invalid one changes nothing.
    /// The latest milestone index never goes down.
    pub fn record_candidate(
        &mut self,
        hash: &crate::transaction::transaction::Hash,
        validity: Validity,
        latest_stored: Option<MilestoneObject>,
    )
        requires
            old(self).analyzed_milestone_candidates.wf(),
        ensures
            final(self).analyzed_milestone_candidates.wf(),
            final(self).latest_milestone_index >= old(self).latest_milestone_index,
            final(self).latest_solid_subhive_milestone_index == old(self).latest_solid_subhive_milestone_index,
            final(self).latest_solid_subhive_milestone == old(self).latest_solid_subhive_milestone,
            (match (validity, latest_stored) {
                (Validity::Valid, Some(m)) => m.index > old(self).latest_milestone_index,
                _ => false,
            }) ==> final(self).latest_milestone_index == latest_stored->0.index && final(self).latest_milestone == latest_stored->0.hash,
            !(match (validity, latest_stored) {
                (Validity::Valid, Some(m)) => m.index > old(self).latest_milestone_index,
                _ => false,
            }) ==> final(self).latest_milestone_index == old(self).latest_milestone_index
                && final(self).latest_milestone == old(self).latest_milestone,
            validity == Validity::Incomplete ==> final(self).analyzed_milestone_candidates@ == old(self).analyzed_milestone_candidates@.remove(hash.0@),
            validity != Validity::Incomplete ==> final(self).analyzed_milestone_candidates@ == old(self).analyzed_milestone_candidates@,
            indices_forward(*old(self), *final(self)),
    {
        match validity {
            Validity::Valid => {
                match latest_stored {
                    Some(m) => {
                        if m.index > self.latest_milestone_index {
                            self.latest_milestone = m.hash;
                            self.latest_milestone_index = m.index;
                        }
                    },
                    None => {},
                }
            },
            Validity::Incomplete => {
                self.analyzed_milestone_candidates.remove(hash);
            },
            Validity::Invalid => {},
        }
    }

    /// Whether the solid tracker has work: the latest solid milestone is behind the
    /// latest milestone.
    pub fn needs_solid_update(&self) -> (r: bool)
        ensures
            r == (self.latest_solid_subhive_milestone_index < self.latest_milestone_index),
    {
        self.latest_solid_subhive_milestone_index < self.latest_milestone_index
    }

    /// Whether the solid tracker looks at milestone `m` at all: it is not past the
    /// latest stored milestone and no shutdown is under way.
    pub fn solid_candidate(&self, m: &MilestoneObject, latest_index: u32) -> (r: bool)
        ensures
            r == (m.index <= latest_index && !self.shutting_down),
    {
        m.index <= latest_index && !self.shutting_down
    }

    /// Whether milestone `m`, whose sub-tangle is `solid` or not, can become the
    /// latest solid milestone: it must be solid and not behind the current one.
    pub fn accepts_solid(&self, m: &MilestoneObject, solid: bool) -> (r: bool)
        ensures
            r == (solid && m.index >= self.latest_solid_subhive_milestone_index),
    {
        solid && m.index >= self.latest_solid_subhive_milestone_index
    }

    /// Makes `m` the latest solid milestone when its snapshot could be taken. The
    /// latest solid milestone index never goes down.
    pub fn advance_solid(&mut self, m: &MilestoneObject, snapshot_updated: bool)
        requires
            m.index >= old(self).latest_solid_subhive_milestone_index,
        ensures
            final(self).latest_solid_subhive_milestone_index >= old(self).latest_solid_subhive_milestone_index,
            snapshot_updated ==> final(self).latest_solid_subhive_milestone_index == m.index
                && final(self).latest_solid_subhive_milestone == m.hash,
            !snapshot_updated ==> final(self).latest_solid_subhive_milestone_index == old(self).latest_solid_subhive_milestone_index && final(self).latest_solid_subhive_milestone
                == old(self).latest_solid_subhive_milestone,
            final(self).latest_milestone_index == old(self).latest_milestone_index,
            final(self).latest_milestone == old(self).latest_milestone,
            final(self).analyzed_milestone_candidates == old(self).analyzed_milestone_candidates,
            indices_forward(*old(self), *final(self)),
    {
        if snapshot_updated {
            self.latest_solid_subhive_milestone = m.hash;
            self.latest_solid_subhive_milestone_index = m.index;
        }
    }

    /// Asks the trackers to stop.
    pub fn shutdown(&mut self)
        ensures
            final(self).shutting_down,
            final(self).latest_milestone_index == old(self).latest_milestone_index,
            final(self).latest_solid_subhive_milestone_index == old(self).latest_solid_subhive_milestone_index,
            indices_forward(*old(self), *final(self)),
    {
        self.shutting_down = true;
    }
}

} // verus!
