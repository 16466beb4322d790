use vstd::prelude::*;
use crate::transaction::transaction::{
    bytes_eq,
    can_fill,
    checksum_prefix,
    hash_null,
    spec_bytes_after_fill,
    spec_transaction_valid,
    validate_transaction,
    Transaction,
    TransactionObject,
    TransactionType,
};
use crate::model::tips_view_model::{spec_add_tip, spec_remove_tip, TipsViewModel};
use crate::model::transaction_requester::TransactionRequester;
use crate::model::tips_view_model::{
    hash_bytes,
    hash_set_items,
    hash_set_insert,
    hash_set_len,
    hash_set_new,
    hash_set_nth,
    seq_without,
};
use linked_hash_set::LinkedHashSet;

verus! {

/// Largest timestamp accepted, in seconds.
pub const MAX_TIMESTAMP_FUTURE: u64 = 2 * 60 * 60;

/// Largest timestamp accepted, in milliseconds.
pub const MAX_TIMESTAMP_FUTURE_MS: u64 = 7_200_000;

/// Why a transaction was refused.
#[derive(Copy, Clone, Debug, PartialEq, Eq, Structural)]
pub enum TransactionError {
    InvalidTimestamp,
    InvalidHash,
    InvalidAddress,
    InvalidData,
}

/// A timestamp is invalid when the zero-hash transaction is older than the
/// snapshot, or when it lies beyond the future bound.
pub open spec fn spec_invalid_timestamp(t: Transaction, snapshot_timestamp: u64) -> bool {
    (t.object.timestamp < snapshot_timestamp && t.object.hash.0@ == Seq::new(32, |i: int| 0u8))
        || t.object.timestamp > MAX_TIMESTAMP_FUTURE
}

/// Whether the transaction's timestamp is out of range, given the snapshot's timestamp.
pub fn has_invalid_timestamp(transaction: &Transaction, snapshot_timestamp: u64) -> (r: bool)
    ensures
        r == spec_invalid_timestamp(*transaction, snapshot_timestamp),
{
    let z = hash_null();
    (transaction.object.timestamp < snapshot_timestamp && bytes_eq(
        transaction.object.hash.as_ref(),
        z.as_ref(),
    )) || transaction.object.timestamp > MAX_TIMESTAMP_FUTURE
}

/// Checks a transaction in order: timestamp, hash/proof of work/signature, weight
/// magnitude, then address (its checksum, and a non-null address for a value).
pub fn validate(transaction: &mut Transaction, mwm: u32, snapshot_timestamp: u64, object_bytes: &[u8]) -> (r: Result<(), TransactionError>)
    requires
        mwm <= 256,
        can_fill(old(transaction).bytes@, object_bytes@),
        vstd::utf8::encode_utf8(old(transaction).object.data@).len() + 65 <= usize::MAX,
    ensures
        final(transaction).object == old(transaction).object,
        ({
            let t = *old(transaction);
            let o = t.object;
            if spec_invalid_timestamp(t, snapshot_timestamp) {
                r == Err::<(), TransactionError>(TransactionError::InvalidTimestamp)
            } else if !spec_transaction_valid(o, mwm as int) {
                r == Err::<(), TransactionError>(TransactionError::InvalidData)
            } else if (t.weight_magnitude as u32) < mwm {
                r == Err::<(), TransactionError>(TransactionError::InvalidHash)
            } else if checksum_prefix(o.address.0@, 20) != o.address.0@[20] as nat || (o.value
                != 0 && o.address.0@ == Seq::new(21, |i: int| 0u8)) {
                r == Err::<(), TransactionError>(TransactionError::InvalidAddress)
            } else {
                r == Ok::<(), TransactionError>(())
            }
        }),
        !spec_invalid_timestamp(*old(transaction), snapshot_timestamp) ==> final(transaction).bytes@
            == spec_bytes_after_fill(old(transaction).bytes@, object_bytes@),
        spec_invalid_timestamp(*old(transaction), snapshot_timestamp) ==> final(transaction).bytes@
            == old(transaction).bytes@,
        final(transaction).weight_magnitude == old(transaction).weight_magnitude,
{
    if has_invalid_timestamp(transaction, snapshot_timestamp) {
        return Err(TransactionError::InvalidTimestamp);
    }
    if !validate_transaction(transaction, mwm, object_bytes) {
        return Err(TransactionError::InvalidData);
    }
    if (transaction.weight_magnitude as u32) < mwm {
        return Err(TransactionError::InvalidHash);
    }
    if !transaction.object.address.verify() || (transaction.object.value != 0
        && transaction.object.address.is_null()) {
        return Err(TransactionError::InvalidAddress);
    }
    Ok(())
}

/// Lowest weight magnitude a main-network node accepts.
pub const MAIN_NET_MIN_WEIGHT_MAGNITUDE: u32 = 18;

/// The weight magnitude a validator starts with.
pub const DEFAULT_MIN_WEIGHT_MAGNITUDE: u32 = 9;

/// The settings of the transaction checks.
pub struct TransactionValidator {
    pub min_weight_magnitude: u32,
}

impl TransactionValidator {
    /// A validator with the default weight magnitude.
    pub fn new() -> (r: TransactionValidator)
        ensures
            r.min_weight_magnitude == DEFAULT_MIN_WEIGHT_MAGNITUDE,
    {
        TransactionValidator { min_weight_magnitude: DEFAULT_MIN_WEIGHT_MAGNITUDE }
    }

    /// Sets the weight magnitude; off the test network it is at least
    /// `MAIN_NET_MIN_WEIGHT_MAGNITUDE`.
    pub fn init(&mut self, testnet: bool, mwm: u32)
        ensures
            final(self).min_weight_magnitude == (if !testnet && mwm < MAIN_NET_MIN_WEIGHT_MAGNITUDE {
                MAIN_NET_MIN_WEIGHT_MAGNITUDE
            } else {
                mwm
            }),
    {
        self.min_weight_magnitude = mwm;
        if !testnet && self.min_weight_magnitude < MAIN_NET_MIN_WEIGHT_MAGNITUDE {
            self.min_weight_magnitude = MAIN_NET_MIN_WEIGHT_MAGNITUDE;
        }
    }

    /// The weight magnitude in force.
    pub fn get_min_weight_magnitude(&self) -> (r: u32)
        ensures
            r == self.min_weight_magnitude,
    {
        self.min_weight_magnitude
    }
}

/// Whether an approved transaction lets its approver be solid: one known only by
/// its hash does not, and must be requested; the null hash does; any other does
/// when it is solid itself.
pub open spec fn spec_approvee_solid(o: TransactionObject) -> bool {
    if o.data_type == TransactionType::HashOnly {
        false
    } else if o.hash.0@ == Seq::new(32, |i: int| 0u8) {
        true
    } else {
        o.solid
    }
}

/// Checks an approved transaction: whether it is solid for its approver's sake,
/// and the hash to request when it is known only by its hash.
pub fn check_approvee(approvee: &TransactionObject) -> (r: (bool, Option<
    crate::transaction::transaction::Hash,
>))
    ensures
        r.0 == spec_approvee_solid(*approvee),
        r.1 is Some <==> approvee.data_type == TransactionType::HashOnly,
        r.1 matches Some(h) ==> h == approvee.hash,
{
    if approvee.data_type == TransactionType::HashOnly {
        return (false, Some(approvee.hash));
    }
    let z = hash_null();
    if bytes_eq(approvee.hash.0.as_slice(), z.0.as_slice()) {
        return (true, None);
    }
    (approvee.solid, None)
}

/// Marks a transaction solid when both transactions it approves are; the answer
/// is whether it became solid now. The hashes to request (approved transactions
/// known only by their hash) come back too, trunk first.
pub fn quick_set_solid(
    transaction: &mut Transaction,
    trunk: &TransactionObject,
    branch: &TransactionObject,
) -> (r: (bool, Vec<crate::transaction::transaction::Hash>))
    ensures
        r.0 == (!old(transaction).object.solid && spec_approvee_solid(*trunk) && spec_approvee_solid(
            *branch,
        )),
        r.0 ==> final(transaction).object == (TransactionObject {
            solid: true,
            ..old(transaction).object
        }),
        !r.0 ==> final(transaction).object == old(transaction).object,
        final(transaction).bytes@ == old(transaction).bytes@,
        final(transaction).weight_magnitude == old(transaction).weight_magnitude,
        !old(transaction).object.solid ==> r.1@ == (if trunk.data_type == TransactionType::HashOnly {
            seq![trunk.hash]
        } else {
            Seq::empty()
        }) + (if branch.data_type == TransactionType::HashOnly {
            seq![branch.hash]
        } else {
            Seq::empty()
        }),
        old(transaction).object.solid ==> r.1@.len() == 0,
{
    let mut requests: Vec<crate::transaction::transaction::Hash> = Vec::new();
    if !transaction.object.solid {
        let (trunk_ok, trunk_req) = check_approvee(trunk);
        match trunk_req {
            Some(h) => requests.push(h),
            None => {},
        }
        let (branch_ok, branch_req) = check_approvee(branch);
        match branch_req {
            Some(h) => requests.push(h),
            None => {},
        }
        proof {
            assert(requests@ =~= (if trunk.data_type == TransactionType::HashOnly {
                seq![trunk.hash]
            } else {
                Seq::empty()
            }) + (if branch.data_type == TransactionType::HashOnly {
                seq![branch.hash]
            } else {
                Seq::empty()
            }));
        }
        if trunk_ok && branch_ok {
            transaction.update_solidity(true);
            return (true, requests);
        }
    }
    (false, requests)
}

/// Takes in a transaction just stored: it is no longer requested (from the
/// milestone list), it becomes a tip when nothing approves it, the two
/// transactions it approves stop being tips, and it is marked solid when they
/// are. `approvers` is what the store holds of its approvers (`None` when it holds
/// nothing, which refuses the update with `InvalidData` after the request was
/// cleared). The answer is whether it became solid, and the hashes to request.
pub fn update_status(
    requester: &mut TransactionRequester,
    tips: &mut TipsViewModel,
    transaction: &mut Transaction,
    approvers: Option<Vec<crate::transaction::transaction::Hash>>,
    trunk: &TransactionObject,
    branch: &TransactionObject,
) -> (r: Result<(bool, Vec<crate::transaction::transaction::Hash>), TransactionError>)
    requires
        old(requester).wf(),
        old(tips).wf(),
    ensures
        final(requester).wf(),
        final(tips).wf(),
        final(requester).milestone_items() == seq_without(
            old(requester).milestone_items(),
            old(transaction).object.hash.0@,
        ),
        final(requester).normal_items() == old(requester).normal_items(),
        r is Err <==> approvers is None,
        r matches Err(e) ==> e == TransactionError::InvalidData && final(tips).tip_items() == old(tips).tip_items() && final(tips).solid_items() == old(tips).solid_items()
            && final(transaction).object == old(transaction).object,
        r is Ok ==> ({
            let h = old(transaction).object.hash.0@;
            let t1 = if approvers->0@.len() == 0 {
                spec_add_tip(old(tips).tip_items(), h)
            } else {
                old(tips).tip_items()
            };
            let after_trunk = spec_remove_tip(
                t1,
                old(tips).solid_items(),
                old(transaction).object.trunk_transaction.0@,
            );
            let after_branch = spec_remove_tip(
                after_trunk.0,
                after_trunk.1,
                old(transaction).object.branch_transaction.0@,
            );
            final(tips).tip_items() == after_branch.0 && final(tips).solid_items()
                == after_branch.1
        }),
        r matches Ok(p) ==> p.0 == (!old(transaction).object.solid && spec_approvee_solid(*trunk)
            && spec_approvee_solid(*branch)) && (p.0 ==> final(transaction).object == (
        TransactionObject { solid: true, ..old(transaction).object })) && (!p.0 ==> final(transaction).object == old(transaction).object),
{
    let hash = transaction.object.hash;
    requester.clear_transaction_request(hash);
    match approvers {
        Some(v) => {
            if v.len() == 0 {
                tips.add_tip(hash);
            }
        },
        None => return Err(TransactionError::InvalidData),
    }
    tips.remove_tip(&transaction.object.trunk_transaction);
    tips.remove_tip(&transaction.object.branch_transaction);
    Ok(quick_set_solid(transaction, trunk, branch))
}

/// Whether a stored transaction is solid: its stored flag; a hash that is not
/// stored is refused with `InvalidHash`.
pub fn check_solidity(stored: Option<&TransactionObject>) -> (r: Result<bool, TransactionError>)
    ensures
        match stored {
            Some(t) => r == Ok::<bool, TransactionError>(t.solid),
            None => r == Err::<bool, TransactionError>(TransactionError::InvalidHash),
        },
{
    match stored {
        Some(t) => Ok(t.solid),
        None => Err(TransactionError::InvalidHash),
    }
}

/// The two lists of hashes that just became solid. New hashes go to the list in
/// use (the first one while `use_first`); a propagation round switches lists and
/// works through the other one, then empties it.
pub struct SolidPropagation {
    pub use_first: bool,
    pub new_solid_transaction_list_one: LinkedHashSet<crate::transaction::transaction::Hash>,
    pub new_solid_transaction_list_two: LinkedHashSet<crate::transaction::transaction::Hash>,
}

impl SolidPropagation {
    /// The first list, oldest first.
    pub open spec fn list_one(&self) -> Seq<Seq<u8>> {
        hash_set_items(self.new_solid_transaction_list_one)
    }

    /// The second list, oldest first.
    pub open spec fn list_two(&self) -> Seq<Seq<u8>> {
        hash_set_items(self.new_solid_transaction_list_two)
    }

    /// Neither list holds a hash twice.
    pub open spec fn wf(&self) -> bool {
        &&& self.list_one().no_duplicates()
        &&& self.list_two().no_duplicates()
    }

    /// Both lists empty, the first one in use.
    pub fn new() -> (r: SolidPropagation)
        ensures
            r.wf(),
            r.use_first,
            r.list_one() == Seq::<Seq<u8>>::empty(),
            r.list_two() == Seq::<Seq<u8>>::empty(),
    {
        SolidPropagation {
            use_first: true,
            new_solid_transaction_list_one: hash_set_new(),
            new_solid_transaction_list_two: hash_set_new(),
        }
    }

    /// Puts a hash that became solid at the end of the list in use.
    pub fn add_solid_transaction(&mut self, hash: crate::transaction::transaction::Hash)
        requires
            old(self).wf(),
        ensures
            final(self).wf(),
            final(self).use_first == old(self).use_first,
            old(self).use_first ==> final(self).list_one() == seq_without(old(self).list_one(), hash.0@).push(hash.0@)
                && final(self).list_two() == old(self).list_two(),
            !old(self).use_first ==> final(self).list_two() == seq_without(old(self).list_two(), hash.0@).push(hash.0@)
                && final(self).list_one() == old(self).list_one(),
    {
        if self.use_first {
            hash_set_insert(&mut self.new_solid_transaction_list_one, hash);
        } else {
            hash_set_insert(&mut self.new_solid_transaction_list_two, hash);
        }
    }

    /// Starts a round: the other list comes into use, and the hashes of the list
    /// that was in use come back, to be worked through.
    pub fn begin_round(&mut self) -> (r: Vec<crate::transaction::transaction::Hash>)
        requires
            old(self).wf(),
        ensures
            final(self).wf(),
            final(self).use_first == !old(self).use_first,
            final(self).list_one() == old(self).list_one(),
            final(self).list_two() == old(self).list_two(),
            hash_bytes(r@) == (if final(self).use_first {
                old(self).list_two()
            } else {
                old(self).list_one()
            }),
    {
        self.use_first = !self.use_first;
        let list = if self.use_first {
            &self.new_solid_transaction_list_two
        } else {
            &self.new_solid_transaction_list_one
        };
        let n = hash_set_len(list);
        let mut out: Vec<crate::transaction::transaction::Hash> = Vec::new();
        let mut i: usize = 0;
        while i < n
            invariant
                n == hash_set_items(*list).len(),
                i <= n,
                hash_bytes(out@) == hash_set_items(*list).take(i as int),
            decreases n - i,
        {
            let h = hash_set_nth(list, i).unwrap();
            let ghost before = out@;
            out.push(h);
            proof {
                assert(hash_bytes(out@) =~= hash_bytes(before).push(h.0@));
                assert(hash_set_items(*list).take(i + 1) =~= hash_set_items(*list).take(i as int).push(
                    h.0@,
                ));
            }
            i = i + 1;
        }
        assert(hash_set_items(*list).take(n as int) =~= hash_set_items(*list));
        out
    }

    /// Ends a round: the list worked through is emptied.
    pub fn end_round(&mut self)
        requires
            old(self).wf(),
        ensures
            final(self).wf(),
            final(self).use_first == old(self).use_first,
            old(self).use_first ==> final(self).list_two() == Seq::<Seq<u8>>::empty()
                && final(self).list_one() == old(self).list_one(),
            !old(self).use_first ==> final(self).list_one() == Seq::<Seq<u8>>::empty()
                && final(self).list_two() == old(self).list_two(),
    {
        if self.use_first {
            self.new_solid_transaction_list_two = hash_set_new();
        } else {
            self.new_solid_transaction_list_one = hash_set_new();
        }
    }
}

/// What the propagation does for a transaction that approves one that became
/// solid: store it when it became solid now, else put the solid one back in the
/// list in use when it is solid.
#[derive(Copy, Clone, Debug, PartialEq, Eq, Structural)]
pub enum PropagationAction {
    UpdateTransaction,
    Requeue,
    Nothing,
}

/// The step of the propagation for one approver: `became_solid` is what marking
/// it solid answered, `transaction_solid` whether the approved transaction is solid.
pub fn propagation_action(became_solid: bool, transaction_solid: bool) -> (r: PropagationAction)
    ensures
        became_solid ==> r == PropagationAction::UpdateTransaction,
        !became_solid && transaction_solid ==> r == PropagationAction::Requeue,
        !became_solid && !transaction_solid ==> r == PropagationAction::Nothing,
{
    if became_solid {
        PropagationAction::UpdateTransaction
    } else if transaction_solid {
        PropagationAction::Requeue
    } else {
        PropagationAction::Nothing
    }
}

} // verus!
