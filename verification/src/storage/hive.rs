use vstd::prelude::*;
use crate::transaction::transaction::{
    spec_address_of_digest,
    spec_sha3_256,
    spec_uncompressed_key,
    Address,
    PrivateKey,
    PublicKey,
    TransactionObject,
    TransactionType,
    HASH_SIZE,
};

verus! {

/// Total number of coins in the ledger.
pub const SUPPLY: u64 = 1_000_000_000;

/// The column families of the store.
#[derive(Copy, Clone, Debug, PartialEq, Eq, Structural, Hash)]
pub enum CFType {
    Transaction,
    TransactionMetadata,
    Address,
    AddressTransactions,
    Approvee,
    Milestone,
    StateDiff,
    Contracts,
}

/// Position of each column family in the store's list of families.
pub open spec fn spec_cf_index(t: CFType) -> nat {
    match t {
        CFType::Transaction => 0,
        CFType::TransactionMetadata => 1,
        CFType::Address => 2,
        CFType::AddressTransactions => 3,
        CFType::Approvee => 4,
        CFType::Milestone => 5,
        CFType::StateDiff => 6,
        CFType::Contracts => 7,
    }
}

impl CFType {
    /// Position of the family in the store's list of families.
    pub fn index(self) -> (r: usize)
        ensures
            r == spec_cf_index(self),
    {
        match self {
            CFType::Transaction => 0,
            CFType::TransactionMetadata => 1,
            CFType::Address => 2,
            CFType::AddressTransactions => 3,
            CFType::Approvee => 4,
            CFType::Milestone => 5,
            CFType::StateDiff => 6,
            CFType::Contracts => 7,
        }
    }

    /// Name under which the family is stored.
    pub fn name(self) -> (r: &'static str)
        ensures
            r@ == match self {
                CFType::Transaction => "transaction"@,
                CFType::TransactionMetadata => "transaction-metadata"@,
                CFType::Address => "address"@,
                CFType::AddressTransactions => "address_transactions"@,
                CFType::Approvee => "approvee"@,
                CFType::Milestone => "milestone"@,
                CFType::StateDiff => "state_diff"@,
                CFType::Contracts => "contracts"@,
            },
    {
        match self {
            CFType::Transaction => "transaction",
            CFType::TransactionMetadata => "transaction-metadata",
            CFType::Address => "address",
            CFType::AddressTransactions => "address_transactions",
            CFType::Approvee => "approvee",
            CFType::Milestone => "milestone",
            CFType::StateDiff => "state_diff",
            CFType::Contracts => "contracts",
        }
    }
}

/// The hashes of a list stored as their concatenation: `None` unless the bytes
/// are one or more whole hashes.
pub open spec fn spec_hashes_of(b: Seq<u8>) -> Option<Seq<Seq<u8>>> {
    if b.len() < 32 || b.len() % 32 != 0 {
        None
    } else {
        Some(Seq::new((b.len() / 32) as nat, |i: int| b.subrange(32 * i, 32 * i + 32)))
    }
}

/// Splits a stored list of hashes (their concatenation, as the store's merge
/// operator appends them) into the hashes.
pub fn hashes_from_bytes(b: &[u8]) -> (r: Option<Vec<crate::transaction::transaction::Hash>>)
    ensures
        match spec_hashes_of(b@) {
            None => r is None,
            Some(hs) => r matches Some(v) && v@.len() == hs.len() && forall|i: int|
                0 <= i < hs.len() ==> #[trigger] v@[i].0@ == hs[i],
        },
{
    if b.len() < HASH_SIZE || b.len() % HASH_SIZE != 0 {
        return None;
    }
    let mut arr: Vec<crate::transaction::transaction::Hash> = Vec::new();
    let mut pos: usize = 0;
    let n: usize = b.len();
    while pos < n
        invariant
            n == b@.len(),
            n % 32 == 0,
            pos % 32 == 0,
            pos <= n,
            arr@.len() == pos / 32,
            forall|i: int|
                0 <= i < arr@.len() ==> #[trigger] arr@[i].0@ == b@.subrange(32 * i, 32 * i + 32),
        decreases n - pos,
    {
        let mut h = [0u8; 32];
        let mut k: usize = 0;
        while k < 32
            invariant
                k <= 32,
                pos + 32 <= n,
                n == b@.len(),
                forall|j: int| 0 <= j < k ==> h@[j] == b@[pos + j],
            decreases 32 - k,
        {
            h[k] = b[pos + k];
            k = k + 1;
        }
        assert(h@ =~= b@.subrange(pos as int, pos + 32));
        arr.push(crate::transaction::transaction::Hash(h));
        pos = pos + HASH_SIZE;
    }
    Some(arr)
}

/// Where the search for the next milestone after a given index starts.
#[derive(Copy, Clone, Debug, PartialEq, Eq, Structural)]
pub enum MilestoneLookup {
    /// The first milestone in the store.
    First,
    /// The first milestone stored at or after this index.
    From(u32),
}

/// Off the test network, an index at or below the start index looks at the first
/// stored milestone; otherwise the search starts at the index itself.
pub open spec fn spec_closest_next_milestone_lookup(
    index: u32,
    testnet: bool,
    milestone_start_index: u32,
) -> MilestoneLookup {
    if !testnet && index <= milestone_start_index {
        MilestoneLookup::First
    } else {
        MilestoneLookup::From(index)
    }
}

/// Where the search for the closest milestone after `index` starts (see
/// `spec_closest_next_milestone_lookup`).
pub fn closest_next_milestone_lookup(index: u32, testnet: bool, milestone_start_index: u32) -> (r:
    MilestoneLookup)
    ensures
        r == spec_closest_next_milestone_lookup(index, testnet, milestone_start_index),
{
    if !testnet && index <= milestone_start_index {
        return MilestoneLookup::First;
    }
    MilestoneLookup::From(index)
}

/// The compressed public key of a secret key, `None` when the bytes are not a
/// valid secret key.
pub uninterp spec fn spec_public_key_of(sk: Seq<u8>) -> Option<Seq<u8>>;

/// Derives the public key with `secp256k1::PublicKey::from_secret_key` after
/// parsing the secret with `SecretKey::from_secret_bytes`. Claimed: the result is
/// the one named `spec_public_key_of`, `None` exactly when parsing fails, and a
/// key it returns parses again as a point of the curve.
#[verifier::external_body]
fn public_key_of_secret(sk: &[u8; 32]) -> (r: Option<[u8; 33]>)
    ensures
        spec_public_key_of(sk@) is Some <==> r is Some,
        r matches Some(pk) ==> spec_public_key_of(sk@) == Some(pk@) && spec_uncompressed_key(pk@) is Some,
{
    match secp256k1::SecretKey::from_secret_bytes(*sk) {
        Ok(k) => Some(secp256k1::PublicKey::from_secret_key(&k).serialize()),
        Err(_) => None,
    }
}

/// Thirty-two bytes from `rand::random`, the thread's random generator. Nothing is
/// claimed of them.
#[verifier::external_body]
pub(crate) fn random_bytes() -> (r: [u8; 32]) {
    rand::random::<[u8; 32]>()
}

/// `a` is the address of the public key `pk`: the last twenty bytes of the
/// SHA3-256 digest of the key's uncompressed form, then their checksum.
pub open spec fn address_of_key(pk: Seq<u8>, a: Address) -> bool {
    spec_uncompressed_key(pk) matches Some(u) && a.0@ == spec_address_of_digest(spec_sha3_256(u))
}

/// A fresh random secret key with its public key and address; `None` in the
/// rare case that the random bytes are not a valid secret key.
pub fn generate_address() -> (r: Option<(Address, PrivateKey, PublicKey)>)
    ensures
        r matches Some(t) ==> spec_public_key_of(t.1@) == Some(t.2@) && address_of_key(t.2@, t.0),
{
    let sk = random_bytes();
    match generate_address_from_private_key(&sk) {
        Some((a, pk)) => Some((a, sk, pk)),
        None => None,
    }
}

/// The address and public key of a secret key; `None` when the bytes are not a
/// valid secret key.
pub fn generate_address_from_private_key(sk: &PrivateKey) -> (r: Option<(Address, PublicKey)>)
    ensures
        spec_public_key_of(sk@) is Some <==> r is Some,
        r matches Some(p) ==> spec_public_key_of(sk@) == Some(p.1@) && address_of_key(p.1@, p.0),
{
    let pk = match public_key_of_secret(sk) {
        Some(pk) => pk,
        None => return None,
    };
    match Address::from_public_key(&pk) {
        Some(a) => Some((a, pk)),
        None => {
            proof {
                assert(false);
            }
            None
        },
    }
}

/// Whether the walk that gives transactions their heights goes on down past this
/// trunk: it has no height yet, is known in full, and is not the null hash.
pub fn trunk_needs_height(trunk: &TransactionObject) -> (r: bool)
    ensures
        r == (trunk.height == 0 && trunk.data_type != TransactionType::HashOnly && trunk.hash.0@
            != Seq::new(32, |i: int| 0u8)),
{
    trunk.height == 0 && trunk.data_type != TransactionType::HashOnly && !trunk.hash.is_null()
}

/// What the way back up the trunk chain does with a transaction, given its trunk.
#[derive(Copy, Clone, Debug, PartialEq, Eq, Structural)]
pub enum HeightStep {
    /// Store the transaction with this height.
    SetHeight(u64),
    /// Its height is right already.
    Keep,
    /// Stop giving heights.
    Stop,
}

/// The height of a transaction from that of its trunk: one above the null hash,
/// one more than a trunk known in full when the transaction has no height yet;
/// otherwise the walk stops.
pub fn height_step(trunk: &TransactionObject, transaction: &TransactionObject) -> (r: HeightStep)
    requires
        trunk.height < u64::MAX,
    ensures
        ({
            let null = Seq::new(32, |i: int| 0u8);
            if trunk.hash.0@ == null && trunk.height == 0 && transaction.hash.0@ != null {
                r == if transaction.height != 1 { HeightStep::SetHeight(1) } else { HeightStep::Keep }
            } else if trunk.data_type != TransactionType::HashOnly && transaction.height == 0 {
                r == if transaction.height != trunk.height + 1 {
                    HeightStep::SetHeight((trunk.height + 1) as u64)
                } else {
                    HeightStep::Keep
                }
            } else {
                r == HeightStep::Stop
            }
        }),
{
    if trunk.hash.is_null() && trunk.height == 0 && !transaction.hash.is_null() {
        if transaction.height != 1 {
            HeightStep::SetHeight(1)
        } else {
            HeightStep::Keep
        }
    } else if trunk.data_type != TransactionType::HashOnly && transaction.height == 0 {
        let new_height = 1 + trunk.height;
        if transaction.height != new_height {
            HeightStep::SetHeight(new_height)
        } else {
            HeightStep::Keep
        }
    } else {
        HeightStep::Stop
    }
}

} // verus!
