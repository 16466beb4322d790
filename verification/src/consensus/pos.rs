use vstd::prelude::*;
use crate::transaction::transaction::{ecdsa_sign, spec_ecdsa_sign, spec_sha3_256};
use crate::pm::serializable::le_u32;

verus! {

/// Length of the first consensus round, in milliseconds; each later round lasts
/// twice as long as the one before.
pub const ROUND_DURATION_MS: u64 = 50;

/// The validator that proposes in round `round`: the validators take turns.
pub fn round_proposer(round: u32, node_count: usize) -> (r: usize)
    requires
        node_count > 0,
    ensures
        r == round as int % node_count as int,
        r < node_count,
{
    (round as usize) % node_count
}

/// Whether the timeout of round `round` fires at once: the round is already over.
pub fn timeout_is_past(round: u32, current_round: usize) -> (r: bool)
    ensures
        r == (round < current_round),
{
    (round as usize) < current_round
}

/// Two to the power `n`.
pub open spec fn pow2(n: nat) -> nat
    decreases n,
{
    if n == 0 {
        1
    } else {
        2 * pow2((n - 1) as nat)
    }
}

/// Milliseconds a round lasts: the first round's length doubled once per earlier
/// round. Rounds whose length a `Duration` cannot hold are left out.
pub fn round_timeout_ms(round: u32) -> (r: u128)
    requires
        ROUND_DURATION_MS * pow2(round as nat) <= 18_446_744_073_709_551_615_999,
    ensures
        r == ROUND_DURATION_MS * pow2(round as nat),
{
    let mut d: u128 = ROUND_DURATION_MS as u128;
    let mut i: u32 = 0;
    while i < round
        invariant
            i <= round,
            d == ROUND_DURATION_MS * pow2(i as nat),
            ROUND_DURATION_MS * pow2(round as nat) <= 18_446_744_073_709_551_615_999,
        decreases round - i,
    {
        proof {
            lemma_pow2_mono((i + 1) as nat, round as nat);
        }
        d = d * 2;
        i = i + 1;
    }
    d
}

proof fn lemma_pow2_mono(i: nat, j: nat)
    requires
        i <= j,
    ensures
        pow2(i) <= pow2(j),
    decreases j - i,
{
    if i < j {
        lemma_pow2_mono(i, (j - 1) as nat);
    }
}

/// A message of the agreement protocol, with the data it carries as bytes.
#[derive(Clone, Debug)]
pub enum ConsensusMessage {
    /// A proposal in a round, serialized.
    Propose(u32, Vec<u8>),
    /// A vote to prepare the candidate with this digest.
    Prepare(u32, [u8; 32]),
    /// A vote to commit the candidate with this digest.
    Commit(u32, [u8; 32]),
    /// A vote to move to the next round.
    AdvanceRound(u32),
}

/// The bytes a validator signs for a message: the serialized proposal, the
/// digest voted for, or the round number (four bytes, least significant first).
pub open spec fn spec_signing_data(m: ConsensusMessage) -> Seq<u8> {
    match m {
        ConsensusMessage::Propose(_, p) => p@,
        ConsensusMessage::Prepare(_, d) => d@,
        ConsensusMessage::Commit(_, d) => d@,
        ConsensusMessage::AdvanceRound(round) => le_u32(round),
    }
}

/// The bytes a validator signs for a message.
pub fn signing_data(m: &ConsensusMessage) -> (r: Vec<u8>)
    ensures
        r@ == spec_signing_data(*m),
{
    match m {
        ConsensusMessage::Propose(_, p) => p.clone(),
        ConsensusMessage::Prepare(_, d) => vstd::slice::slice_to_vec(d.as_slice()),
        ConsensusMessage::Commit(_, d) => vstd::slice::slice_to_vec(d.as_slice()),
        ConsensusMessage::AdvanceRound(round) => {
            let v = *round;
            let mut b: Vec<u8> = Vec::new();
            b.push(v as u8);
            b.push((v >> 8u32) as u8);
            b.push((v >> 16u32) as u8);
            b.push((v >> 24u32) as u8);
            assert(b@ =~= le_u32(v));
            b
        },
    }
}

/// The digest of data under the signature scheme: SHA3-256.
pub fn calculate_hash(bytes: &[u8]) -> (r: [u8; 32])
    ensures
        r@ == spec_sha3_256(bytes@),
{
    crate::transaction::transaction::Hash::sha3_256(bytes).0
}

/// The number that big-endian bytes stand for.
pub open spec fn be_nat(b: Seq<u8>) -> nat
    decreases b.len(),
{
    if b.len() == 0 {
        0
    } else {
        be_nat(b.drop_last()) * 256 + b.last() as nat
    }
}

/// The order of the secp256k1 group.
pub open spec fn secp256k1_order() -> nat {
    0xFFFF_FFFF_FFFF_FFFF_FFFF_FFFF_FFFF_FFFE_BAAE_DCE6_AF48_A03B_BFD2_5E8C_D036_4141nat
}

/// Leading zero bytes dropped while the byte after them is below 0x80, one byte
/// kept at least.
pub open spec fn der_strip(b: Seq<u8>) -> Seq<u8>
    decreases b.len(),
{
    if b.len() > 1 && b[0] == 0 && b[1] < 0x80 {
        der_strip(b.drop_first())
    } else {
        b
    }
}

/// The DER form of a compact ECDSA signature (`r` then `s`, 32 big-endian bytes
/// each), `None` when either number is not below the group order: a sequence of
/// the two integers, each the 32 bytes with a zero byte in front and then as
/// few leading zeros as keep it non-negative.
pub open spec fn spec_der_of_compact(sig: Seq<u8>) -> Option<Seq<u8>> {
    let r = sig.take(32);
    let s = sig.subrange(32, 64);
    if sig.len() == 64 && be_nat(r) < secp256k1_order() && be_nat(s) < secp256k1_order() {
        let rd = der_strip(seq![0u8] + r);
        let sd = der_strip(seq![0u8] + s);
        Some(
            seq![0x30u8, (4 + rd.len() + sd.len()) as u8, 0x02u8, rd.len() as u8] + rd + seq![
                0x02u8,
                sd.len() as u8,
            ] + sd,
        )
    } else {
        None
    }
}

/// Reads a compact signature with `secp256k1::ecdsa::Signature::from_compact` and
/// writes it with `serialize_der`. Claimed: the result is `spec_der_of_compact`
/// of the bytes, as libsecp256k1's compact parser (which refuses a number not
/// below the group order) and its DER writer compute it.
#[verifier::external_body]
fn compact_to_der(sig: &[u8; 64]) -> (r: Option<Vec<u8>>)
    ensures
        spec_der_of_compact(sig@) is Some <==> r is Some,
        r matches Some(d) ==> spec_der_of_compact(sig@) == Some(d@),
{
    match secp256k1::ecdsa::Signature::from_compact(sig) {
        Ok(s) => Some(s.serialize_der().to_vec()),
        Err(_) => None,
    }
}

/// The DER form of the ECDSA signature of a 32-byte message under a secret key:
/// `None` when the key is not a valid secret key.
pub open spec fn spec_ecdsa_sign_der(msg: Seq<u8>, sk: Seq<u8>) -> Option<Seq<u8>> {
    match spec_ecdsa_sign(msg, sk) {
        Some(c) => spec_der_of_compact(c),
        None => None,
    }
}

/// A signature in DER form.
#[derive(Clone, Debug, PartialEq, Eq)]
pub struct Secp256k1Signature(pub Vec<u8>);

/// Signing with secp256k1 under one secret key.
pub struct Secp256k1SignatureScheme {
    pub secret_key: [u8; 32],
}

impl Secp256k1SignatureScheme {
    /// The scheme that signs with `sk`.
    pub fn new(sk: [u8; 32]) -> (r: Secp256k1SignatureScheme)
        ensures
            r.secret_key == sk,
    {
        Secp256k1SignatureScheme { secret_key: sk }
    }

    /// The signature of `data`: its digest signed with the scheme's key; `None`
    /// when the key is not a valid secret key.
    pub fn calculate_signature(&self, data: &[u8]) -> (r: Option<Secp256k1Signature>)
        ensures
            spec_ecdsa_sign_der(spec_sha3_256(data@), self.secret_key@) is Some <==> r is Some,
            r matches Some(s) ==> spec_ecdsa_sign_der(spec_sha3_256(data@), self.secret_key@)
                == Some(s.0@),
    {
        let hash = calculate_hash(data);
        let compact = match ecdsa_sign(&hash, &self.secret_key) {
            Some(c) => c,
            None => return None,
        };
        match compact_to_der(&compact) {
            Some(s) => Some(Secp256k1Signature(s)),
            None => None,
        }
    }

    /// The signature of a protocol message: that of the bytes it carries.
    pub fn sign_message(&self, m: &ConsensusMessage) -> (r: Option<Secp256k1Signature>)
        ensures
            spec_ecdsa_sign_der(
                spec_sha3_256(spec_signing_data(*m)),
                self.secret_key@,
            ) is Some <==> r is Some,
            r matches Some(s) ==> spec_ecdsa_sign_der(
                spec_sha3_256(spec_signing_data(*m)),
                self.secret_key@,
            ) == Some(s.0@),
    {
        let data = signing_data(m);
        self.calculate_signature(data.as_slice())
    }
}

} // verus!
