use vstd::prelude::*;
use crate::network::replicator_new::{le_u32_of, short_len};
use crate::pm::serializable::{le_u32, le_u64, zeros};

verus! {

/// Bytes of a message sent to a neighbor with a body of `n` bytes: an 8-byte
/// message id, a 4-byte length, then the body padded with zeros to a multiple of
/// four.
pub open spec fn padded_message_size(n: nat) -> nat {
    if n % 4 == 0 {
        12 + n
    } else {
        (12 + n + (4 - n % 4)) as nat
    }
}

/// A message for a neighbor is a whole number of 4-byte words, and its body is
/// padded by the fewest zero bytes that reach one: the size is a multiple of
/// four, at least the 12 header bytes plus the body, and less than four more.
pub proof fn law_message_whole_words(n: nat)
    ensures
        padded_message_size(n) % 4 == 0,
        12 + n <= padded_message_size(n) < 12 + n + 4,
{
}

/// The size of a message with a body of `message_length` bytes.
pub fn message_size(message_length: u32) -> (r: usize)
    requires
        padded_message_size(message_length as nat) <= usize::MAX,
    ensures
        r == padded_message_size(message_length as nat),
{
    if message_length % 4 == 0 {
        8 + 4 + message_length as usize
    } else {
        let additional = 4 - (message_length % 4) as usize;
        8 + 4 + message_length as usize + additional
    }
}

/// The length prefix in front of a message of `limit` bytes: the number of
/// 4-byte words, as one byte when it is below `0x7f`, else as `0x7f` followed
/// by the number in three bytes, least significant first.
pub open spec fn spec_length_prefix(limit: nat) -> Seq<u8> {
    let p = (limit / 4) as i32;
    if p < 0x7f {
        seq![p as u8]
    } else {
        le_u32((((limit / 4) as u32) << 8u32) | 0x7fu32)
    }
}

/// The length prefix of a message of `limit` bytes.
pub fn length_prefix(limit: usize) -> (r: Vec<u8>)
    ensures
        r@ == spec_length_prefix(limit as nat),
{
    let p: i32 = (limit / 4) as i32;
    let mut out: Vec<u8> = Vec::new();
    if p < 0x7f {
        out.push(p as u8);
    } else {
        let w: u32 = (((limit / 4) as u32) << 8u32) | 0x7fu32;
        out.push(w as u8);
        out.push((w >> 8u32) as u8);
        out.push((w >> 16u32) as u8);
        out.push((w >> 24u32) as u8);
        assert(out@ =~= le_u32(w));
    }
    out
}

/// A message for a neighbor and its length prefix: the message is the id and the
/// length of the body (both little-endian), the body, and zeros up to the padded
/// size; the prefix counts the message's words.
pub fn frame_message(message_id: i64, body: &[u8]) -> (r: (Vec<u8>, Vec<u8>))
    requires
        body@.len() <= u32::MAX,
        padded_message_size(body@.len()) <= usize::MAX,
    ensures
        r.1@ == le_u64(message_id as u64) + le_u32(body@.len() as u32) + body@ + zeros(
            (padded_message_size(body@.len()) - 12 - body@.len()) as nat,
        ),
        r.1@.len() == padded_message_size(body@.len()),
        r.0@ == spec_length_prefix(r.1@.len()),
{
    let message_length: u32 = body.len() as u32;
    let size = message_size(message_length);
    let mut message: Vec<u8> = Vec::new();
    let id: u64 = message_id as u64;
    message.push(id as u8);
    message.push((id >> 8u64) as u8);
    message.push((id >> 16u64) as u8);
    message.push((id >> 24u64) as u8);
    message.push((id >> 32u64) as u8);
    message.push((id >> 40u64) as u8);
    message.push((id >> 48u64) as u8);
    message.push((id >> 56u64) as u8);
    message.push(message_length as u8);
    message.push((message_length >> 8u32) as u8);
    message.push((message_length >> 16u32) as u8);
    message.push((message_length >> 24u32) as u8);
    let ghost header = le_u64(message_id as u64) + le_u32(message_length);
    assert(message@ =~= header);
    let mut i: usize = 0;
    while i < body.len()
        invariant
            i <= body@.len(),
            message@ == header + body@.take(i as int),
        decreases body@.len() - i,
    {
        message.push(body[i]);
        assert(body@.take(i + 1) =~= body@.take(i as int).push(body@[i as int]));
        i = i + 1;
    }
    assert(body@.take(body@.len() as int) =~= body@);
    let ghost padding = (size - 12 - body@.len()) as nat;
    let mut j: usize = 12 + body.len();
    while j < size
        invariant
            12 + body@.len() <= j <= size,
            size == padded_message_size(body@.len()),
            message@ == header + body@ + zeros((j - 12 - body@.len()) as nat),
        decreases size - j,
    {
        message.push(0u8);
        assert(zeros((j + 1 - 12 - body@.len()) as nat) =~= zeros((j - 12 - body@.len()) as nat).push(0u8));
        j = j + 1;
    }
    let prefix = length_prefix(message.len());
    (prefix, message)
}

/// The packet reader reads back the length a prefix gives: a message of whole
/// words, fewer than `2^24` of them, has a prefix whose short form gives its
/// length, or whose long form, read least significant byte first, does.
pub proof fn law_length_prefix_roundtrip(limit: nat)
    requires
        limit % 4 == 0,
        limit / 4 < 0x100_0000,
    ensures
        limit / 4 < 0x7f ==> spec_length_prefix(limit).len() == 1 && spec_length_prefix(limit)[0]
            != 0x7f && short_len(spec_length_prefix(limit)[0]) == limit,
        limit / 4 >= 0x7f ==> spec_length_prefix(limit).len() == 4 && spec_length_prefix(limit)[0]
            == 0x7f && (le_u32_of(spec_length_prefix(limit)) / 0x100) * 4 == limit,
{
    let q: u32 = (limit / 4) as u32;
    assert(q as nat == limit / 4);
    assert((limit / 4) as i32 == q as int);
    if q >= 0x7f {
        let w: u32 = (q << 8u32) | 0x7fu32;
        assert(w as u8 == 0x7f && ((w >> 8u32) as u8) as u32 == q & 0xff && ((w >> 16u32) as u8) as u32
            == (q >> 8u32) & 0xff && ((w >> 24u32) as u8) as u32 == (q >> 16u32) & 0xff) by (bit_vector)
            requires
                w == (q << 8u32) | 0x7fu32,
                q < 0x100_0000,
        ;
        assert(q == (q & 0xff) + ((q >> 8u32) & 0xff) * 256 + ((q >> 16u32) & 0xff) * 65536) by (bit_vector)
            requires
                q < 0x100_0000,
        ;
        let b = spec_length_prefix(limit);
        assert(b == le_u32(w));
        assert(le_u32_of(b) == 0x7f + q * 256);
        assert((0x7f + q * 256) / 0x100 == q) by (nonlinear_arith);
    }
}

} // verus!
