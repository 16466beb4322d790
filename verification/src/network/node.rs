use vstd::prelude::*;
use crate::pm::serializable::{u32_from_le, u64_from_le, SerializedBuffer};

verus! {

/// Type id of a serialized transaction object.
pub const TRANSACTION_SVUID: u32 = 0x146C22D3;

/// Type id of a transaction request.
pub const REQUEST_TRANSACTION_SVUID: u32 = 0x0a8c76de;

/// Type id of a signed message.
pub const SIGNED_SVUID: u32 = 0xac73d2ff;

/// The fixed header in front of every message a neighbor sends.
#[derive(Clone, Copy, Debug)]
pub struct MessageHeader {
    pub message_id: i64,
    pub message_length: i32,
    pub svuid: u32,
}

/// What a message carries, told by its type id.
#[derive(Clone, Copy, Debug, PartialEq, Eq, Structural)]
pub enum MessageKind {
    Transaction,
    RequestTransaction,
    Signed,
    Unknown,
}

/// The kind of message a type id announces.
pub open spec fn spec_message_kind(svuid: u32) -> MessageKind {
    if svuid == TRANSACTION_SVUID {
        MessageKind::Transaction
    } else if svuid == REQUEST_TRANSACTION_SVUID {
        MessageKind::RequestTransaction
    } else if svuid == SIGNED_SVUID {
        MessageKind::Signed
    } else {
        MessageKind::Unknown
    }
}

/// Tells the kind of a message from its type id.
pub fn classify_svuid(svuid: u32) -> (r: MessageKind)
    ensures
        r == spec_message_kind(svuid),
{
    if svuid == TRANSACTION_SVUID {
        MessageKind::Transaction
    } else if svuid == REQUEST_TRANSACTION_SVUID {
        MessageKind::RequestTransaction
    } else if svuid == SIGNED_SVUID {
        MessageKind::Signed
    } else {
        MessageKind::Unknown
    }
}

/// Reads the message id, the announced length and the type id from the front of
/// a received message, leaving the position at the start of the body.
pub fn read_message_header(data: &mut SerializedBuffer) -> (r: MessageHeader)
    requires
        old(data)@.wf(),
        !old(data)@.calculate,
        old(data)@.fits(16),
    ensures
        r.message_id == u64_from_le(old(data)@.peek(8)) as i64,
        r.message_length == u32_from_le(old(data)@.advance(8).peek(4)) as i32,
        r.svuid == u32_from_le(old(data)@.advance(12).peek(4)),
        final(data)@ == old(data)@.advance(16),
{
    let message_id = match data.read_i64() {
        Ok(v) => v,
        Err(_) => 0,
    };
    let message_length = match data.read_i32() {
        Ok(v) => v,
        Err(_) => 0,
    };
    let svuid = match data.read_u32() {
        Ok(v) => v,
        Err(_) => 0,
    };
    MessageHeader { message_id, message_length, svuid }
}

/// Whether the announced length is more than what is left to read, compared as
/// the 32-bit signed numbers the wire format uses.
pub fn length_exceeds(header: &MessageHeader, remaining: usize) -> (r: bool)
    ensures
        r == (header.message_length > remaining as i32),
{
    header.message_length > remaining as i32
}

/// Where the transaction sent in reply to a request comes from.
#[derive(Clone, Copy, Debug, PartialEq, Eq, Structural)]
pub enum ReplySource {
    /// The transaction that was asked for by hash.
    Requested,
    /// The latest milestone.
    LatestMilestone,
    /// A random solid tip.
    RandomSolidTip,
    /// Nothing is sent.
    Skip,
}

/// Chooses what answers a request. A request for a named hash is answered with
/// that transaction. A request for the null hash is answered only while this node
/// itself has transactions to request and the first draw came up: then with the
/// latest milestone when the second draw came up too, else with a random solid tip.
pub fn reply_source(
    hash_is_null: bool,
    num_to_request: usize,
    request_draw: bool,
    milestone_draw: bool,
) -> (r: ReplySource)
    ensures
        !hash_is_null ==> r == ReplySource::Requested,
        hash_is_null && (num_to_request == 0 || !request_draw) ==> r == ReplySource::Skip,
        hash_is_null && num_to_request > 0 && request_draw && milestone_draw ==> r
            == ReplySource::LatestMilestone,
        hash_is_null && num_to_request > 0 && request_draw && !milestone_draw ==> r
            == ReplySource::RandomSolidTip,
{
    if !hash_is_null {
        ReplySource::Requested
    } else if num_to_request > 0 && request_draw {
        if milestone_draw {
            ReplySource::LatestMilestone
        } else {
            ReplySource::RandomSolidTip
        }
    } else {
        ReplySource::Skip
    }
}

/// What is done with the transaction loaded for a reply.
#[derive(Clone, Copy, Debug, PartialEq, Eq, Structural)]
pub enum ReplyAction {
    /// Send it to the neighbor.
    Send,
    /// It is only a header here: ask the network for it.
    Rerequest,
    /// Do nothing.
    Ignore,
}

/// A full transaction is sent. One that is only known by its header is asked for
/// again when it was requested by a named hash and the draw came up.
pub fn reply_action(is_full: bool, hash_is_null: bool, rerequest_draw: bool) -> (r: ReplyAction)
    ensures
        is_full ==> r == ReplyAction::Send,
        !is_full && !hash_is_null && rerequest_draw ==> r == ReplyAction::Rerequest,
        !is_full && (hash_is_null || !rerequest_draw) ==> r == ReplyAction::Ignore,
{
    if is_full {
        ReplyAction::Send
    } else if !hash_is_null && rerequest_draw {
        ReplyAction::Rerequest
    } else {
        ReplyAction::Ignore
    }
}

} // verus!
