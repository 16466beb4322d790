use paymoncoin::consensus::pos::{
    calculate_hash, round_proposer, round_timeout_ms, signing_data, timeout_is_past, ConsensusMessage,
    Secp256k1SignatureScheme,
};
use paymoncoin::model::transaction_validator::TransactionError;
use paymoncoin::network::api::{
    api_method, bounded_num_walks, depth_is_invalid, get_balances, invalid_subtangle_status,
    node_info, reference_too_old, request_num_walks, request_reference, threshold_is_valid, ApiMethod,
    api_reply, request_reply, ApiReply, error_response, node_info_response, render_reply,
};
use paymoncoin::transaction::contract::JsonValue;
use paymoncoin::network::node::{
    classify_svuid, length_exceeds, read_message_header, reply_action, reply_source, MessageKind,
    ReplyAction, ReplySource,
};
use paymoncoin::network::replicator_new::{read_packet, Bytes, ReadNeed};
use paymoncoin::pm::serializable::SerializedBuffer;
use paymoncoin::storage::balances::Balances;
use paymoncoin::storage::snapshot::Snapshot;
use paymoncoin::transaction::transaction::{hash_null, Address};
use paymoncoin::transaction::transaction as tx;

#[test]
fn walk_counts() {
    assert_eq!(request_num_walks(0), 5);
    assert_eq!(request_num_walks(7), 7);
    assert_eq!(bounded_num_walks(0), 27);
    assert_eq!(bounded_num_walks(40), 27);
    assert_eq!(bounded_num_walks(12), 12);
}

#[test]
fn request_checks() {
    assert_eq!(request_reference(hash_null()), None);
    assert_eq!(request_reference(tx::Hash([1; 32])), Some(tx::Hash([1; 32])));
    assert!(depth_is_invalid(0, &None));
    assert!(!depth_is_invalid(0, &Some(tx::Hash([1; 32]))));
    assert!(reference_too_old(3, 10, 5));
    assert!(!reference_too_old(0, 10, 5));
    assert!(!reference_too_old(5, 10, 5));
    assert!(invalid_subtangle_status(0));
    assert!(!invalid_subtangle_status(1));
    assert!(threshold_is_valid(100));
    assert!(!threshold_is_valid(0));
    assert!(!threshold_is_valid(101));
}

#[test]
fn api_methods() {
    assert_eq!(api_method("getBalances"), ApiMethod::GetBalances);
    assert_eq!(api_method("getNodeInfo"), ApiMethod::GetNodeInfo);
    assert_eq!(api_method("getbalances"), ApiMethod::Unknown);
    assert_eq!(node_info().name, "PMNC 0.1");
}

#[test]
fn balances_of_addresses() {
    let a = Address([1; 21]);
    let b = Address([2; 21]);
    let c = Address([3; 21]);
    let snapshot = Snapshot { state: Balances::from_entries(vec![(a, 100), (b, 5)]).unwrap(), index: 1 };
    let diff = Balances::from_entries(vec![(a, -10), (c, 3)]).unwrap();
    assert_eq!(get_balances(&snapshot, &[a, b, c], &diff, 50), Ok(vec![90, 5, 3]));
    assert_eq!(get_balances(&snapshot, &[a], &diff, 0), Err(TransactionError::InvalidData));
}

#[test]
fn message_headers() {
    let mut bytes = vec![];
    bytes.extend_from_slice(&7i64.to_le_bytes());
    bytes.extend_from_slice(&20i32.to_le_bytes());
    bytes.extend_from_slice(&0x0a8c76deu32.to_le_bytes());
    bytes.extend_from_slice(&[0u8; 4]);
    let mut data = SerializedBuffer::from_slice(&bytes);
    let header = read_message_header(&mut data);
    assert_eq!(header.message_id, 7);
    assert_eq!(header.message_length, 20);
    assert_eq!(header.svuid, 0x0a8c76de);
    assert_eq!(data.position(), 16);
    assert_eq!(classify_svuid(header.svuid), MessageKind::RequestTransaction);
    assert!(length_exceeds(&header, data.remaining()));
    assert!(!length_exceeds(&header, 20));
    assert_eq!(classify_svuid(0x146C22D3), MessageKind::Transaction);
    assert_eq!(classify_svuid(-1401695489i32 as u32), MessageKind::Signed);
    assert_eq!(classify_svuid(1), MessageKind::Unknown);
}

#[test]
fn replies() {
    assert_eq!(reply_source(false, 0, false, false), ReplySource::Requested);
    assert_eq!(reply_source(true, 0, true, true), ReplySource::Skip);
    assert_eq!(reply_source(true, 3, false, true), ReplySource::Skip);
    assert_eq!(reply_source(true, 3, true, true), ReplySource::LatestMilestone);
    assert_eq!(reply_source(true, 3, true, false), ReplySource::RandomSolidTip);
    assert_eq!(reply_action(true, true, false), ReplyAction::Send);
    assert_eq!(reply_action(false, false, true), ReplyAction::Rerequest);
    assert_eq!(reply_action(false, true, true), ReplyAction::Ignore);
    assert_eq!(reply_action(false, false, false), ReplyAction::Ignore);
}

#[test]
fn packet_reader_short_header() {
    let mut r = read_packet(Vec::new());
    assert_eq!(r.next_need(), ReadNeed::FirstByte);
    r.on_first_byte(3);
    assert_eq!(r.next_need(), ReadNeed::Body(12));
    let body = r.on_body(vec![9u8; 12]);
    assert_eq!(body, vec![9u8; 12]);
    assert_eq!(r.next_need(), ReadNeed::Finished);
}

#[test]
fn packet_reader_long_header() {
    let mut r = read_packet(Vec::new());
    r.on_first_byte(0x7f);
    assert_eq!(r.next_need(), ReadNeed::LengthRest);
    r.on_length_rest([1, 0, 0]);
    let n = r.next_need();
    assert!(n == ReadNeed::Body(4) || n == ReadNeed::Body(0x7f0100 * 4));
}

#[test]
fn byte_codec() {
    let mut codec = Bytes;
    let mut input = vec![];
    assert_eq!(codec.decode(&mut input), None);
    let mut input = vec![1, 2, 3];
    assert_eq!(codec.decode(&mut input), Some(vec![1, 2, 3]));
    assert!(input.is_empty());
    let mut out = vec![0];
    codec.encode(vec![4, 5], &mut out);
    assert_eq!(out, vec![0, 4, 5]);
}

#[test]
fn rounds() {
    assert_eq!(round_proposer(10, 4), 2);
    assert_eq!(round_proposer(3, 4), 3);
    assert!(timeout_is_past(2, 3));
    assert!(!timeout_is_past(3, 3));
    assert_eq!(round_timeout_ms(0), 50);
    assert_eq!(round_timeout_ms(3), 400);
}

#[test]
fn consensus_signatures() {
    assert_eq!(signing_data(&ConsensusMessage::AdvanceRound(0x01020304)), vec![4, 3, 2, 1]);
    assert_eq!(signing_data(&ConsensusMessage::Prepare(1, [7; 32])), vec![7u8; 32]);
    assert_eq!(calculate_hash(b""), tx::Hash::sha3_256(b"").0);
    let mut sk = [0u8; 32];
    sk[31] = 5;
    let scheme = Secp256k1SignatureScheme::new(sk);
    let m = ConsensusMessage::Commit(2, [3; 32]);
    let s1 = scheme.sign_message(&m).unwrap();
    let s2 = scheme.calculate_signature(&[3u8; 32]).unwrap();
    assert_eq!(s1, s2);
    assert_eq!(s1.0[0], 0x30);
    assert!(Secp256k1SignatureScheme::new([0u8; 32]).sign_message(&m).is_none());
}

#[test]
fn neighbor_frames() {
    let (prefix, message) = paymoncoin::network::neighbor::frame_message(7, &[1, 2, 3]);
    assert_eq!(message, vec![7, 0, 0, 0, 0, 0, 0, 0, 3, 0, 0, 0, 1, 2, 3, 0]);
    assert_eq!(prefix, vec![4]);
    assert_eq!(paymoncoin::network::neighbor::message_size(8), 20);
    assert_eq!(paymoncoin::network::neighbor::length_prefix(800), vec![0x7f, 200, 0, 0]);
    let mut r = read_packet(Vec::new());
    r.on_first_byte(0x7f);
    r.on_length_rest([200, 0, 0]);
    let n = r.next_need();
    assert!(n == ReadNeed::Body(800) || n == ReadNeed::Body(0x7fc80000 / 0x100 * 4));
}

fn error_text(r: &ApiReply) -> Option<String> {
    match r {
        ApiReply::Error(t) => Some(t.clone()),
        _ => None,
    }
}

fn server_error_text(r: &ApiReply) -> Option<String> {
    match r {
        ApiReply::ServerError(t) => Some(t.clone()),
        _ => None,
    }
}

fn post(body: &str) -> ApiReply {
    api_reply(true, true, true, body.as_bytes().to_vec())
}

#[test]
fn api_reply_header_checks() {
    let body = br#"{"method":"getNodeInfo"}"#.to_vec();
    assert_eq!(error_text(&api_reply(false, true, true, body.clone())).as_deref(), Some("Wrong HTTP method"));
    assert_eq!(error_text(&api_reply(true, false, true, body.clone())).as_deref(), Some("Wrong content-type"));
    assert_eq!(error_text(&api_reply(true, true, false, body.clone())).as_deref(), Some("Not API request"));
    assert!(matches!(api_reply(true, true, true, body), ApiReply::Run(ApiMethod::GetNodeInfo)));
}

#[test]
fn api_reply_body_checks() {
    assert_eq!(
        server_error_text(&api_reply(true, true, true, vec![0xff, 0xfe])).as_deref(),
        Some("Invalid UTF-8 string")
    );
    assert_eq!(server_error_text(&post("{not json")).as_deref(), Some("Invalid JSON"));
    assert_eq!(error_text(&post("[1, 2]")).as_deref(), Some("Invalid request"));
    assert_eq!(error_text(&post(r#"{"object": 1}"#)).as_deref(), Some("No 'method' parameter"));
    assert_eq!(error_text(&post(r#"{"method": 7}"#)).as_deref(), Some("Invalid 'method' parameter"));
    assert_eq!(error_text(&post(r#"{"method": "getTips"}"#)).as_deref(), Some("Unknown 'method' parameter"));
}

#[test]
fn api_reply_dispatch() {
    assert!(matches!(post(r#"{"method":"getBalances","addresses":[],"threshold":100}"#), ApiReply::Run(ApiMethod::GetBalances)));
    assert!(matches!(post(r#"{"method":"broadcastTransaction"}"#), ApiReply::Run(ApiMethod::BroadcastTransaction)));
    assert!(matches!(post(r#"{"depth":3,"method":"getTransactionsToApprove"}"#), ApiReply::Run(ApiMethod::GetTransactionsToApprove)));
}

#[test]
fn request_reply_on_values() {
    let ok = JsonValue::Object(vec![("method".to_string(), JsonValue::String("getNodeInfo".to_string()))]);
    assert!(matches!(request_reply(&ok), ApiReply::Run(ApiMethod::GetNodeInfo)));
    assert_eq!(error_text(&request_reply(&JsonValue::Null)).as_deref(), Some("Invalid request"));
    let bad = JsonValue::Object(vec![("method".to_string(), JsonValue::Bool(true))]);
    assert_eq!(error_text(&request_reply(&bad)).as_deref(), Some("Invalid 'method' parameter"));
}

fn der_int_ok(b: &[u8]) -> bool {
    // at least one byte, non-negative, and no leading zero that could go
    !b.is_empty() && b[0] < 0x80 && !(b.len() > 1 && b[0] == 0 && b[1] < 0x80)
}

#[test]
fn signatures_are_minimal_der() {
    for k in 1u8..6 {
        let mut sk = [0u8; 32];
        sk[31] = k;
        let s = Secp256k1SignatureScheme::new(sk).calculate_signature(&[k; 32]).unwrap().0;
        assert_eq!(s[0], 0x30);
        assert_eq!(s[1] as usize, s.len() - 2);
        assert_eq!(s[2], 0x02);
        let rl = s[3] as usize;
        assert!(der_int_ok(&s[4..4 + rl]));
        assert_eq!(s[4 + rl], 0x02);
        let sl = s[5 + rl] as usize;
        assert_eq!(6 + rl + sl, s.len());
        assert!(der_int_ok(&s[6 + rl..]));
    }
}

#[test]
fn replies_render_to_status_and_body() {
    let e = error_response("Wrong HTTP method");
    assert_eq!(e.status, 200);
    assert_eq!(e.body, "{\"error\":\"Wrong HTTP method\"}\n");
    let r = render_reply(&api_reply(false, true, true, b"{}".to_vec())).unwrap();
    assert_eq!((r.status, r.body.as_str()), (200, "{\"error\":\"Wrong HTTP method\"}\n"));
    let r = render_reply(&post("{oops")).unwrap();
    assert_eq!((r.status, r.body.as_str()), (500, "Invalid JSON"));
    let r = render_reply(&post(r#"{"method":"getNodeInfo"}"#)).unwrap();
    assert_eq!((r.status, r.body.as_str()), (200, "{\"name\":\"PMNC 0.1\"}"));
    assert_eq!(node_info_response().body, "{\"name\":\"PMNC 0.1\"}");
    assert!(render_reply(&post(r#"{"method":"getBalances"}"#)).is_none());
}
