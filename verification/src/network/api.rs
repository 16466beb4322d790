use vstd::prelude::*;
use crate::model::transaction_validator::TransactionError;
use crate::network::rpc::NodeInfo;
use crate::storage::balances::{balance_or_zero, Balances};
use crate::storage::snapshot::Snapshot;
use crate::transaction::transaction::{bytes_eq, hash_null, Address};
use crate::transaction::contract::{json_as_object, json_as_str, json_get, spec_json_get, JsonNumber, JsonValue};
use crate::pm::serializable::string_from_utf8;
use vstd::string::StringSliceAdditionalSpecFns;
use vstd::string::StringExecFns;
use rustc_serialize::json::Json;

verus! {

/// Index of the first milestone.
pub const MILESTONE_START_INDEX: u32 = 0;

/// Fewest random walks a tip selection makes.
pub const MIN_RANDOM_WALKS: u32 = 5;

/// Most random walks a tip selection makes.
pub const MAX_RANDOM_WALKS: u32 = 27;

/// Deepest a tip selection goes.
pub const MAX_DEPTH: u32 = 15;

/// The number of walks a request asks for, raised to the minimum (zero counts as
/// one).
pub fn request_num_walks(num_walks: u32) -> (r: u32)
    ensures
        r == (if num_walks < MIN_RANDOM_WALKS {
            MIN_RANDOM_WALKS
        } else {
            num_walks
        }),
{
    let n = if num_walks == 0 {
        1
    } else {
        num_walks
    };
    if n < MIN_RANDOM_WALKS {
        MIN_RANDOM_WALKS
    } else {
        n
    }
}

/// The number of walks actually made: above the maximum, or zero, it is the
/// maximum.
pub fn bounded_num_walks(num_walks: u32) -> (r: u32)
    ensures
        r == (if num_walks > MAX_RANDOM_WALKS || num_walks == 0 {
            MAX_RANDOM_WALKS
        } else {
            num_walks
        }),
{
    if num_walks > MAX_RANDOM_WALKS || num_walks == 0 {
        MAX_RANDOM_WALKS
    } else {
        num_walks
    }
}

/// The reference transaction of a request: none when it is the null hash.
pub fn request_reference(reference: crate::transaction::transaction::Hash) -> (r: Option<
    crate::transaction::transaction::Hash,
>)
    ensures
        reference.0@ == Seq::new(32, |i: int| 0u8) ==> r is None,
        reference.0@ != Seq::new(32, |i: int| 0u8) ==> r == Some(reference),
{
    let z = hash_null();
    if bytes_eq(reference.0.as_slice(), z.0.as_slice()) {
        None
    } else {
        Some(reference)
    }
}

/// A depth of zero is refused when there is no reference.
pub fn depth_is_invalid(depth: u32, reference: &Option<crate::transaction::transaction::Hash>) -> (r:
    bool)
    ensures
        r == (reference is None && depth == 0),
{
    reference.is_none() && depth == 0
}

/// A reference confirmed in a snapshot older than the latest solid milestone less
/// the depth is too old to select tips from.
pub fn reference_too_old(reference_snapshot: u32, latest_solid_index: u32, depth: u32) -> (r: bool)
    requires
        depth <= latest_solid_index,
    ensures
        r == (reference_snapshot != 0 && reference_snapshot < latest_solid_index - depth),
{
    reference_snapshot != 0 && reference_snapshot < latest_solid_index - depth
}

/// Tips cannot be selected while the latest solid milestone is still the first.
pub fn invalid_subtangle_status(latest_solid_subhive_milestone_index: u32) -> (r: bool)
    ensures
        r == (latest_solid_subhive_milestone_index == MILESTONE_START_INDEX),
{
    latest_solid_subhive_milestone_index == MILESTONE_START_INDEX
}

/// The methods of the node's interface.
#[derive(Copy, Clone, Debug, PartialEq, Eq, Structural)]
pub enum ApiMethod {
    BroadcastTransaction,
    GetTransactionsToApprove,
    GetNodeInfo,
    GetBalances,
    Unknown,
}

/// The method a request names.
pub open spec fn spec_api_method(name: Seq<char>) -> ApiMethod {
    if name == "broadcastTransaction"@ {
        ApiMethod::BroadcastTransaction
    } else if name == "getTransactionsToApprove"@ {
        ApiMethod::GetTransactionsToApprove
    } else if name == "getNodeInfo"@ {
        ApiMethod::GetNodeInfo
    } else if name == "getBalances"@ {
        ApiMethod::GetBalances
    } else {
        ApiMethod::Unknown
    }
}

/// The method a request names.
pub fn api_method(name: &str) -> (r: ApiMethod)
    ensures
        r == spec_api_method(name@),
{
    let n = name.to_owned();
    if n == "broadcastTransaction".to_owned() {
        ApiMethod::BroadcastTransaction
    } else if n == "getTransactionsToApprove".to_owned() {
        ApiMethod::GetTransactionsToApprove
    } else if n == "getNodeInfo".to_owned() {
        ApiMethod::GetNodeInfo
    } else if n == "getBalances".to_owned() {
        ApiMethod::GetBalances
    } else {
        ApiMethod::Unknown
    }
}

/// What the node says of itself.
pub fn node_info() -> (r: NodeInfo)
    ensures
        r.name@ == "PMNC 0.1"@,
{
    NodeInfo { name: "PMNC 0.1".to_owned() }
}

/// A balance threshold is a percentage from one to a hundred.
pub fn threshold_is_valid(threshold: u8) -> (r: bool)
    ensures
        r == (0 < threshold <= 100),
{
    !(threshold <= 0 || threshold > 100)
}

/// The balances of `addresses`: each one's balance in the snapshot (zero where it
/// has none) plus its change in `diff`, as an unsigned number.
pub fn combine_balances(snapshot: &Snapshot, addresses: &[Address], diff: &Balances) -> (r: Vec<u64>)
    requires
        snapshot.state.wf(),
        diff.wf(),
        forall|i: int|
            0 <= i < addresses@.len() ==> i64::MIN <= balance_or_zero(
                snapshot.state@,
                #[trigger] addresses@[i].0@,
            ) + balance_or_zero(diff@, addresses@[i].0@) <= i64::MAX,
    ensures
        r@.len() == addresses@.len(),
        forall|i: int|
            0 <= i < addresses@.len() ==> #[trigger] r@[i] == (balance_or_zero(
                snapshot.state@,
                addresses@[i].0@,
            ) + balance_or_zero(diff@, addresses@[i].0@)) as i64 as u64,
{
    let mut out: Vec<u64> = Vec::new();
    let mut i: usize = 0;
    while i < addresses.len()
        invariant
            i <= addresses@.len(),
            out@.len() == i,
            snapshot.state.wf(),
            diff.wf(),
            forall|j: int|
                0 <= j < addresses@.len() ==> i64::MIN <= balance_or_zero(
                    snapshot.state@,
                    #[trigger] addresses@[j].0@,
                ) + balance_or_zero(diff@, addresses@[j].0@) <= i64::MAX,
            forall|j: int|
                0 <= j < i ==> #[trigger] out@[j] == (balance_or_zero(
                    snapshot.state@,
                    addresses@[j].0@,
                ) + balance_or_zero(diff@, addresses@[j].0@)) as i64 as u64,
        decreases addresses@.len() - i,
    {
        let a = &addresses[i];
        let base: i64 = match snapshot.get_balance(a) {
            Some(v) => v,
            None => 0,
        };
        let value: i64 = match diff.get(a) {
            Some(d) => base + d,
            None => base,
        };
        assert(value == balance_or_zero(snapshot.state@, addresses@[i as int].0@) + balance_or_zero(
            diff@,
            addresses@[i as int].0@,
        ));
        out.push(value as u64);
        i = i + 1;
    }
    out
}

/// The balances of `addresses` for a request with `threshold`: refused with
/// `InvalidData` unless the threshold is from one to a hundred.
pub fn get_balances(snapshot: &Snapshot, addresses: &[Address], diff: &Balances, threshold: u8) -> (r:
    Result<Vec<u64>, TransactionError>)
    requires
        snapshot.state.wf(),
        diff.wf(),
        forall|i: int|
            0 <= i < addresses@.len() ==> i64::MIN <= balance_or_zero(
                snapshot.state@,
                #[trigger] addresses@[i].0@,
            ) + balance_or_zero(diff@, addresses@[i].0@) <= i64::MAX,
    ensures
        r is Err <==> !(0 < threshold <= 100),
        r matches Err(e) ==> e == TransactionError::InvalidData,
        r matches Ok(v) ==> v@.len() == addresses@.len() && forall|i: int|
            0 <= i < addresses@.len() ==> #[trigger] v@[i] == (balance_or_zero(
                snapshot.state@,
                addresses@[i].0@,
            ) + balance_or_zero(diff@, addresses@[i].0@)) as i64 as u64,
{
    if !threshold_is_valid(threshold) {
        return Err(TransactionError::InvalidData);
    }
    Ok(combine_balances(snapshot, addresses, diff))
}

/// The pair of tips a selection ends with: none when either walk ended at the
/// null hash; else the pair when the two together keep the ledger consistent,
/// and `InvalidData` when they do not.
pub fn tips_pair_outcome(
    h0: crate::transaction::transaction::Hash,
    h1: crate::transaction::transaction::Hash,
    consistent: bool,
) -> (r: Result<
    Option<(crate::transaction::transaction::Hash, crate::transaction::transaction::Hash)>,
    TransactionError,
>)
    ensures
        (h0.0@ == Seq::new(32, |i: int| 0u8) || h1.0@ == Seq::new(32, |i: int| 0u8)) ==> r
            == Ok::<Option<(crate::transaction::transaction::Hash, crate::transaction::transaction::Hash)>, TransactionError>(None),
        !(h0.0@ == Seq::new(32, |i: int| 0u8) || h1.0@ == Seq::new(32, |i: int| 0u8)) && consistent ==> r
            == Ok::<Option<(crate::transaction::transaction::Hash, crate::transaction::transaction::Hash)>, TransactionError>(Some((h0, h1))),
        !(h0.0@ == Seq::new(32, |i: int| 0u8) || h1.0@ == Seq::new(32, |i: int| 0u8)) && !consistent ==> r
            == Err::<Option<(crate::transaction::transaction::Hash, crate::transaction::transaction::Hash)>, TransactionError>(TransactionError::InvalidData),
{
    if h0.is_null() || h1.is_null() {
        return Ok(None);
    }
    if consistent {
        Ok(Some((h0, h1)))
    } else {
        Err(TransactionError::InvalidData)
    }
}

/// How the interface answers a request.
pub enum ApiReply {
    /// An error message, sent as `{"error":"<text>"}`.
    Error(String),
    /// The request could not be read: a server error with this text.
    ServerError(String),
    /// The request is well formed and names this method, which runs next.
    Run(ApiMethod),
}

/// `r` is the error message `text`.
pub open spec fn is_error_reply(r: ApiReply, text: Seq<char>) -> bool {
    r matches ApiReply::Error(t) && t@ == text
}

/// `r` is the server error `text`.
pub open spec fn is_server_error(r: ApiReply, text: Seq<char>) -> bool {
    r matches ApiReply::ServerError(t) && t@ == text
}

/// What a parsed request is answered: it must be an object whose member `method`
/// is a string naming a known method.
pub open spec fn request_reply_of(request: JsonValue, r: ApiReply) -> bool {
    match request {
        JsonValue::Object(o) => match spec_json_get(o@, "method"@) {
            None => is_error_reply(r, "No 'method' parameter"@),
            Some(JsonValue::String(m)) => if spec_api_method(m@) == ApiMethod::Unknown {
                is_error_reply(r, "Unknown 'method' parameter"@)
            } else {
                r == ApiReply::Run(spec_api_method(m@))
            },
            Some(_) => is_error_reply(r, "Invalid 'method' parameter"@),
        },
        _ => is_error_reply(r, "Invalid request"@),
    }
}

/// The answer to a parsed request: the method it names, or the error that it
/// is not an object, has no member `method`, names it by something other than a
/// string, or names no known method.
pub fn request_reply(request: &JsonValue) -> (r: ApiReply)
    ensures
        request_reply_of(*request, r),
{
    let o = match json_as_object(request) {
        Some(o) => o,
        None => return ApiReply::Error("Invalid request".to_owned()),
    };
    let m = match json_get(o, "method") {
        Some(v) => match json_as_str(v) {
            Some(m) => m,
            None => return ApiReply::Error("Invalid 'method' parameter".to_owned()),
        },
        None => return ApiReply::Error("No 'method' parameter".to_owned()),
    };
    match api_method(m.as_str()) {
        ApiMethod::Unknown => ApiReply::Error("Unknown 'method' parameter".to_owned()),
        method => ApiReply::Run(method),
    }
}

/// What `rustc_serialize::json::Json::from_str` makes of a text: the JSON value
/// it stands for, or `None` when it is not JSON.
pub uninterp spec fn spec_parse_json(text: Seq<char>) -> Option<JsonValue>;

/// `rustc_serialize::json::Json::from_str`: the text parsed as JSON, `None` on a
/// parse error. Nothing is claimed of which texts parse or what they give beyond
/// that the result is a function of the text.
#[verifier::external_body]
fn parse_json(text: &str) -> (r: Option<JsonValue>)
    ensures
        r == spec_parse_json(text@),
{
    match Json::from_str(text) {
        Ok(j) => Some(json_value_of(&j)),
        Err(_) => None,
    }
}

/// A parsed JSON value of `rustc_serialize`.
#[verifier::external_type_specification]
#[verifier::external_body]
pub struct ExJson(Json);

/// The value of a parsed `rustc_serialize::json::Json`, variant for variant; a
/// float is kept as its bits.
#[verifier::external_body]
fn json_value_of(j: &Json) -> (r: JsonValue) {
    match j {
        Json::I64(n) => JsonValue::Number(JsonNumber::NegInt(*n)),
        Json::U64(n) => JsonValue::Number(JsonNumber::PosInt(*n)),
        Json::F64(x) => JsonValue::Number(JsonNumber::Float(x.to_bits())),
        Json::String(s) => JsonValue::String(s.clone()),
        Json::Boolean(b) => JsonValue::Bool(*b),
        Json::Array(a) => JsonValue::Array(a.iter().map(json_value_of).collect()),
        Json::Object(o) => JsonValue::Object(o.iter().map(|(k, v)| (k.clone(), json_value_of(v))).collect()),
        Json::Null => JsonValue::Null,
    }
}

/// The answer to a request to the interface, given whether it was a POST, whether
/// its content type was JSON, whether it carried the interface version header,
/// and its body: each of the three checks in that order, then the body must be
/// UTF-8 and JSON (else a server error), and then `request_reply_of` decides.
pub fn api_reply(is_post: bool, content_type_is_json: bool, has_version: bool, body: Vec<u8>) -> (r:
    ApiReply)
    ensures
        !is_post ==> is_error_reply(r, "Wrong HTTP method"@),
        is_post && !content_type_is_json ==> is_error_reply(r, "Wrong content-type"@),
        is_post && content_type_is_json && !has_version ==> is_error_reply(r, "Not API request"@),
        is_post && content_type_is_json && has_version ==> if !vstd::utf8::valid_utf8(body@) {
            is_server_error(r, "Invalid UTF-8 string"@)
        } else {
            match spec_parse_json(vstd::utf8::decode_utf8(body@)) {
                None => is_server_error(r, "Invalid JSON"@),
                Some(j) => request_reply_of(j, r),
            }
        },
{
    if !is_post {
        return ApiReply::Error("Wrong HTTP method".to_owned());
    }
    if !content_type_is_json {
        return ApiReply::Error("Wrong content-type".to_owned());
    }
    if !has_version {
        return ApiReply::Error("Not API request".to_owned());
    }
    let text = match string_from_utf8(body) {
        Some(t) => t,
        None => return ApiReply::ServerError("Invalid UTF-8 string".to_owned()),
    };
    match parse_json(text.as_str()) {
        Some(j) => request_reply(&j),
        None => ApiReply::ServerError("Invalid JSON".to_owned()),
    }
}

/// An HTTP answer of the interface: its status code and its body.
pub struct HttpReply {
    pub status: u16,
    pub body: String,
}

/// The body of an error answer: `{"error":"<text>"}` and a line break.
pub open spec fn spec_error_body(text: Seq<char>) -> Seq<char> {
    "{\"error\":\""@ + text + "\"}\n"@
}

/// The answer carrying the error message `err`: status 200 and the body
/// `{"error":"<err>"}` with a line break.
pub fn error_response(err: &str) -> (r: HttpReply)
    ensures
        r.status == 200,
        r.body@ == spec_error_body(err@),
{
    let body = "{\"error\":\"".to_owned().concat(err).concat("\"}\n");
    HttpReply { status: 200, body }
}

/// The body that answers `getNodeInfo`: the node's info encoded as JSON.
pub open spec fn spec_node_info_body() -> Seq<char> {
    "{\"name\":\"PMNC 0.1\"}"@
}

/// The answer to `getNodeInfo`: status 200 and `{"name":"PMNC 0.1"}`.
pub fn node_info_response() -> (r: HttpReply)
    ensures
        r.status == 200,
        r.body@ == spec_node_info_body(),
{
    let info = node_info();
    let body = "{\"name\":\"".to_owned().concat(info.name.as_str()).concat("\"}");
    proof {
        reveal_strlit("PMNC 0.1");
        reveal_strlit("{\"name\":\"");
        reveal_strlit("\"}");
        reveal_strlit("{\"name\":\"PMNC 0.1\"}");
        assert(body@ =~= spec_node_info_body());
    }
    HttpReply { status: 200, body }
}

/// The HTTP answer that a reply stands for, where it needs nothing but the
/// reply: an error message is answered with status 200 and the error body, a
/// request that could not be read with status 500 and the text alone, and
/// `getNodeInfo` with the node's info. The other methods read the node's state,
/// and `None` leaves their answer to whoever holds it.
pub fn render_reply(reply: &ApiReply) -> (r: Option<HttpReply>)
    ensures
        match reply {
            ApiReply::Error(t) => r matches Some(h) && h.status == 200 && h.body@ == spec_error_body(t@),
            ApiReply::ServerError(t) => r matches Some(h) && h.status == 500 && h.body@ == t@,
            ApiReply::Run(ApiMethod::GetNodeInfo) => r matches Some(h) && h.status == 200
                && h.body@ == spec_node_info_body(),
            ApiReply::Run(_) => r is None,
        },
{
    match reply {
        ApiReply::Error(t) => Some(error_response(t.as_str())),
        ApiReply::ServerError(t) => Some(HttpReply { status: 500, body: t.clone() }),
        ApiReply::Run(ApiMethod::GetNodeInfo) => Some(node_info_response()),
        ApiReply::Run(_) => None,
    }
}

} // verus!
