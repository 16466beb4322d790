use vstd::prelude::*;
use std::collections::HashMap;
use vstd::string::StringSliceAdditionalSpecFns;

verus! {

broadcast use vstd::std_specs::hash::group_hash_axioms;

/// Port of the node when nothing else is configured.
pub const PORT: u16 = 44832;

/// The settings of a node.
#[derive(Debug, Copy, Clone, PartialEq, Eq, Structural)]
pub enum ConfigurationSettings {
    Config,
    Port,
    ApiHost,
    UdpReceiverPort,
    TcpReceiverPort,
    TestNet,
    Debug,
    RemoteLimitApi,
    RemoteAuth,
    Neighbors,
    DBPath,
    DBCacheSize,
    PRemoveRequest,
    PDropTransaction,
    PSelectMilestoneChild,
    PSendMilestone,
    PReplyRandomTip,
    PPropagateRequest,
    MainDB,
    SendLimit,
    MaxPeers,
    DNSResolutionEnabled,
    DNSRefresherEnabled,
    Coordinator,
    Revalidate,
    RescanDB,
    MinRandomWalks,
    MaxRandomWalks,
    MaxFindTransactions,
    MaxRequestsList,
    MaxBodyLength,
    MaxDepth,
    MainNetMWM,
    TestNetMWM,
    QSizeNode,
    PDropCacheEntry,
    CacheSizeBytes,
}

/// The position of a setting in the list of settings, which keys its value.
pub open spec fn spec_setting_index(s: ConfigurationSettings) -> u8 {
    match s {
        ConfigurationSettings::Config => 0,
        ConfigurationSettings::Port => 1,
        ConfigurationSettings::ApiHost => 2,
        ConfigurationSettings::UdpReceiverPort => 3,
        ConfigurationSettings::TcpReceiverPort => 4,
        ConfigurationSettings::TestNet => 5,
        ConfigurationSettings::Debug => 6,
        ConfigurationSettings::RemoteLimitApi => 7,
        ConfigurationSettings::RemoteAuth => 8,
        ConfigurationSettings::Neighbors => 9,
        ConfigurationSettings::DBPath => 10,
        ConfigurationSettings::DBCacheSize => 11,
        ConfigurationSettings::PRemoveRequest => 12,
        ConfigurationSettings::PDropTransaction => 13,
        ConfigurationSettings::PSelectMilestoneChild => 14,
        ConfigurationSettings::PSendMilestone => 15,
        ConfigurationSettings::PReplyRandomTip => 16,
        ConfigurationSettings::PPropagateRequest => 17,
        ConfigurationSettings::MainDB => 18,
        ConfigurationSettings::SendLimit => 19,
        ConfigurationSettings::MaxPeers => 20,
        ConfigurationSettings::DNSResolutionEnabled => 21,
        ConfigurationSettings::DNSRefresherEnabled => 22,
        ConfigurationSettings::Coordinator => 23,
        ConfigurationSettings::Revalidate => 24,
        ConfigurationSettings::RescanDB => 25,
        ConfigurationSettings::MinRandomWalks => 26,
        ConfigurationSettings::MaxRandomWalks => 27,
        ConfigurationSettings::MaxFindTransactions => 28,
        ConfigurationSettings::MaxRequestsList => 29,
        ConfigurationSettings::MaxBodyLength => 30,
        ConfigurationSettings::MaxDepth => 31,
        ConfigurationSettings::MainNetMWM => 32,
        ConfigurationSettings::TestNetMWM => 33,
        ConfigurationSettings::QSizeNode => 34,
        ConfigurationSettings::PDropCacheEntry => 35,
        ConfigurationSettings::CacheSizeBytes => 36,
    }
}

impl ConfigurationSettings {
    /// The position of the setting in the list of settings.
    pub fn index(self) -> (r: u8)
        ensures
            r == spec_setting_index(self),
    {
        match self {
            ConfigurationSettings::Config => 0,
            ConfigurationSettings::Port => 1,
            ConfigurationSettings::ApiHost => 2,
            ConfigurationSettings::UdpReceiverPort => 3,
            ConfigurationSettings::TcpReceiverPort => 4,
            ConfigurationSettings::TestNet => 5,
            ConfigurationSettings::Debug => 6,
            ConfigurationSettings::RemoteLimitApi => 7,
            ConfigurationSettings::RemoteAuth => 8,
            ConfigurationSettings::Neighbors => 9,
            ConfigurationSettings::DBPath => 10,
            ConfigurationSettings::DBCacheSize => 11,
            ConfigurationSettings::PRemoveRequest => 12,
            ConfigurationSettings::PDropTransaction => 13,
            ConfigurationSettings::PSelectMilestoneChild => 14,
            ConfigurationSettings::PSendMilestone => 15,
            ConfigurationSettings::PReplyRandomTip => 16,
            ConfigurationSettings::PPropagateRequest => 17,
            ConfigurationSettings::MainDB => 18,
            ConfigurationSettings::SendLimit => 19,
            ConfigurationSettings::MaxPeers => 20,
            ConfigurationSettings::DNSResolutionEnabled => 21,
            ConfigurationSettings::DNSRefresherEnabled => 22,
            ConfigurationSettings::Coordinator => 23,
            ConfigurationSettings::Revalidate => 24,
            ConfigurationSettings::RescanDB => 25,
            ConfigurationSettings::MinRandomWalks => 26,
            ConfigurationSettings::MaxRandomWalks => 27,
            ConfigurationSettings::MaxFindTransactions => 28,
            ConfigurationSettings::MaxRequestsList => 29,
            ConfigurationSettings::MaxBodyLength => 30,
            ConfigurationSettings::MaxDepth => 31,
            ConfigurationSettings::MainNetMWM => 32,
            ConfigurationSettings::TestNetMWM => 33,
            ConfigurationSettings::QSizeNode => 34,
            ConfigurationSettings::PDropCacheEntry => 35,
            ConfigurationSettings::CacheSizeBytes => 36,
        }
    }
}

/// The value of a setting. A fractional value is kept as the bits of its
/// 32-bit float.
#[derive(Clone, Debug)]
pub enum ConfigurationValue {
    String(String),
    Int(i32),
    Float(u32),
    Bool(bool),
}

/// A setting whose text in the configuration file cannot be read as the kind of
/// value the setting holds.
#[derive(Copy, Clone, Debug, PartialEq, Eq, Structural)]
pub enum ConfigError {
    InvalidParam(ConfigurationSettings),
}

/// The value of a decimal digit.
pub open spec fn digits_value(s: Seq<u8>) -> int
    decreases s.len(),
{
    if s.len() == 0 {
        0
    } else {
        digits_value(s.drop_last()) * 10 + (s.last() - 48)
    }
}

/// Every byte is an ASCII digit.
pub open spec fn all_digits(s: Seq<u8>) -> bool {
    forall|i: int| 0 <= i < s.len() ==> 48 <= #[trigger] s[i] <= 57
}

/// The `i32` written in decimal: an optional `+` or `-`, then one digit or more,
/// in range.
pub open spec fn spec_parse_i32(s: Seq<u8>) -> Option<i32> {
    let neg = s.len() > 0 && s[0] == 45;
    let body = if s.len() > 0 && (s[0] == 45 || s[0] == 43) {
        s.skip(1)
    } else {
        s
    };
    if body.len() == 0 || !all_digits(body) {
        None
    } else {
        let v = if neg {
            -digits_value(body)
        } else {
            digits_value(body)
        };
        if i32::MIN <= v <= i32::MAX {
            Some(v as i32)
        } else {
            None
        }
    }
}

proof fn lemma_digits_grow(s: Seq<u8>, i: int, j: int)
    requires
        all_digits(s),
        0 <= i <= j <= s.len(),
    ensures
        digits_value(s.take(i)) <= digits_value(s.take(j)),
        0 <= digits_value(s.take(i)),
    decreases j - i,
{
    if i < j {
        lemma_digits_grow(s, i, j - 1);
        assert(s.take(j).drop_last() =~= s.take(j - 1));
        assert(0 <= digits_value(s.take(j - 1)));
    } else {
        lemma_digits_nonneg(s.take(i));
    }
}

proof fn lemma_digits_nonneg(s: Seq<u8>)
    requires
        all_digits(s),
    ensures
        0 <= digits_value(s),
    decreases s.len(),
{
    if s.len() > 0 {
        assert(all_digits(s.drop_last()));
        lemma_digits_nonneg(s.drop_last());
    }
}

/// Reads an `i32` written in decimal, as `str::parse` does.
pub fn parse_i32(text: &str) -> (r: Option<i32>)
    ensures
        r == spec_parse_i32(text.spec_bytes()),
{
    let s = text.as_bytes();
    let ghost sb = s@;
    let n = s.len();
    let neg = n > 0 && s[0] == 45u8;
    let start: usize = if n > 0 && (s[0] == 45u8 || s[0] == 43u8) {
        1
    } else {
        0
    };
    let ghost body = if n > 0 && (sb[0] == 45 || sb[0] == 43) {
        sb.skip(1)
    } else {
        sb
    };
    assert(body =~= sb.subrange(start as int, n as int));
    if start == n {
        return None;
    }
    let mut acc: i64 = 0;
    let mut i: usize = start;
    while i < n
        invariant
            sb == s@,
            n == sb.len(),
            sb == text.spec_bytes(),
            body == (if n > 0 && (sb[0] == 45 || sb[0] == 43) {
                sb.skip(1)
            } else {
                sb
            }),
            neg == (n > 0 && sb[0] == 45),
            start <= i <= n,
            body =~= sb.subrange(start as int, n as int),
            all_digits(body.take(i - start)),
            acc == digits_value(body.take(i - start)),
            0 <= acc <= 2147483648,
        decreases n - i,
    {
        let c = s[i];
        if c < 48u8 || c > 57u8 {
            assert(body[i - start] == c);
            return None;
        }
        proof {
            assert(body.take(i - start + 1).drop_last() =~= body.take(i - start));
            assert(body.take(i - start + 1).last() == c);
        }
        acc = acc * 10 + (c - 48u8) as i64;
        i = i + 1;
        if acc > 2147483648 {
            proof {
                assert forall|k: int| 0 <= k < i - start implies 48 <= #[trigger] body.take(i - start)[k] <= 57 by {
                    if k < i - start - 1 {
                        assert(body.take(i - start)[k] == body.take(i - start - 1)[k]);
                    }
                }
                if all_digits(body) {
                    lemma_digits_grow(body, i - start, body.len() as int);
                    assert(body.take(body.len() as int) =~= body);
                }
            }
            return None;
        }
        proof {
            assert forall|k: int| 0 <= k < i - start implies 48 <= #[trigger] body.take(i - start)[k] <= 57 by {
                if k < i - start - 1 {
                    assert(body.take(i - start)[k] == body.take(i - start - 1)[k]);
                }
            }
        }
    }
    assert(body.take(n - start) =~= body);
    if neg {
        if acc > 2147483648 {
            return None;
        }
        Some((-acc) as i32)
    } else {
        if acc > 2147483647 {
            return None;
        }
        Some(acc as i32)
    }
}

/// Reads `true` or `false`, as `str::parse` does.
pub fn parse_bool(text: &str) -> (r: Option<bool>)
    ensures
        r == (if text.spec_bytes() == seq![116u8, 114, 117, 101] {
            Some(true)
        } else if text.spec_bytes() == seq![102u8, 97, 108, 115, 101] {
            Some(false)
        } else {
            None
        }),
{
    let s = text.as_bytes();
    let t: [u8; 4] = [116, 114, 117, 101];
    let f: [u8; 5] = [102, 97, 108, 115, 101];
    assert(t@ =~= seq![116u8, 114, 117, 101]);
    assert(f@ =~= seq![102u8, 97, 108, 115, 101]);
    if crate::transaction::transaction::bytes_eq(s, t.as_slice()) {
        Some(true)
    } else if crate::transaction::transaction::bytes_eq(s, f.as_slice()) {
        Some(false)
    } else {
        None
    }
}

/// The settings that the configuration file may set, by their key there.
pub open spec fn spec_setting_for_key(key: Seq<u8>) -> Option<ConfigurationSettings> {
    if key == seq![112u8, 111, 114, 116] {
        Some(ConfigurationSettings::Port)
    } else if key == seq![97u8, 112, 105, 95, 104, 111, 115, 116] {
        Some(ConfigurationSettings::ApiHost)
    } else if key == seq![117u8, 100, 112, 95, 112, 111, 114, 116] {
        Some(ConfigurationSettings::UdpReceiverPort)
    } else if key == seq![116u8, 99, 112, 95, 112, 111, 114, 116] {
        Some(ConfigurationSettings::TcpReceiverPort)
    } else if key == seq![100u8, 101, 98, 117, 103] {
        Some(ConfigurationSettings::Debug)
    } else if key == seq![110u8, 101, 105, 103, 104, 98, 111, 114, 115] {
        Some(ConfigurationSettings::Neighbors)
    } else if key == seq![109u8, 97, 120, 95, 112, 101, 101, 114, 115] {
        Some(ConfigurationSettings::MaxPeers)
    } else {
        None
    }
}

/// The setting that a key of the configuration file sets: `port`, `api_host`,
/// `udp_port`, `tcp_port`, `debug`, `neighbors` or `max_peers`.
pub fn setting_for_key(key: &str) -> (r: Option<ConfigurationSettings>)
    ensures
        r == spec_setting_for_key(key.spec_bytes()),
{
    let k = key.as_bytes();
    let port: [u8; 4] = [112, 111, 114, 116];
    let api_host: [u8; 8] = [97, 112, 105, 95, 104, 111, 115, 116];
    let udp_port: [u8; 8] = [117, 100, 112, 95, 112, 111, 114, 116];
    let tcp_port: [u8; 8] = [116, 99, 112, 95, 112, 111, 114, 116];
    let debug: [u8; 5] = [100, 101, 98, 117, 103];
    let neighbors: [u8; 9] = [110, 101, 105, 103, 104, 98, 111, 114, 115];
    let max_peers: [u8; 9] = [109, 97, 120, 95, 112, 101, 101, 114, 115];
    assert(port@ =~= seq![112u8, 111, 114, 116]);
    assert(api_host@ =~= seq![97u8, 112, 105, 95, 104, 111, 115, 116]);
    assert(udp_port@ =~= seq![117u8, 100, 112, 95, 112, 111, 114, 116]);
    assert(tcp_port@ =~= seq![116u8, 99, 112, 95, 112, 111, 114, 116]);
    assert(debug@ =~= seq![100u8, 101, 98, 117, 103]);
    assert(neighbors@ =~= seq![110u8, 101, 105, 103, 104, 98, 111, 114, 115]);
    assert(max_peers@ =~= seq![109u8, 97, 120, 95, 112, 101, 101, 114, 115]);
    if crate::transaction::transaction::bytes_eq(k, port.as_slice()) {
        Some(ConfigurationSettings::Port)
    } else if crate::transaction::transaction::bytes_eq(k, api_host.as_slice()) {
        Some(ConfigurationSettings::ApiHost)
    } else if crate::transaction::transaction::bytes_eq(k, udp_port.as_slice()) {
        Some(ConfigurationSettings::UdpReceiverPort)
    } else if crate::transaction::transaction::bytes_eq(k, tcp_port.as_slice()) {
        Some(ConfigurationSettings::TcpReceiverPort)
    } else if crate::transaction::transaction::bytes_eq(k, debug.as_slice()) {
        Some(ConfigurationSettings::Debug)
    } else if crate::transaction::transaction::bytes_eq(k, neighbors.as_slice()) {
        Some(ConfigurationSettings::Neighbors)
    } else if crate::transaction::transaction::bytes_eq(k, max_peers.as_slice()) {
        Some(ConfigurationSettings::MaxPeers)
    } else {
        None
    }
}

/// `m` is `before` with the setting at `idx` holding the text `text`.
pub open spec fn holds_string(
    m: Map<u8, ConfigurationValue>,
    before: Map<u8, ConfigurationValue>,
    idx: u8,
    text: Seq<char>,
) -> bool {
    &&& m.dom().contains(idx)
    &&& m[idx] matches ConfigurationValue::String(s) && s@ == text
    &&& m == before.insert(idx, m[idx])
}

/// The characters that `char::is_whitespace` accepts: those with the Unicode
/// property White_Space.
pub open spec fn is_white_space(c: char) -> bool {
    let u = c as u32;
    (9 <= u <= 13) || u == 32 || u == 0x85 || u == 0xA0 || u == 0x1680 || (0x2000 <= u <= 0x200A)
        || u == 0x2028 || u == 0x2029 || u == 0x202F || u == 0x205F || u == 0x3000
}

/// The text without its leading white space.
pub open spec fn trim_start(s: Seq<char>) -> Seq<char>
    decreases s.len(),
{
    if s.len() > 0 && is_white_space(s[0]) {
        trim_start(s.drop_first())
    } else {
        s
    }
}

/// The text without its trailing white space.
pub open spec fn trim_end(s: Seq<char>) -> Seq<char>
    decreases s.len(),
{
    if s.len() > 0 && is_white_space(s.last()) {
        trim_end(s.drop_last())
    } else {
        s
    }
}

/// The text without white space at either end.
pub open spec fn spec_trim(s: Seq<char>) -> Seq<char> {
    trim_end(trim_start(s))
}

/// `str::trim`: the text with leading and trailing white space (as
/// `char::is_whitespace` defines it) removed. Claimed: the result is `spec_trim`
/// of the text, as std documents.
#[verifier::external_body]
fn trim_text(s: &str) -> (r: &str)
    ensures
        r@ == spec_trim(s@),
{
    s.trim()
}

/// The value of a setting in `params`, if it has one.
pub open spec fn setting_value(params: Map<u8, ConfigurationValue>, cs: ConfigurationSettings) -> Option<
    ConfigurationValue,
> {
    if params.contains_key(spec_setting_index(cs)) {
        Some(params[spec_setting_index(cs)])
    } else {
        None
    }
}

/// `after` is `before` with the line `key=value` of the configuration file taken
/// in, and `r` the outcome: a key the file may set gets the value read as the kind
/// its setting holds (refused when it cannot be read so, and for a setting with no
/// value or a fractional one); other keys are ignored.
pub open spec fn param_applied(
    before: Map<u8, ConfigurationValue>,
    after: Map<u8, ConfigurationValue>,
    key: Seq<u8>,
    value: Seq<char>,
    r: Result<(), ConfigError>,
) -> bool {
    let vb = vstd::utf8::encode_utf8(value);
    match spec_setting_for_key(key) {
        None => r is Ok && after == before,
        Some(cs) => match setting_value(before, cs) {
            Some(ConfigurationValue::String(_)) => r is Ok && holds_string(
                after,
                before,
                spec_setting_index(cs),
                value,
            ),
            Some(ConfigurationValue::Int(_)) => match spec_parse_i32(vb) {
                Some(v) => r is Ok && after == before.insert(
                    spec_setting_index(cs),
                    ConfigurationValue::Int(v),
                ),
                None => r == Err::<(), ConfigError>(ConfigError::InvalidParam(cs)) && after == before,
            },
            Some(ConfigurationValue::Bool(_)) => if vb == seq![116u8, 114, 117, 101] {
                r is Ok && after == before.insert(spec_setting_index(cs), ConfigurationValue::Bool(true))
            } else if vb == seq![102u8, 97, 108, 115, 101] {
                r is Ok && after == before.insert(spec_setting_index(cs), ConfigurationValue::Bool(false))
            } else {
                r == Err::<(), ConfigError>(ConfigError::InvalidParam(cs)) && after == before
            },
            _ => r == Err::<(), ConfigError>(ConfigError::InvalidParam(cs)) && after == before,
        },
    }
}

/// The settings of a node, each with a value of its kind.
pub struct Configuration {
    pub params: HashMap<u8, ConfigurationValue>,
}

impl Configuration {
    /// The value of a setting, if it has one.
    pub open spec fn value_of(&self, param: ConfigurationSettings) -> Option<ConfigurationValue> {
        if self.params@.contains_key(spec_setting_index(param)) {
            Some(self.params@[spec_setting_index(param)])
        } else {
            None
        }
    }

    /// No setting.
    pub fn empty() -> (r: Configuration)
        ensures
            r.params@ == Map::<u8, ConfigurationValue>::empty(),
    {
        Configuration { params: HashMap::new() }
    }

    /// Sets a text setting.
    pub fn set_string(&mut self, param: ConfigurationSettings, value: &str)
        ensures
            holds_string(final(self).params@, old(self).params@, spec_setting_index(param), value@),
    {
        let v = value.to_owned();
        let _ = self.params.insert(param.index(), ConfigurationValue::String(v));
        assert(self.params@ =~= old(self).params@.insert(
            spec_setting_index(param),
            self.params@[spec_setting_index(param)],
        ));
    }

    /// Sets a whole-number setting.
    pub fn set_int(&mut self, param: ConfigurationSettings, value: i32)
        ensures
            final(self).params@ == old(self).params@.insert(
                spec_setting_index(param),
                ConfigurationValue::Int(value),
            ),
    {
        let _ = self.params.insert(param.index(), ConfigurationValue::Int(value));
    }

    /// Sets a fractional setting, given as the bits of its 32-bit float.
    pub fn set_float(&mut self, param: ConfigurationSettings, value: u32)
        ensures
            final(self).params@ == old(self).params@.insert(
                spec_setting_index(param),
                ConfigurationValue::Float(value),
            ),
    {
        let _ = self.params.insert(param.index(), ConfigurationValue::Float(value));
    }

    /// Sets a yes-or-no setting.
    pub fn set_bool(&mut self, param: ConfigurationSettings, value: bool)
        ensures
            final(self).params@ == old(self).params@.insert(
                spec_setting_index(param),
                ConfigurationValue::Bool(value),
            ),
    {
        let _ = self.params.insert(param.index(), ConfigurationValue::Bool(value));
    }

    /// The text of a setting; `None` when it has no text value.
    pub fn get_string(&self, param: ConfigurationSettings) -> (r: Option<String>)
        ensures
            r is Some <==> self.value_of(param) matches Some(ConfigurationValue::String(_)),
            r matches Some(s) ==> self.value_of(param) == Some(ConfigurationValue::String(s)),
    {
        match self.params.get(&param.index()) {
            Some(ConfigurationValue::String(v)) => Some(v.clone()),
            _ => None,
        }
    }

    /// The whole number of a setting; `None` when it has no whole-number value.
    pub fn get_int(&self, param: ConfigurationSettings) -> (r: Option<i32>)
        ensures
            r is Some <==> self.value_of(param) matches Some(ConfigurationValue::Int(_)),
            r matches Some(v) ==> self.value_of(param) == Some(ConfigurationValue::Int(v)),
    {
        match self.params.get(&param.index()) {
            Some(ConfigurationValue::Int(v)) => Some(*v),
            _ => None,
        }
    }

    /// The bits of the fractional value of a setting; `None` when it has none.
    pub fn get_float(&self, param: ConfigurationSettings) -> (r: Option<u32>)
        ensures
            r is Some <==> self.value_of(param) matches Some(ConfigurationValue::Float(_)),
            r matches Some(v) ==> self.value_of(param) == Some(ConfigurationValue::Float(v)),
    {
        match self.params.get(&param.index()) {
            Some(ConfigurationValue::Float(v)) => Some(*v),
            _ => None,
        }
    }

    /// The yes-or-no value of a setting; `None` when it has none.
    pub fn get_bool(&self, param: ConfigurationSettings) -> (r: Option<bool>)
        ensures
            r is Some <==> self.value_of(param) matches Some(ConfigurationValue::Bool(_)),
            r matches Some(v) ==> self.value_of(param) == Some(ConfigurationValue::Bool(v)),
    {
        match self.params.get(&param.index()) {
            Some(ConfigurationValue::Bool(v)) => Some(*v),
            _ => None,
        }
    }

    /// Takes in a line `key=value` of the configuration file, the value already
    /// trimmed. A key the file may set gets the value read as the kind its setting
    /// holds; a value that cannot be read so is refused. Other keys are ignored.
    pub fn apply_param(&mut self, key: &str, value: &str) -> (r: Result<(), ConfigError>)
        ensures
            param_applied(old(self).params@, final(self).params@, key.spec_bytes(), value@, r),
    {
        let cs = match setting_for_key(key) {
            Some(cs) => cs,
            None => return Ok(()),
        };
        let kind: u8 = match self.params.get(&cs.index()) {
            Some(ConfigurationValue::String(_)) => 0,
            Some(ConfigurationValue::Int(_)) => 1,
            Some(ConfigurationValue::Bool(_)) => 2,
            _ => 3,
        };
        if kind == 0 {
            self.set_string(cs, value);
            Ok(())
        } else if kind == 1 {
            match parse_i32(value) {
                Some(v) => {
                    self.set_int(cs, v);
                    Ok(())
                },
                None => Err(ConfigError::InvalidParam(cs)),
            }
        } else if kind == 2 {
            match parse_bool(value) {
                Some(b) => {
                    self.set_bool(cs, b);
                    Ok(())
                },
                None => Err(ConfigError::InvalidParam(cs)),
            }
        } else {
            Err(ConfigError::InvalidParam(cs))
        }
    }

    /// Takes in a line of the configuration file: the text before its first `=` is
    /// the key, the text after it, with white space trimmed from both ends, the
    /// value. A line without `=` changes nothing.
    pub fn apply_line(&mut self, line: &str) -> (r: Result<(), ConfigError>)
        ensures
            match crate::storage::snapshot_file::first_index(line.spec_bytes(), 61) {
                None => r is Ok && final(self).params@ == old(self).params@,
                Some(i) => param_applied(
                    old(self).params@,
                    final(self).params@,
                    line.spec_bytes().take(i),
                    spec_trim(vstd::utf8::decode_utf8(line.spec_bytes().skip(i + 1))),
                    r,
                ),
            },
    {
        let bytes = line.as_bytes();
        let i = match crate::storage::snapshot_file::find_byte(bytes, 61u8) {
            Some(i) => i,
            None => return Ok(()),
        };
        let ghost lb = line.spec_bytes();
        proof {
            vstd::utf8::encode_utf8_valid_utf8(line@);
            vstd::utf8::is_char_boundary_iff_not_is_continuation_byte(lb, i as int);
        }
        let (key, rest) = line.split_at(i);
        proof {
            vstd::utf8::valid_utf8_split(lb, i as int);
            let rb = rest.spec_bytes();
            assert(rb =~= lb.subrange(i as int, lb.len() as int));
            assert(vstd::utf8::valid_utf8(rb));
            assert(rb[0] == 61);
            reveal_with_fuel(vstd::utf8::is_char_boundary, 2);
            assert(vstd::utf8::is_char_boundary(rb, 1));
        }
        let (_, value) = rest.split_at(1);
        proof {
            let rb = rest.spec_bytes();
            let vb = value.spec_bytes();
            assert(vb =~= lb.skip(i + 1));
            vstd::utf8::encode_utf8_decode_utf8(value@);
            assert(key.spec_bytes() =~= lb.take(i as int));
        }
        let trimmed = trim_text(value);
        self.apply_param(key, trimmed)
    }

    /// The settings a node starts from, before its configuration file.
    pub fn defaults() -> (r: Configuration)
        ensures
            r.value_of(ConfigurationSettings::Port) == Some(ConfigurationValue::Int(44832)),
            r.value_of(ConfigurationSettings::UdpReceiverPort) == Some(
                ConfigurationValue::Int(14600),
            ),
            r.value_of(ConfigurationSettings::TcpReceiverPort) == Some(
                ConfigurationValue::Int(15600),
            ),
            r.value_of(ConfigurationSettings::TestNet) == Some(ConfigurationValue::Bool(false)),
            r.value_of(ConfigurationSettings::Debug) == Some(ConfigurationValue::Bool(false)),
            r.value_of(ConfigurationSettings::DBCacheSize) == Some(ConfigurationValue::Int(100000)),
            r.value_of(ConfigurationSettings::PRemoveRequest) == Some(
                ConfigurationValue::Float(0x3c23d70a),
            ),
            r.value_of(ConfigurationSettings::PDropTransaction) == Some(
                ConfigurationValue::Float(0),
            ),
            r.value_of(ConfigurationSettings::PSelectMilestoneChild) == Some(
                ConfigurationValue::Float(0x3f333333),
            ),
            r.value_of(ConfigurationSettings::PSendMilestone) == Some(
                ConfigurationValue::Float(0x3ca3d70a),
            ),
            r.value_of(ConfigurationSettings::PReplyRandomTip) == Some(
                ConfigurationValue::Float(0x3f28f5c3),
            ),
            r.value_of(ConfigurationSettings::PPropagateRequest) == Some(
                ConfigurationValue::Float(0x3c23d70a),
            ),
            r.value_of(ConfigurationSettings::SendLimit) == Some(
                ConfigurationValue::Float(0xbf800000),
            ),
            r.value_of(ConfigurationSettings::MaxPeers) == Some(ConfigurationValue::Int(5)),
            r.value_of(ConfigurationSettings::DNSRefresherEnabled) == Some(
                ConfigurationValue::Bool(true),
            ),
            r.value_of(ConfigurationSettings::DNSResolutionEnabled) == Some(
                ConfigurationValue::Bool(true),
            ),
            r.value_of(ConfigurationSettings::Revalidate) == Some(ConfigurationValue::Bool(false)),
            r.value_of(ConfigurationSettings::RescanDB) == Some(ConfigurationValue::Bool(false)),
            r.value_of(ConfigurationSettings::MainNetMWM) == Some(ConfigurationValue::Int(8)),
            r.value_of(ConfigurationSettings::TestNetMWM) == Some(ConfigurationValue::Int(7)),
            r.value_of(ConfigurationSettings::MinRandomWalks) == Some(ConfigurationValue::Int(5)),
            r.value_of(ConfigurationSettings::MaxRandomWalks) == Some(ConfigurationValue::Int(27)),
            r.value_of(ConfigurationSettings::MaxDepth) == Some(ConfigurationValue::Int(15)),
            r.value_of(ConfigurationSettings::MaxFindTransactions) == Some(
                ConfigurationValue::Int(100000),
            ),
            r.value_of(ConfigurationSettings::MaxRequestsList) == Some(
                ConfigurationValue::Int(1000),
            ),
            r.value_of(ConfigurationSettings::MaxBodyLength) == Some(
                ConfigurationValue::Int(1000000),
            ),
            r.value_of(ConfigurationSettings::QSizeNode) == Some(ConfigurationValue::Int(1000)),
            r.value_of(ConfigurationSettings::PDropCacheEntry) == Some(
                ConfigurationValue::Float(0x3ca3d70a),
            ),
            r.value_of(ConfigurationSettings::CacheSizeBytes) == Some(
                ConfigurationValue::Int(15000),
            ),
            r.value_of(ConfigurationSettings::ApiHost) matches Some(ConfigurationValue::String(s))
                && s@ == "localhost"@,
            r.value_of(ConfigurationSettings::Config) matches Some(ConfigurationValue::String(s))
                && s@ == "config.ini"@,
            r.value_of(ConfigurationSettings::DBPath) matches Some(ConfigurationValue::String(s))
                && s@ == "data"@,
            r.value_of(ConfigurationSettings::MainDB) matches Some(ConfigurationValue::String(s))
                && s@ == "rocksdb"@,
            r.value_of(ConfigurationSettings::RemoteLimitApi) matches Some(
                ConfigurationValue::String(s),
            ) && s@ == ""@,
            r.value_of(ConfigurationSettings::RemoteAuth) matches Some(
                ConfigurationValue::String(s),
            ) && s@ == ""@,
            r.value_of(ConfigurationSettings::Neighbors) matches Some(ConfigurationValue::String(s))
                && s@ == ""@,
            r.value_of(ConfigurationSettings::Coordinator) is None,
    {
        let mut config = Configuration::empty();
        config.set_int(ConfigurationSettings::Port, 44832);
        config.set_string(ConfigurationSettings::ApiHost, "localhost");
        config.set_int(ConfigurationSettings::UdpReceiverPort, 14600);
        config.set_int(ConfigurationSettings::TcpReceiverPort, 15600);
        config.set_bool(ConfigurationSettings::TestNet, false);
        config.set_bool(ConfigurationSettings::Debug, false);
        config.set_string(ConfigurationSettings::RemoteLimitApi, "");
        config.set_string(ConfigurationSettings::RemoteAuth, "");
        config.set_string(ConfigurationSettings::Neighbors, "");
        config.set_string(ConfigurationSettings::DBPath, "data");
        config.set_int(ConfigurationSettings::DBCacheSize, 100000);
        config.set_string(ConfigurationSettings::Config, "config.ini");
        config.set_float(ConfigurationSettings::PRemoveRequest, 0x3c23d70a);
        config.set_float(ConfigurationSettings::PDropTransaction, 0);
        config.set_float(ConfigurationSettings::PSelectMilestoneChild, 0x3f333333);
        config.set_float(ConfigurationSettings::PSendMilestone, 0x3ca3d70a);
        config.set_float(ConfigurationSettings::PReplyRandomTip, 0x3f28f5c3);
        config.set_float(ConfigurationSettings::PPropagateRequest, 0x3c23d70a);
        config.set_string(ConfigurationSettings::MainDB, "rocksdb");
        config.set_float(ConfigurationSettings::SendLimit, 0xbf800000);
        config.set_int(ConfigurationSettings::MaxPeers, 5);
        config.set_bool(ConfigurationSettings::DNSRefresherEnabled, true);
        config.set_bool(ConfigurationSettings::DNSResolutionEnabled, true);
        config.set_bool(ConfigurationSettings::Revalidate, false);
        config.set_bool(ConfigurationSettings::RescanDB, false);
        config.set_int(ConfigurationSettings::MainNetMWM, 8);
        config.set_int(ConfigurationSettings::TestNetMWM, 7);
        config.set_int(ConfigurationSettings::MinRandomWalks, 5);
        config.set_int(ConfigurationSettings::MaxRandomWalks, 27);
        config.set_int(ConfigurationSettings::MaxDepth, 15);
        config.set_int(ConfigurationSettings::MaxFindTransactions, 100000);
        config.set_int(ConfigurationSettings::MaxRequestsList, 1000);
        config.set_int(ConfigurationSettings::MaxBodyLength, 1000000);
        config.set_int(ConfigurationSettings::QSizeNode, 1000);
        config.set_float(ConfigurationSettings::PDropCacheEntry, 0x3ca3d70a);
        config.set_int(ConfigurationSettings::CacheSizeBytes, 15000);
        config
    }
}

} // verus!
