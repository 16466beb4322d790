use vstd::prelude::*;
use vstd::string::StringSliceAdditionalSpecFns;
use crate::storage::keyed::KeyedList;
use crate::transaction::decimal::{law_decimal_roundtrip, parse_u64, spec_decimal, spec_parse_u64, text_bytes, u64_to_decimal};
use crate::transaction::transaction::{spec_address_from_text, spec_sha3_256, Account, Address};

verus! {

/// The address of a contract.
pub type ContractAddress = Address;

/// Why a contract operation failed.
#[derive(Clone, Debug)]
pub enum Error {
    JsonParse(String),
    UnknownStorageKey,
    Unknown(String),
    UnknownContractType,
    UnknownContract,
    Overflow,
    KeyExists,
    KeyDoesntExist,
}

/// A JSON number: a non-negative integer, a negative one, or the bits of a
/// 64-bit float.
#[derive(Clone, Debug)]
pub enum JsonNumber {
    PosInt(u64),
    NegInt(i64),
    Float(u64),
}

/// A JSON value; an object keeps its members in order.
#[derive(Debug)]
pub enum JsonValue {
    Null,
    Bool(bool),
    Number(JsonNumber),
    String(String),
    Array(Vec<JsonValue>),
    Object(Vec<(String, JsonValue)>),
}

/// The member `key` of an object: its first member of that name.
pub open spec fn spec_json_get(obj: Seq<(String, JsonValue)>, key: Seq<char>) -> Option<JsonValue>
    decreases obj.len(),
{
    if obj.len() == 0 {
        None
    } else if obj[0].0@ == key {
        Some(obj[0].1)
    } else {
        spec_json_get(obj.drop_first(), key)
    }
}

/// The member `key` of an object.
pub fn json_get<'a>(obj: &'a Vec<(String, JsonValue)>, key: &str) -> (r: Option<&'a JsonValue>)
    ensures
        r is Some <==> spec_json_get(obj@, key@) is Some,
        r matches Some(v) ==> spec_json_get(obj@, key@) == Some(*v),
{
    let k = key.to_owned();
    let mut i: usize = 0;
    assert(obj@.skip(0) =~= obj@);
    while i < obj.len()
        invariant
            i <= obj@.len(),
            k@ == key@,
            spec_json_get(obj@, key@) == spec_json_get(obj@.skip(i as int), key@),
        decreases obj@.len() - i,
    {
        if obj[i].0 == k {
            return Some(&obj[i].1);
        }
        assert(obj@.skip(i as int).drop_first() =~= obj@.skip(i + 1));
        i = i + 1;
    }
    None
}

/// The text of a JSON string.
pub fn json_as_str(v: &JsonValue) -> (r: Option<&String>)
    ensures
        r is Some <==> v is String,
        r matches Some(s) ==> *v == JsonValue::String(*s),
{
    match v {
        JsonValue::String(s) => Some(s),
        _ => None,
    }
}

/// The members of a JSON object.
pub fn json_as_object(v: &JsonValue) -> (r: Option<&Vec<(String, JsonValue)>>)
    ensures
        r is Some <==> v is Object,
        r matches Some(o) ==> *v == JsonValue::Object(*o),
{
    match v {
        JsonValue::Object(o) => Some(o),
        _ => None,
    }
}

/// The value of a non-negative integer JSON number.
pub fn json_as_u64(v: &JsonValue) -> (r: Option<u64>)
    ensures
        r is Some <==> v matches JsonValue::Number(JsonNumber::PosInt(_)),
        r matches Some(n) ==> *v == JsonValue::Number(JsonNumber::PosInt(n)),
{
    match v {
        JsonValue::Number(JsonNumber::PosInt(n)) => Some(*n),
        _ => None,
    }
}

/// The text of the member `key` of an object when it is a string.
pub open spec fn spec_json_str(obj: Seq<(String, JsonValue)>, key: Seq<char>) -> Option<String> {
    match spec_json_get(obj, key) {
        Some(JsonValue::String(s)) => Some(s),
        _ => None,
    }
}

/// The first word of a key path, as the pattern `^(\w+)` captures it.
pub uninterp spec fn spec_leading_word(s: Seq<char>) -> Option<Seq<char>>;

/// The words in brackets of a key path, as the pattern `\[\b(\w+)]` captures them.
pub uninterp spec fn spec_bracket_words(s: Seq<char>) -> Seq<Seq<char>>;

/// An ASCII letter, digit or underscore: a character that `\w` matches.
pub open spec fn is_ascii_word_char(c: char) -> bool {
    ('a' <= c && c <= 'z') || ('A' <= c && c <= 'Z') || ('0' <= c && c <= '9') || c == '_'
}

/// A non-empty text of ASCII letters, digits and underscores only.
pub open spec fn is_word_text(s: Seq<char>) -> bool {
    s.len() > 0 && forall|i: int| 0 <= i < s.len() ==> is_ascii_word_char(#[trigger] s[i])
}

/// The first capture of `regex::Regex` `^(\w+)` in `s`. Claimed: it is the result
/// named `spec_leading_word`, a function of the text alone; and, as the pattern
/// reads, on a text made only of characters that `\w` matches the greedy
/// capture from the start is the whole text.
#[verifier::external_body]
fn leading_word(s: &str) -> (r: Option<String>)
    ensures
        r is Some <==> spec_leading_word(s@) is Some,
        r matches Some(w) ==> spec_leading_word(s@) == Some(w@),
        is_word_text(s@) ==> r is Some && r->0@ == s@,
{
    let re = regex::Regex::new(r"^(\w+)").unwrap();
    match re.captures(s) {
        Some(c) => match c.get(1) {
            Some(m) => Some(m.as_str().to_string()),
            None => None,
        },
        None => None,
    }
}

/// Every first capture of `regex::Regex` `\[\b(\w+)]` in `s`, in order. Claimed:
/// they are the result named `spec_bracket_words`, a function of the text alone;
/// and, as every match of the pattern starts with a literal `[`, a text without
/// `[` has none.
#[verifier::external_body]
fn bracket_words(s: &str) -> (r: Vec<String>)
    ensures
        r@.map_values(|w: String| w@) == spec_bracket_words(s@),
        (forall|i: int| 0 <= i < s@.len() ==> s@[i] != '[') ==> r@.len() == 0,
{
    let re = regex::Regex::new(r"\[\b(\w+)]").unwrap();
    let mut out: Vec<String> = Vec::new();
    for cap in re.captures_iter(s) {
        out.push(cap[1].to_string());
    }
    out
}

/// The key of a storage variable: the SHA3-256 digest of its name followed by
/// the keys that index it.
pub struct KeyBuilder {
    bytes: Vec<u8>,
}

impl KeyBuilder {
    /// The bytes hashed so far.
    pub closed spec fn input(&self) -> Seq<u8> {
        self.bytes@
    }

    /// A key for the variable `var_name`.
    pub fn new(var_name: &[u8]) -> (r: KeyBuilder)
        ensures
            r.input() == var_name@,
    {
        KeyBuilder { bytes: vstd::slice::slice_to_vec(var_name) }
    }

    /// The key indexed further by `key`.
    pub fn chain(self, key: &[u8]) -> (r: KeyBuilder)
        ensures
            r.input() == self.input() + key@,
    {
        let mut bytes = self.bytes;
        let mut i: usize = 0;
        let ghost start = bytes@;
        while i < key.len()
            invariant
                i <= key@.len(),
                bytes@ == start + key@.take(i as int),
            decreases key@.len() - i,
        {
            bytes.push(key[i]);
            assert(key@.take(i + 1) =~= key@.take(i as int).push(key@[i as int]));
            i = i + 1;
        }
        assert(key@.take(key@.len() as int) =~= key@);
        KeyBuilder { bytes }
    }

    /// The key: the digest of everything put in.
    pub fn finalize(self) -> (r: crate::transaction::transaction::Hash)
        ensures
            r.0@ == spec_sha3_256(self.input()),
    {
        crate::transaction::transaction::Hash::sha3_256(self.bytes.as_slice())
    }

    /// The key builder for a path `name[key]...`: its first word, then each word
    /// in brackets; `Err` when the path does not start with a word.
    pub fn from_str(s: &str) -> (r: Result<KeyBuilder, ()>)
        ensures
            r is Ok <==> spec_leading_word(s@) is Some,
            r matches Ok(b) ==> b.input() == path_input(
                spec_leading_word(s@)->0,
                spec_bracket_words(s@),
            ),
            is_word_text(s@) ==> (r matches Ok(b) && b.input() == vstd::utf8::encode_utf8(s@)),
    {
        let word = match leading_word(s) {
            Some(w) => w,
            None => return Err(()),
        };
        let mut builder = KeyBuilder::new(word.as_str().as_bytes());
        let words = bracket_words(s);
        let mut i: usize = 0;
        while i < words.len()
            invariant
                i <= words@.len(),
                words@.map_values(|w: String| w@) == spec_bracket_words(s@),
                builder.input() == path_input(
                    word@,
                    spec_bracket_words(s@).take(i as int),
                ),
            decreases words@.len() - i,
        {
            builder = builder.chain(words[i].as_str().as_bytes());
            proof {
                let ws = spec_bracket_words(s@);
                assert(ws.take(i + 1).drop_last() =~= ws.take(i as int));
                assert(ws[i as int] == words@[i as int]@);
            }
            i = i + 1;
        }
        proof {
            let ws = spec_bracket_words(s@);
            assert(ws.take(words@.len() as int) =~= ws);
            if is_word_text(s@) {
                assert forall|i: int| 0 <= i < s@.len() implies s@[i] != '[' by {
                    assert(is_ascii_word_char(s@[i]));
                }
                assert(ws.len() == 0);
            }
        }
        Ok(builder)
    }
}

/// The bytes hashed for a path: the UTF-8 of its first word, then of each word
/// in brackets.
pub open spec fn path_input(word: Seq<char>, words: Seq<Seq<char>>) -> Seq<u8>
    decreases words.len(),
{
    if words.len() == 0 {
        vstd::utf8::encode_utf8(word)
    } else {
        path_input(word, words.drop_last()) + vstd::utf8::encode_utf8(words.last())
    }
}

/// A change to one storage value.
#[derive(Clone, Debug)]
pub enum StorageAction<T> {
    Insert(T),
    Update(T),
    Remove(T),
}

impl<T> StorageAction<T> {
    /// The same kind of change, carrying `f` of the value.
    pub fn map<B, F: FnOnce(T) -> B>(self, f: F) -> (r: StorageAction<B>)
        requires
            call_requires(f, (action_value(self),)),
        ensures
            call_ensures(f, (action_value(self),), action_value(r)),
            self is Insert <==> r is Insert,
            self is Update <==> r is Update,
            self is Remove <==> r is Remove,
    {
        match self {
            StorageAction::Insert(v) => StorageAction::Insert(f(v)),
            StorageAction::Update(v) => StorageAction::Update(f(v)),
            StorageAction::Remove(v) => StorageAction::Remove(f(v)),
        }
    }
}

/// The value a change carries.
pub open spec fn action_value<T>(a: StorageAction<T>) -> T {
    match a {
        StorageAction::Insert(v) => v,
        StorageAction::Update(v) => v,
        StorageAction::Remove(v) => v,
    }
}

impl<T> StorageAction<T> {
    /// The value the change carries.
    pub fn take(self) -> (r: T)
        ensures
            r == (match self {
                StorageAction::Insert(v) => v,
                StorageAction::Update(v) => v,
                StorageAction::Remove(v) => v,
            }),
    {
        match self {
            StorageAction::Insert(v) => v,
            StorageAction::Update(v) => v,
            StorageAction::Remove(v) => v,
        }
    }
}

/// The storage of a contract: values keyed by the digest of their path.
pub struct ContractStorage<T> {
    pub inner: KeyedList<T>,
}

/// The changes a contract call makes to its storage.
pub type StorageDiff = ContractStorage<StorageAction<String>>;

/// The key bytes of the balances variable: `balances`.
pub open spec fn balances_name() -> Seq<u8> {
    seq![98u8, 97, 108, 97, 110, 99, 101, 115]
}

/// The storage key of the balance of `a`.
pub open spec fn balance_key(a: Seq<u8>) -> Seq<u8> {
    spec_sha3_256(balances_name() + a)
}

fn balance_key_of(a: &Address) -> (r: crate::transaction::transaction::Hash)
    ensures
        r.0@ == balance_key(a.0@),
{
    let name: [u8; 8] = [98, 97, 108, 97, 110, 99, 101, 115];
    assert(name@ =~= balances_name());
    KeyBuilder::new(name.as_slice()).chain(a.0.as_slice()).finalize()
}

impl<T> ContractStorage<T> {
    /// Empty storage.
    pub fn new() -> (r: ContractStorage<T>)
        ensures
            r.inner.wf(),
            r.inner@ == Map::<Seq<u8>, T>::empty(),
    {
        ContractStorage { inner: KeyedList::new() }
    }

    /// The value stored under `key`.
    pub fn get(&self, key: &crate::transaction::transaction::Hash) -> (r: Option<&T>)
        requires
            self.inner.wf(),
        ensures
            r is Some <==> self.inner@.dom().contains(key.0@),
            r matches Some(v) ==> self.inner@[key.0@] == *v,
    {
        self.inner.get_ref(key)
    }

    /// Number of values stored.
    pub fn len(&self) -> (r: usize)
        ensures
            r == self.inner.entries_seq().len(),
    {
        self.inner.len()
    }

    /// Stores `value` under the variable named `key`.
    pub fn insert_value(&mut self, key: &[u8], value: T)
        requires
            old(self).inner.wf(),
        ensures
            final(self).inner.wf(),
            final(self).inner@ == old(self).inner@.insert(spec_sha3_256(key@), value),
    {
        let h = KeyBuilder::new(key).finalize();
        self.inner.put(h, value);
    }
}

/// Whether a contract operation went through.
#[derive(Copy, Clone, Debug, PartialEq, Eq, Structural)]
pub enum Status {
    Succeed,
    Failed,
}

/// What a contract operation did.
#[derive(Copy, Clone, Debug, PartialEq, Eq, Structural)]
pub enum Operation {
    Create,
    Call,
    Destroy,
}

/// What a contract operation gives back.
pub struct ContractOutput {
    pub output: JsonValue,
    pub storage_diff: StorageDiff,
    pub balance_diff: isize,
    pub status: Status,
    pub operation: Operation,
}

/// A JSON object of one member.
pub open spec fn is_single_member(v: JsonValue, key: Seq<char>, value: JsonValue) -> bool {
    v matches JsonValue::Object(o) && o@.len() == 1 && o@[0].0@ == key && o@[0].1 == value
}

/// The outcome of reading the balance of `address`: the stored text, or
/// `UnknownStorageKey` when there is none.
pub open spec fn balance_of_result(
    storage: Map<Seq<u8>, String>,
    address: Seq<u8>,
    r: Result<ContractOutput, Error>,
) -> bool {
    if storage.dom().contains(balance_key(address)) {
        r matches Ok(out) && out.status == Status::Succeed && out.operation == Operation::Call
            && out.balance_diff == 0 && out.storage_diff.inner.wf() && out.storage_diff.inner@ == Map::<
            Seq<u8>,
            StorageAction<String>,
        >::empty() && is_single_member(
            out.output,
            "balance"@,
            JsonValue::String(storage[balance_key(address)]),
        )
    } else {
        r matches Err(Error::UnknownStorageKey)
    }
}

/// The balance stored under `key`, read as a decimal `u64`.
pub open spec fn stored_u64(storage: Map<Seq<u8>, String>, key: Seq<u8>) -> Option<u64> {
    spec_parse_u64(text_bytes(storage[key]))
}

/// The outcome of moving `amount` from the caller to `to`: the sender's balance
/// must be stored and readable and cover the amount; the recipient's, when
/// stored, must be readable and not overflow. The diff updates the sender and
/// inserts or updates the recipient (the sender's entry wins when they are the
/// same account).
pub open spec fn transfer_result(
    storage: Map<Seq<u8>, String>,
    from: Seq<u8>,
    to: Seq<u8>,
    amount: u64,
    r: Result<ContractOutput, Error>,
) -> bool {
    let sk = balance_key(from);
    let rk = balance_key(to);
    if !storage.dom().contains(sk) {
        r matches Err(Error::UnknownStorageKey)
    } else if stored_u64(storage, sk) is None {
        r matches Err(Error::Unknown(_))
    } else if stored_u64(storage, sk)->0 < amount {
        r matches Err(Error::Overflow)
    } else if storage.dom().contains(rk) && stored_u64(storage, rk) is None {
        r matches Err(Error::Unknown(_))
    } else {
        let recipient = if storage.dom().contains(rk) {
            stored_u64(storage, rk)->0 as int
        } else {
            0int
        };
        if recipient + amount > u64::MAX {
            r matches Err(Error::Overflow)
        } else {
            r matches Ok(out) && out.status == Status::Succeed && out.operation == Operation::Call
                && out.balance_diff == 0 && out.storage_diff.inner.wf() && is_single_member(
                out.output,
                "success"@,
                JsonValue::Bool(true),
            ) && out.storage_diff.inner@.dom() == set![sk, rk] && (out.storage_diff.inner@[sk] matches StorageAction::Update(s)
                && text_bytes(s) == spec_decimal((stored_u64(storage, sk)->0 - amount) as nat)) && (
            rk != sk ==> (match out.storage_diff.inner@[rk] {
                StorageAction::Insert(s) => !storage.dom().contains(rk) && text_bytes(s)
                    == spec_decimal((recipient + amount) as nat),
                StorageAction::Update(s) => storage.dom().contains(rk) && text_bytes(s)
                    == spec_decimal((recipient + amount) as nat),
                StorageAction::Remove(_) => false,
            }))
        }
    }
}

/// A transfer between two accounts moves the amount and creates no tokens: read
/// back, the two balances it writes are the sender's less the amount and the
/// recipient's (zero where it had none) plus the amount, and they add up to what
/// the two held before.
pub proof fn law_transfer_conserves(
    storage: Map<Seq<u8>, String>,
    from: Seq<u8>,
    to: Seq<u8>,
    amount: u64,
    out: ContractOutput,
)
    requires
        transfer_result(storage, from, to, amount, Ok(out)),
        balance_key(from) != balance_key(to),
    ensures
        ({
            let sk = balance_key(from);
            let rk = balance_key(to);
            let recipient = if storage.dom().contains(rk) {
                stored_u64(storage, rk)->0 as int
            } else {
                0int
            };
            let sent = spec_parse_u64(text_bytes(action_value(out.storage_diff.inner@[sk])));
            let received = spec_parse_u64(text_bytes(action_value(out.storage_diff.inner@[rk])));
            &&& sent == Some((stored_u64(storage, sk)->0 - amount) as u64)
            &&& received == Some((recipient + amount) as u64)
            &&& sent->0 + received->0 == stored_u64(storage, sk)->0 + recipient
        }),
{
    let sk = balance_key(from);
    let rk = balance_key(to);
    let recipient = if storage.dom().contains(rk) {
        stored_u64(storage, rk)->0 as int
    } else {
        0int
    };
    law_decimal_roundtrip((stored_u64(storage, sk)->0 - amount) as u64);
    law_decimal_roundtrip((recipient + amount) as u64);
}

/// The changes of a transfer between two accounts apply to the storage it read:
/// afterwards the storage holds the two balances the transfer wrote, and nothing
/// else changes.
pub proof fn law_transfer_applies(
    storage: Map<Seq<u8>, String>,
    from: Seq<u8>,
    to: Seq<u8>,
    amount: u64,
    out: ContractOutput,
)
    requires
        transfer_result(storage, from, to, amount, Ok(out)),
        balance_key(from) != balance_key(to),
    ensures
        diff_applies(storage, out.storage_diff.inner.entries_seq()) == Some(
            storage.insert(
                balance_key(from),
                action_value(out.storage_diff.inner@[balance_key(from)]),
            ).insert(balance_key(to), action_value(out.storage_diff.inner@[balance_key(to)])),
        ),
{
    let sk = balance_key(from);
    let rk = balance_key(to);
    let d = out.storage_diff.inner.entries_seq();
    let m = out.storage_diff.inner@;
    crate::storage::keyed::lemma_entries_view(out.storage_diff.inner);
    crate::storage::keyed::lemma_keyed_len(d);
    assert(m.dom() == set![sk, rk]);
    assert(set![sk, rk].len() == 2) by {
        assert(set![sk, rk] == Set::<Seq<u8>>::empty().insert(sk).insert(rk));
    }
    assert(d.len() == 2);
    crate::storage::keyed::lemma_keyed_entry(d, 0);
    crate::storage::keyed::lemma_keyed_entry(d, 1);
    let k0 = d[0].0.0@;
    let k1 = d[1].0.0@;
    assert(k0 != k1);
    assert(m.dom().contains(k0) && m.dom().contains(k1));
    assert(d.drop_last().drop_last() =~= Seq::<(crate::transaction::transaction::Hash, StorageAction<String>)>::empty());
    assert(d.drop_last().last() == d[0]);
    assert(d.last() == d[1]);
    let expected = storage.insert(sk, action_value(m[sk])).insert(rk, action_value(m[rk]));
    let d1 = d.drop_last();
    assert(diff_applies(storage, d1.drop_last()) == Some(storage));
    let m1 = storage.insert(k0, action_value(d[0].1));
    assert(diff_applies(storage, d1) == Some(m1)) by {
        assert(d1.last() == d[0]);
        if k0 == sk {
            assert(storage.dom().contains(sk));
        }
    }
    assert(diff_applies(storage, d) == Some(m1.insert(k1, action_value(d[1].1)))) by {
        assert(m1.dom().contains(k1) == storage.dom().contains(k1));
    }
    if k0 == sk {
        assert(k1 == rk);
        assert(storage.insert(k0, action_value(d[0].1)).insert(k1, action_value(d[1].1)) =~= expected);
    } else {
        assert(k0 == rk && k1 == sk);
        assert(storage.insert(k0, action_value(d[0].1)).insert(k1, action_value(d[1].1)) =~= expected);
    }
}

/// The outcome of reading the token's name, stored under the key of the
/// variable `name`.
pub open spec fn name_result(storage: Map<Seq<u8>, String>, r: Result<ContractOutput, Error>) -> bool {
    let k = var_key("name"@);
    if storage.dom().contains(k) {
        r matches Ok(out) && out.status == Status::Succeed && out.operation == Operation::Call
            && out.balance_diff == 0 && out.storage_diff.inner.wf() && out.storage_diff.inner@
            == Map::<Seq<u8>, StorageAction<String>>::empty() && is_single_member(
            out.output,
            "name"@,
            JsonValue::String(storage[k]),
        )
    } else {
        r matches Err(Error::UnknownStorageKey)
    }
}

fn one_member(key: &str, value: JsonValue) -> (r: JsonValue)
    ensures
        is_single_member(r, key@, value),
{
    let mut members: Vec<(String, JsonValue)> = Vec::new();
    members.push((key.to_owned(), value));
    JsonValue::Object(members)
}

/// The text of a message.
fn message(text: &str) -> (r: String)
    ensures
        r@ == text@,
{
    text.to_owned()
}

/// A token: its name, symbol and number of decimals; balances live in the
/// contract's storage.
pub struct TokenContract {
    pub name: String,
    pub symbol: String,
    pub decimals: u64,
    pub total_supply: u64,
}

impl TokenContract {
    /// A token with no supply yet.
    pub fn new(name: &str, symbol: &str, decimals: u64) -> (r: TokenContract)
        ensures
            r.name@ == name@,
            r.symbol@ == symbol@,
            r.decimals == decimals,
            r.total_supply == 0,
    {
        TokenContract {
            name: name.to_owned(),
            symbol: symbol.to_owned(),
            decimals,
            total_supply: 0,
        }
    }

    /// The balance of `address`, as stored.
    pub fn balance_of(&self, address: &Address, storage: &ContractStorage<String>) -> (r: Result<
        ContractOutput,
        Error,
    >)
        requires
            storage.inner.wf(),
        ensures
            balance_of_result(storage.inner@, address.0@, r),
    {
        let key = balance_key_of(address);
        let balance = match storage.get(&key) {
            Some(b) => b.clone(),
            None => return Err(Error::UnknownStorageKey),
        };
        Ok(ContractOutput {
            storage_diff: ContractStorage::new(),
            balance_diff: 0,
            output: one_member("balance", JsonValue::String(balance)),
            status: Status::Succeed,
            operation: Operation::Call,
        })
    }

    /// Moves `amount` from the caller's balance to `to`'s, as a diff of the
    /// storage.
    pub fn transfer(
        &self,
        caller: &Account,
        to: &Address,
        amount: u64,
        storage: &ContractStorage<String>,
    ) -> (r: Result<ContractOutput, Error>)
        requires
            storage.inner.wf(),
        ensures
            transfer_result(storage.inner@, caller.0.0@, to.0@, amount, r),
    {
        let from = caller.0;
        let sender_key = balance_key_of(&from);
        let sender_text = match storage.get(&sender_key) {
            Some(s) => s,
            None => return Err(Error::UnknownStorageKey),
        };
        let sender_balance = match parse_u64(sender_text.as_str()) {
            Some(v) => v,
            None => return Err(Error::Unknown(message("can't parse integer"))),
        };
        let out_sender_balance = match sender_balance.checked_sub(amount) {
            Some(v) => v,
            None => return Err(Error::Overflow),
        };
        let recipient_key = balance_key_of(to);
        let (is_new, recipient_balance) = match storage.get(&recipient_key) {
            Some(s) => match parse_u64(s.as_str()) {
                Some(v) => (false, v),
                None => return Err(Error::Unknown(message("can't parse integer"))),
            },
            None => (true, 0u64),
        };
        let out_recipient_balance = match recipient_balance.checked_add(amount) {
            Some(v) => v,
            None => return Err(Error::Overflow),
        };
        let recipient_text = u64_to_decimal(out_recipient_balance);
        let val = if is_new {
            StorageAction::Insert(recipient_text)
        } else {
            StorageAction::Update(recipient_text)
        };
        let mut storage_diff: StorageDiff = ContractStorage::new();
        storage_diff.inner.put(recipient_key, val);
        storage_diff.inner.put(sender_key, StorageAction::Update(u64_to_decimal(out_sender_balance)));
        proof {
            assert(storage_diff.inner@.dom() =~= set![sender_key.0@, recipient_key.0@]);
        }
        Ok(ContractOutput {
            storage_diff,
            balance_diff: 0,
            output: one_member("success", JsonValue::Bool(true)),
            status: Status::Succeed,
            operation: Operation::Call,
        })
    }

    /// The token's name, as stored.
    pub fn name(&self, storage: &ContractStorage<String>) -> (r: Result<ContractOutput, Error>)
        requires
            storage.inner.wf(),
        ensures
            name_result(storage.inner@, r),
    {
        proof {
            reveal_strlit("name");
            assert(is_word_text("name"@)) by {
                assert forall|i: int| 0 <= i < "name"@.len() implies is_ascii_word_char(
                    #[trigger] "name"@[i],
                ) by {}
            }
        }
        let builder = match KeyBuilder::from_str("name") {
            Ok(b) => b,
            Err(_) => return Err(Error::Unknown(message("invalid key path"))),
        };
        let key = builder.finalize();
        let name = match storage.get(&key) {
            Some(n) => n.clone(),
            None => return Err(Error::UnknownStorageKey),
        };
        Ok(ContractOutput {
            storage_diff: ContractStorage::new(),
            balance_diff: 0,
            output: one_member("name", JsonValue::String(name)),
            status: Status::Succeed,
            operation: Operation::Call,
        })
    }
}

/// `r` is the JSON error with message `text`.
pub open spec fn is_json_error<T>(r: Result<T, Error>, text: Seq<char>) -> bool {
    r matches Err(Error::JsonParse(m)) && m@ == text
}

/// The address written in the member `key` of `args`, or the error reading it
/// gives: a missing member, a member that is not a string, or text that is not an
/// address.
pub open spec fn spec_address_arg(
    args: Seq<(String, JsonValue)>,
    key: Seq<char>,
) -> Result<Seq<u8>, ()> {
    match spec_json_str(args, key) {
        Some(t) => match spec_address_from_text(vstd::utf8::encode_utf8(t@)) {
            Some(a) => Ok(a),
            None => Err(()),
        },
        None => Err(()),
    }
}

/// Reads the address in the member `key` of `args`.
fn address_arg(args: &Vec<(String, JsonValue)>, key: &str, missing: &str) -> (r: Result<
    Address,
    Error,
>)
    ensures
        spec_json_get(args@, key@) is None ==> is_json_error(r, missing@),
        spec_json_get(args@, key@) matches Some(v) && !(v is String) ==> is_json_error(
            r,
            "expected string"@,
        ),
        spec_json_str(args@, key@) matches Some(t) ==> match spec_address_from_text(
            vstd::utf8::encode_utf8(t@),
        ) {
            Some(a) => r matches Ok(addr) && addr.0@ == a,
            None => r matches Err(Error::Unknown(m)) && m@ == "invalid address value"@,
        },
{
    let v = match json_get(args, key) {
        Some(v) => v,
        None => return Err(Error::JsonParse(message(missing))),
    };
    let text = match json_as_str(v) {
        Some(t) => t,
        None => return Err(Error::JsonParse(message("expected string"))),
    };
    match Address::from_str(text.as_str()) {
        Ok(a) => Ok(a),
        Err(_) => Err(Error::Unknown(message("invalid address value"))),
    }
}

/// The outcome of a call of a token: the method and its arguments are read from
/// `input`, then `balance_of`, `transfer` or `name` runs.
pub open spec fn token_call_result(
    storage: Map<Seq<u8>, String>,
    caller: Account,
    input: Seq<(String, JsonValue)>,
    r: Result<ContractOutput, Error>,
) -> bool {
    match spec_json_get(input, "method"@) {
        None => is_json_error(r, "expected field 'method'"@),
        Some(JsonValue::String(m)) => match spec_json_get(input, "arguments"@) {
            None => is_json_error(r, "expected field 'arguments'"@),
            Some(JsonValue::Object(args)) => if m@ == "balance_of"@ {
                match spec_json_get(args@, "address"@) {
                    None => is_json_error(r, "expected field 'address'"@),
                    Some(JsonValue::String(t)) => match spec_address_from_text(
                        vstd::utf8::encode_utf8(t@),
                    ) {
                        Some(a) => balance_of_result(storage, a, r),
                        None => r matches Err(Error::Unknown(_)),
                    },
                    Some(_) => is_json_error(r, "expected string"@),
                }
            } else if m@ == "transfer"@ {
                match spec_json_get(args@, "to"@) {
                    None => is_json_error(r, "expected field 'to'"@),
                    Some(JsonValue::String(t)) => match spec_address_from_text(
                        vstd::utf8::encode_utf8(t@),
                    ) {
                        Some(a) => match spec_json_get(args@, "amount"@) {
                            None => is_json_error(r, "expected field 'amount'"@),
                            Some(JsonValue::Number(JsonNumber::PosInt(n))) => transfer_result(
                                storage,
                                caller.0.0@,
                                a,
                                n,
                                r,
                            ),
                            Some(_) => is_json_error(r, "expected u64"@),
                        },
                        None => r matches Err(Error::Unknown(_)),
                    },
                    Some(_) => is_json_error(r, "expected string"@),
                }
            } else if m@ == "name"@ {
                name_result(storage, r)
            } else {
                is_json_error(r, "unknown method"@)
            },
            Some(_) => is_json_error(r, "expected object"@),
        },
        Some(_) => is_json_error(r, "expected string"@),
    }
}

impl TokenContract {
    /// Runs the method named in `input` on the token's storage.
    pub fn call(
        &mut self,
        caller: &Account,
        input: &Vec<(String, JsonValue)>,
        storage: &ContractStorage<String>,
    ) -> (r: Result<ContractOutput, Error>)
        requires
            storage.inner.wf(),
        ensures
            token_call_result(storage.inner@, *caller, input@, r),
            *final(self) == *old(self),
    {
        let method = match json_get(input, "method") {
            Some(v) => match json_as_str(v) {
                Some(m) => m,
                None => return Err(Error::JsonParse(message("expected string"))),
            },
            None => return Err(Error::JsonParse(message("expected field 'method'"))),
        };
        let args = match json_get(input, "arguments") {
            Some(v) => match json_as_object(v) {
                Some(a) => a,
                None => return Err(Error::JsonParse(message("expected object"))),
            },
            None => return Err(Error::JsonParse(message("expected field 'arguments'"))),
        };
        if *method == message("balance_of") {
            let address = match address_arg(args, "address", "expected field 'address'") {
                Ok(a) => a,
                Err(e) => return Err(e),
            };
            return self.balance_of(&address, storage);
        } else if *method == message("transfer") {
            let to = match address_arg(args, "to", "expected field 'to'") {
                Ok(a) => a,
                Err(e) => return Err(e),
            };
            let amount = match json_get(args, "amount") {
                Some(v) => match json_as_u64(v) {
                    Some(n) => n,
                    None => return Err(Error::JsonParse(message("expected u64"))),
                },
                None => return Err(Error::JsonParse(message("expected field 'amount'"))),
            };
            let res = self.transfer(caller, &to, amount, storage);
            return res;
        } else if *method == message("name") {
            return self.name(storage);
        }
        Err(Error::JsonParse(message("unknown method")))
    }
}

/// A proof-of-stake contract; it knows no method yet.
pub struct POSContract {
    pub validators_stakes: Vec<(Address, u64)>,
}

/// The outcome of a call of the validator contract: the method and arguments are
/// read, and every method is unknown.
pub open spec fn pos_call_result(input: Seq<(String, JsonValue)>, r: Result<ContractOutput, Error>) -> bool {
    match spec_json_get(input, "method"@) {
        None => is_json_error(r, "expected field 'method'"@),
        Some(JsonValue::String(_)) => match spec_json_get(input, "arguments"@) {
            None => is_json_error(r, "expected field 'arguments'"@),
            Some(JsonValue::Object(_)) => is_json_error(r, "unknown method"@),
            Some(_) => is_json_error(r, "expected object"@),
        },
        Some(_) => is_json_error(r, "expected string"@),
    }
}

impl POSContract {
    /// Reads the method and arguments of `input`; every method is unknown.
    pub fn call(
        &mut self,
        caller: &Account,
        input: &Vec<(String, JsonValue)>,
        storage: &ContractStorage<String>,
    ) -> (r: Result<ContractOutput, Error>)
        ensures
            *final(self) == *old(self),
            pos_call_result(input@, r),
    {
        match json_get(input, "method") {
            Some(v) => match json_as_str(v) {
                Some(_) => {},
                None => return Err(Error::JsonParse(message("expected string"))),
            },
            None => return Err(Error::JsonParse(message("expected field 'method'"))),
        }
        match json_get(input, "arguments") {
            Some(v) => match json_as_object(v) {
                Some(_) => {},
                None => return Err(Error::JsonParse(message("expected object"))),
            },
            None => return Err(Error::JsonParse(message("expected field 'arguments'"))),
        }
        Err(Error::JsonParse(message("unknown method")))
    }
}

/// Ten to the power `d`.
pub open spec fn pow10(d: nat) -> nat
    decreases d,
{
    if d == 0 {
        1
    } else {
        10 * pow10((d - 1) as nat)
    }
}

/// `10u64.pow(d)`, for a `d` whose power fits.
fn pow10_u64(d: u32) -> (r: u64)
    requires
        d <= 19,
    ensures
        r == pow10(d as nat),
{
    let mut r: u64 = 1;
    let mut i: u32 = 0;
    while i < d
        invariant
            i <= d <= 19,
            r == pow10(i as nat),
            r <= 10_000_000_000_000_000_000u64,
        decreases d - i,
    {
        proof {
            lemma_pow10_bound(i as nat);
        }
        r = r * 10;
        i = i + 1;
    }
    r
}

proof fn lemma_pow10_bound(i: nat)
    requires
        i < 19,
    ensures
        pow10(i) <= 1_000_000_000_000_000_000,
{
    lemma_pow10_mono(i, 18);
    assert(pow10(18) == 1_000_000_000_000_000_000) by {
        reveal_with_fuel(pow10, 19);
    }
}

proof fn lemma_pow10_mono(i: nat, j: nat)
    requires
        i <= j,
    ensures
        pow10(i) <= pow10(j),
    decreases j - i,
{
    if i < j {
        lemma_pow10_mono(i, (j - 1) as nat);
    }
}

/// The decimals of a token creation, when given as a `u64` that fits a `u32`.
pub open spec fn creation_decimals(params: Seq<(String, JsonValue)>) -> Option<u64> {
    match spec_json_get(params, "decimals"@) {
        Some(JsonValue::Number(JsonNumber::PosInt(d))) => if d <= u32::MAX {
            Some(d)
        } else {
            None
        },
        _ => None,
    }
}

/// The creation parameters of a token hold a name, a symbol and decimals that fit
/// a `u32`.
pub open spec fn token_params_ok(params: Seq<(String, JsonValue)>) -> bool {
    spec_json_str(params, "name"@) is Some && spec_json_str(params, "symbol"@) is Some
        && creation_decimals(params) is Some
}

/// The storage key of a variable named by the UTF-8 of `name`.
pub open spec fn var_key(name: Seq<char>) -> Seq<u8> {
    spec_sha3_256(vstd::utf8::encode_utf8(name))
}

/// The key of a variable whose name is ASCII is the digest of the name's bytes.
proof fn lemma_ascii_var_key(name: Seq<char>, bytes: Seq<u8>)
    requires
        name.len() == bytes.len(),
        forall|i: int| 0 <= i < name.len() ==> '\0' <= #[trigger] name[i] <= '\u{7f}' && name[i] as u8 == bytes[i],
    ensures
        var_key(name) == spec_sha3_256(bytes),
{
    vstd::utf8::is_ascii_chars_encode_utf8(name);
    assert(vstd::utf8::encode_utf8(name) =~= bytes);
}

/// What a storage action inserts, as the bytes of its text; `None` for an update
/// or a removal.
pub open spec fn inserted_text(a: StorageAction<String>) -> Option<Seq<u8>> {
    match a {
        StorageAction::Insert(s) => Some(text_bytes(s)),
        _ => None,
    }
}

/// The storage diff of creating a token, by the texts it inserts: the name, the
/// symbol, the decimals and the total supply (ten to the power of the decimals)
/// in decimal under the keys of their variables, and then the owner's balance,
/// the whole supply. A later entry of the same key wins.
pub open spec fn creation_diff(owner: Seq<u8>, name: Seq<char>, symbol: Seq<char>, decimals: u64) -> Map<
    Seq<u8>,
    Option<Seq<u8>>,
> {
    Map::<Seq<u8>, Option<Seq<u8>>>::empty().insert(
        var_key("name"@),
        Some(vstd::utf8::encode_utf8(name)),
    ).insert(var_key("symbol"@), Some(vstd::utf8::encode_utf8(symbol))).insert(
        var_key("decimals"@),
        Some(spec_decimal(decimals as nat)),
    ).insert(var_key("total_supply"@), Some(spec_decimal(pow10(decimals as nat)))).insert(
        balance_key(owner),
        Some(spec_decimal(pow10(decimals as nat))),
    )
}

impl TokenContract {
    /// Creates a token from `params` (`name`, `symbol`, `decimals`): its total
    /// supply is ten to the power of its decimals, all of it the owner's. The
    /// output's diff inserts the name, symbol, decimals, total supply and the
    /// owner's balance.
    pub fn create(owner: &Account, params: &Vec<(String, JsonValue)>) -> (r: Result<
        (ContractOutput, TokenContract),
        Error,
    >)
        requires
            creation_decimals(params@) matches Some(d) ==> d <= 19,
        ensures
            spec_json_get(params@, "name"@) is None ==> is_json_error(r, "expected field 'name'"@),
            r matches Ok(p) ==> ({
                let out = p.0;
                let c = p.1;
                &&& spec_json_str(params@, "name"@) matches Some(n) && c.name@ == n@
                &&& spec_json_str(params@, "symbol"@) matches Some(sy) && c.symbol@ == sy@
                &&& creation_decimals(params@) == Some(c.decimals)
                &&& c.total_supply == 0
                &&& out.status == Status::Succeed
                &&& out.operation == Operation::Create
                &&& out.balance_diff == 0
                &&& out.output matches JsonValue::Object(o) && o@.len() == 0
                &&& out.storage_diff.inner.wf()
                &&& out.storage_diff.inner@.dom().contains(balance_key(owner.0.0@))
                &&& out.storage_diff.inner@[balance_key(owner.0.0@)] matches StorageAction::Insert(t)
                    && text_bytes(t) == spec_decimal(pow10(c.decimals as nat))
                &&& out.storage_diff.inner@.map_values(|a: StorageAction<String>| inserted_text(a))
                    == creation_diff(owner.0.0@, c.name@, c.symbol@, c.decimals)
            }),
            r is Ok <==> (spec_json_str(params@, "name"@) is Some && spec_json_str(
                params@,
                "symbol"@,
            ) is Some && creation_decimals(params@) is Some),
    {
        let name = match json_get(params, "name") {
            Some(v) => match json_as_str(v) {
                Some(n) => n,
                None => return Err(Error::JsonParse(message("expected string"))),
            },
            None => return Err(Error::JsonParse(message("expected field 'name'"))),
        };
        let symbol = match json_get(params, "symbol") {
            Some(v) => match json_as_str(v) {
                Some(n) => n,
                None => return Err(Error::JsonParse(message("expected string"))),
            },
            None => return Err(Error::JsonParse(message("expected field 'symbol'"))),
        };
        let decimals = match json_get(params, "decimals") {
            Some(v) => match json_as_u64(v) {
                Some(d) => d,
                None => return Err(Error::JsonParse(message("expected u32"))),
            },
            None => return Err(Error::JsonParse(message("expected field 'decimals'"))),
        };
        if decimals > 4294967295u64 {
            return Err(Error::JsonParse(message("expected u32")));
        }
        let total_supply: u64 = pow10_u64(decimals as u32);
        let mut storage: StorageDiff = ContractStorage::new();
        let name_key: [u8; 4] = [110, 97, 109, 101];
        let symbol_key: [u8; 6] = [115, 121, 109, 98, 111, 108];
        let decimals_key: [u8; 8] = [100, 101, 99, 105, 109, 97, 108, 115];
        let supply_key: [u8; 12] = [116, 111, 116, 97, 108, 95, 115, 117, 112, 112, 108, 121];
        storage.insert_value(name_key.as_slice(), StorageAction::Insert(name.clone()));
        storage.insert_value(symbol_key.as_slice(), StorageAction::Insert(symbol.clone()));
        storage.insert_value(decimals_key.as_slice(), StorageAction::Insert(u64_to_decimal(decimals)));
        storage.insert_value(supply_key.as_slice(), StorageAction::Insert(u64_to_decimal(total_supply)));
        let owner_key = balance_key_of(&owner.0);
        storage.inner.put(owner_key, StorageAction::Insert(u64_to_decimal(total_supply)));
        let out = ContractOutput {
            output: JsonValue::Object(Vec::new()),
            balance_diff: 0,
            storage_diff: storage,
            status: Status::Succeed,
            operation: Operation::Create,
        };
        let contract = TokenContract::new(name.as_str(), symbol.as_str(), decimals);
        proof {
            reveal_strlit("name");
            reveal_strlit("symbol");
            reveal_strlit("decimals");
            reveal_strlit("total_supply");
            lemma_ascii_var_key("name"@, name_key@);
            lemma_ascii_var_key("symbol"@, symbol_key@);
            lemma_ascii_var_key("decimals"@, decimals_key@);
            lemma_ascii_var_key("total_supply"@, supply_key@);
            assert(out.storage_diff.inner@.map_values(|a: StorageAction<String>| inserted_text(a))
                =~= creation_diff(owner.0.0@, contract.name@, contract.symbol@, contract.decimals));
        }
        Ok((out, contract))
    }
}

/// The contracts the ledger knows.
pub enum ContractKind {
    Token(TokenContract),
    Pos(POSContract),
}

/// A contract with its address and storage.
pub struct ContractEntry {
    pub address: ContractAddress,
    pub contract: ContractKind,
    pub storage: ContractStorage<String>,
}

/// Every contract with its storage.
pub struct ContractsStorage {
    pub entries: Vec<ContractEntry>,
}

/// The position of the first contract at address `a`.
pub open spec fn entry_index(entries: Seq<ContractEntry>, a: Seq<u8>) -> Option<int>
    decreases entries.len(),
{
    if entries.len() == 0 {
        None
    } else if entries[0].address.0@ == a {
        Some(0)
    } else {
        match entry_index(entries.drop_first(), a) {
            Some(i) => Some(i + 1),
            None => None,
        }
    }
}

proof fn lemma_entry_index(entries: Seq<ContractEntry>, a: Seq<u8>, i: int)
    requires
        0 <= i <= entries.len(),
        forall|j: int| 0 <= j < i ==> entries[j].address.0@ != a,
    ensures
        entry_index(entries, a) == (match entry_index(entries.skip(i), a) {
            Some(k) => Some(k + i),
            None => None::<int>,
        }),
    decreases i,
{
    if i > 0 {
        assert(entries.skip(1).skip(i - 1) =~= entries.skip(i));
        assert forall|j: int| 0 <= j < i - 1 implies entries.skip(1)[j].address.0@ != a by {
            assert(entries.skip(1)[j] == entries[j + 1]);
        }
        lemma_entry_index(entries.skip(1), a, i - 1);
        assert(entries.drop_first() =~= entries.skip(1));
    } else {
        assert(entries.skip(0) =~= entries);
    }
}

/// The outcome of applying a storage diff: each insert needs an absent key, each
/// update or removal a present one.
pub open spec fn diff_applies(storage: Map<Seq<u8>, String>, diff: Seq<(crate::transaction::transaction::Hash, StorageAction<String>)>) -> Option<Map<Seq<u8>, String>>
    decreases diff.len(),
{
    if diff.len() == 0 {
        Some(storage)
    } else {
        match diff_applies(storage, diff.drop_last()) {
            None => None,
            Some(m) => {
                let k = diff.last().0.0@;
                match diff.last().1 {
                    StorageAction::Insert(v) => if m.dom().contains(k) {
                        None
                    } else {
                        Some(m.insert(k, v))
                    },
                    StorageAction::Update(v) => if m.dom().contains(k) {
                        Some(m.insert(k, v))
                    } else {
                        None
                    },
                    StorageAction::Remove(_) => if m.dom().contains(k) {
                        Some(m.remove(k))
                    } else {
                        None
                    },
                }
            },
        }
    }
}

/// Applies a storage diff, entry by entry; the first entry that does not fit
/// stops it with `KeyExists` or `KeyDoesntExist`, the entries before it applied.
pub fn apply_diff(storage: &mut ContractStorage<String>, diff: &StorageDiff) -> (r: Result<(), Error>)
    requires
        old(storage).inner.wf(),
        diff.inner.wf(),
    ensures
        final(storage).inner.wf(),
        r is Ok <==> diff_applies(old(storage).inner@, diff.inner.entries_seq()) is Some,
        r is Ok ==> Some(final(storage).inner@) == diff_applies(
            old(storage).inner@,
            diff.inner.entries_seq(),
        ),
        r matches Err(e) ==> (e matches Error::KeyExists || e matches Error::KeyDoesntExist),
        r is Err ==> exists|k: int|
            0 <= k < diff.inner.entries_seq().len() && #[trigger] diff_applies(
                old(storage).inner@,
                diff.inner.entries_seq().take(k),
            ) == Some(final(storage).inner@) && diff_applies(
                old(storage).inner@,
                diff.inner.entries_seq().take(k + 1),
            ) is None,
{
    let entries = diff.inner.as_slice();
    let ghost s = entries@;
    let ghost st0 = storage.inner@;
    let mut i: usize = 0;
    while i < entries.len()
        invariant
            s == entries@,
            s == diff.inner.entries_seq(),
            st0 == old(storage).inner@,
            i <= s.len(),
            storage.inner.wf(),
            diff_applies(st0, s.take(i as int)) == Some(storage.inner@),
        decreases s.len() - i,
    {
        let (k, act) = &entries[i];
        proof {
            assert(s.take(i + 1).drop_last() =~= s.take(i as int));
        }
        match act {
            StorageAction::Insert(v) => {
                if storage.inner.contains_key(k) {
                    proof {
                        lemma_diff_stops(st0, s, (i + 1) as int);
                    }
                    return Err(Error::KeyExists);
                }
                storage.inner.put(*k, v.clone());
            },
            StorageAction::Update(v) => {
                if !storage.inner.contains_key(k) {
                    proof {
                        lemma_diff_stops(st0, s, (i + 1) as int);
                    }
                    return Err(Error::KeyDoesntExist);
                }
                storage.inner.put(*k, v.clone());
            },
            StorageAction::Remove(_) => {
                if !storage.inner.contains_key(k) {
                    proof {
                        lemma_diff_stops(st0, s, (i + 1) as int);
                    }
                    return Err(Error::KeyDoesntExist);
                }
                storage.inner.remove(k);
            },
        }
        i = i + 1;
    }
    assert(s.take(s.len() as int) =~= s);
    Ok(())
}

proof fn lemma_diff_stops(
    st: Map<Seq<u8>, String>,
    s: Seq<(crate::transaction::transaction::Hash, StorageAction<String>)>,
    k: int,
)
    requires
        0 <= k <= s.len(),
        diff_applies(st, s.take(k)) is None,
    ensures
        diff_applies(st, s) is None,
    decreases s.len() - k,
{
    if k < s.len() {
        assert(s.take(k + 1).drop_last() =~= s.take(k));
        lemma_diff_stops(st, s, k + 1);
    } else {
        assert(s.take(k) =~= s);
    }
}

impl ContractsStorage {
    /// No contract.
    pub fn new() -> (r: ContractsStorage)
        ensures
            r.entries@.len() == 0,
    {
        ContractsStorage { entries: Vec::new() }
    }

    fn find(&self, a: &Address) -> (r: Option<usize>)
        ensures
            r matches Some(i) ==> entry_index(self.entries@, a.0@) == Some(i as int) && i
                < self.entries@.len(),
            r is None ==> entry_index(self.entries@, a.0@) is None,
    {
        let mut i: usize = 0;
        while i < self.entries.len()
            invariant
                i <= self.entries@.len(),
                forall|j: int| 0 <= j < i ==> self.entries@[j].address.0@ != a.0@,
            decreases self.entries@.len() - i,
        {
            if crate::transaction::transaction::bytes_eq(
                self.entries[i].address.0.as_slice(),
                a.0.as_slice(),
            ) {
                proof {
                    lemma_entry_index(self.entries@, a.0@, i as int);
                }
                return Some(i);
            }
            i = i + 1;
        }
        proof {
            lemma_entry_index(self.entries@, a.0@, i as int);
        }
        None
    }

    /// The value stored under `key` by the contract at `contract_address`.
    pub fn get_value(&self, contract_address: &ContractAddress, key: &crate::transaction::transaction::Hash) -> (r: Option<&String>)
        requires
            forall|i: int| 0 <= i < self.entries@.len() ==> #[trigger] self.entries@[i].storage.inner.wf(),
        ensures
            entry_index(self.entries@, contract_address.0@) is None ==> r is None,
            entry_index(self.entries@, contract_address.0@) matches Some(i) ==> (match r {
                Some(v) => self.entries@[i].storage.inner@.dom().contains(key.0@)
                    && self.entries@[i].storage.inner@[key.0@] == *v,
                None => !self.entries@[i].storage.inner@.dom().contains(key.0@),
            }),
    {
        match self.find(contract_address) {
            Some(i) => self.entries[i].storage.get(key),
            None => None,
        }
    }
}

/// The values a storage diff inserts.
pub open spec fn spec_inserted(diff: Seq<(crate::transaction::transaction::Hash, StorageAction<String>)>) -> Map<Seq<u8>, String>
    decreases diff.len(),
{
    if diff.len() == 0 {
        Map::empty()
    } else {
        let m = spec_inserted(diff.drop_last());
        match diff.last().1 {
            StorageAction::Insert(v) => m.insert(diff.last().0.0@, v),
            _ => m,
        }
    }
}

proof fn lemma_inserted_texts(s: Seq<(crate::transaction::transaction::Hash, StorageAction<String>)>)
    requires
        crate::storage::keyed::keyed_distinct(s),
        forall|i: int| 0 <= i < s.len() ==> (#[trigger] s[i]).1 is Insert,
    ensures
        spec_inserted(s).map_values(|t: String| Some(text_bytes(t))) == crate::storage::keyed::keyed_map(
            s,
        ).map_values(|a: StorageAction<String>| inserted_text(a)),
    decreases s.len(),
{
    if s.len() > 0 {
        let p = s.drop_last();
        assert forall|i: int, j: int| 0 <= i < j < p.len() implies p[i].0.0@ != p[j].0.0@ by {
            assert(s[i].0.0@ != s[j].0.0@);
        }
        assert forall|i: int| 0 <= i < p.len() implies (#[trigger] p[i]).1 is Insert by {
            assert(s[i] == p[i]);
        }
        lemma_inserted_texts(p);
        assert(s[s.len() - 1].1 is Insert);
        let k = s.last().0.0@;
        let v = s.last().1->Insert_0;
        assert(spec_inserted(s) == spec_inserted(p).insert(k, v));
        assert(crate::storage::keyed::keyed_map(s) == crate::storage::keyed::keyed_map(p).insert(k, s.last().1));
        assert(inserted_text(s.last().1) == Some(text_bytes(v)));
        let lhs = spec_inserted(s).map_values(|t: String| Some(text_bytes(t)));
        let rhs = crate::storage::keyed::keyed_map(s).map_values(|a: StorageAction<String>| inserted_text(a));
        let lp = spec_inserted(p).map_values(|t: String| Some(text_bytes(t)));
        let rp = crate::storage::keyed::keyed_map(p).map_values(|a: StorageAction<String>| inserted_text(a));
        assert forall|x: Seq<u8>| #[trigger] lhs.dom().contains(x) == rhs.dom().contains(x) && (lhs.dom().contains(x) ==> lhs[x] == rhs[x]) by {
            if x != k {
                assert(lp.dom().contains(x) == rp.dom().contains(x));
                if lp.dom().contains(x) {
                    assert(lp[x] == rp[x]);
                }
            }
        }
        assert(spec_inserted(s).map_values(|t: String| Some(text_bytes(t))) =~= crate::storage::keyed::keyed_map(
            s,
        ).map_values(|a: StorageAction<String>| inserted_text(a)));
    }
}

/// The storage a created token starts with, the values its creation diff
/// inserts (see `storage_from_diff`), holds exactly the texts of
/// `creation_diff`: the name, symbol, decimals and total supply under their
/// variables' keys and the supply under the owner's balance key. Where no two of
/// these five keys coincide, the name variable holds the token's name.
pub proof fn law_creation_storage(
    d: StorageDiff,
    owner: Seq<u8>,
    name: Seq<char>,
    symbol: Seq<char>,
    decimals: u64,
)
    requires
        d.inner.wf(),
        d.inner@.map_values(|a: StorageAction<String>| inserted_text(a)) == creation_diff(
            owner,
            name,
            symbol,
            decimals,
        ),
    ensures
        spec_inserted(d.inner.entries_seq()).map_values(|t: String| Some(text_bytes(t))) == creation_diff(
            owner,
            name,
            symbol,
            decimals,
        ),
        (var_key("name"@) != var_key("symbol"@) && var_key("name"@) != var_key("decimals"@)
            && var_key("name"@) != var_key("total_supply"@) && var_key("name"@) != balance_key(owner))
            ==> spec_inserted(d.inner.entries_seq()).dom().contains(var_key("name"@)) && text_bytes(
            spec_inserted(d.inner.entries_seq())[var_key("name"@)],
        ) == vstd::utf8::encode_utf8(name),
{
    let s = d.inner.entries_seq();
    let c = creation_diff(owner, name, symbol, decimals);
    crate::storage::keyed::lemma_entries_view(d.inner);
    assert forall|i: int| 0 <= i < s.len() implies (#[trigger] s[i]).1 is Insert by {
        crate::storage::keyed::lemma_keyed_entry(s, i);
        let k = s[i].0.0@;
        assert(d.inner@.dom().contains(k));
        assert(d.inner@.map_values(|a: StorageAction<String>| inserted_text(a))[k] == inserted_text(s[i].1));
        assert(c.dom().contains(k));
        assert(c[k] is Some);
    }
    lemma_inserted_texts(s);
    let m = spec_inserted(s);
    let k = var_key("name"@);
    if var_key("name"@) != var_key("symbol"@) && var_key("name"@) != var_key("decimals"@)
        && var_key("name"@) != var_key("total_supply"@) && var_key("name"@) != balance_key(owner) {
        assert(c.dom().contains(k));
        assert(c[k] == Some(vstd::utf8::encode_utf8(name)));
        assert(m.map_values(|t: String| Some(text_bytes(t))).dom().contains(k));
        assert(m.dom().contains(k));
        assert(m.map_values(|t: String| Some(text_bytes(t)))[k] == Some(text_bytes(m[k])));
    }
}

/// The storage a contract starts with: the values its creation diff inserts.
pub fn storage_from_diff(diff: &StorageDiff) -> (r: ContractStorage<String>)
    requires
        diff.inner.wf(),
    ensures
        r.inner.wf(),
        r.inner@ == spec_inserted(diff.inner.entries_seq()),
{
    let entries = diff.inner.as_slice();
    let ghost s = entries@;
    let mut out: ContractStorage<String> = ContractStorage::new();
    let mut i: usize = 0;
    while i < entries.len()
        invariant
            s == entries@,
            i <= s.len(),
            out.inner.wf(),
            out.inner@ == spec_inserted(s.take(i as int)),
        decreases s.len() - i,
    {
        let (k, act) = &entries[i];
        proof {
            assert(s.take(i + 1).drop_last() =~= s.take(i as int));
        }
        match act {
            StorageAction::Insert(v) => {
                out.inner.put(*k, v.clone());
            },
            _ => {},
        }
        i = i + 1;
    }
    assert(s.take(s.len() as int) =~= s);
    out
}

/// A call of a contract, as a transaction carries it.
pub struct ContractTransaction {
    pub value: u32,
    pub hash: crate::transaction::transaction::Hash,
    pub from: Account,
    pub address: ContractAddress,
    pub contract_input: Vec<(String, JsonValue)>,
    pub timestamp: u64,
}

/// A contract call with what it gave back.
pub struct ContractInputOutput {
    pub input: ContractTransaction,
    pub output: ContractOutput,
}

/// Creation parameters whose decimals, when given as a `u64` that fits a `u32`,
/// have a power of ten that fits a `u64`.
pub open spec fn creation_input_ok(input: JsonValue) -> bool {
    match input {
        JsonValue::Object(o) => match spec_json_get(o@, "params"@) {
            Some(JsonValue::Object(p)) => creation_decimals(p@) matches Some(d) ==> d <= 19,
            _ => true,
        },
        _ => true,
    }
}

/// Every contract's storage holds each key once.
pub open spec fn contracts_wf(entries: Seq<ContractEntry>) -> bool {
    forall|i: int| 0 <= i < entries.len() ==> #[trigger] entries[i].storage.inner.wf()
}

/// `after` is the contracts after a call of the contract at `address` by `caller`
/// with `input`, which gave `r`: an address without a contract gives
/// `UnknownContract` and changes nothing; a token answers as `token_call_result`
/// says (or fails to apply its changes); what a call that went through changes
/// is applied to the contract's storage.
pub open spec fn call_applied(
    before: Seq<ContractEntry>,
    after: Seq<ContractEntry>,
    address: Seq<u8>,
    caller: Account,
    input: Seq<(String, JsonValue)>,
    r: Result<ContractOutput, Error>,
) -> bool {
    &&& contracts_wf(after)
    &&& after.len() == before.len()
    &&& entry_index(before, address) is None ==> (r matches Err(Error::UnknownContract)) && after == before
    &&& entry_index(before, address) matches Some(i) ==> ({
        let e = before[i];
        &&& e.contract is Token ==> token_call_result(e.storage.inner@, caller, input, r)
        &&& e.contract is Pos ==> pos_call_result(input, r)
        &&& r is Err ==> after == before
        &&& r matches Ok(out) ==> Some(after[i].storage.inner@) == diff_applies(e.storage.inner@, out.storage_diff.inner.entries_seq())
            && after[i].address == e.address && after[i].contract == e.contract
            && forall|j: int| 0 <= j < after.len() && j != i ==> after[j] == before[j]
    })
}

proof fn lemma_empty_diff_applies(storage: Map<Seq<u8>, String>, diff: StorageDiff)
    requires
        diff.inner.wf(),
        diff.inner@ == Map::<Seq<u8>, StorageAction<String>>::empty(),
    ensures
        diff_applies(storage, diff.inner.entries_seq()) == Some(storage),
{
    crate::storage::keyed::lemma_entries_view(diff.inner);
    crate::storage::keyed::lemma_keyed_len(diff.inner.entries_seq());
}

proof fn lemma_transfer_diff_applies(
    storage: Map<Seq<u8>, String>,
    from: Seq<u8>,
    to: Seq<u8>,
    amount: u64,
    out: ContractOutput,
)
    requires
        transfer_result(storage, from, to, amount, Ok(out)),
    ensures
        diff_applies(storage, out.storage_diff.inner.entries_seq()) is Some,
{
    let sk = balance_key(from);
    let rk = balance_key(to);
    if sk != rk {
        law_transfer_applies(storage, from, to, amount, out);
    } else {
        let d = out.storage_diff.inner.entries_seq();
        let m = out.storage_diff.inner@;
        crate::storage::keyed::lemma_entries_view(out.storage_diff.inner);
        crate::storage::keyed::lemma_keyed_len(d);
        assert(m.dom() =~= set![sk]);
        assert(set![sk].len() == 1) by {
            assert(set![sk] == Set::<Seq<u8>>::empty().insert(sk));
        }
        assert(d.len() == 1);
        crate::storage::keyed::lemma_keyed_entry(d, 0);
        assert(d[0].0.0@ == sk);
        assert(d.drop_last() =~= Seq::<(crate::transaction::transaction::Hash, StorageAction<String>)>::empty());
        assert(d.last() == d[0]);
        assert(storage.dom().contains(sk));
        assert(diff_applies(storage, d.drop_last()) == Some(storage));
        assert(d.last().1 == m[sk]);
        assert(m[sk] is Update);
        assert(diff_applies(storage, d) == Some(storage.insert(sk, action_value(m[sk]))));
    }
}

/// What a token call that went through changes always fits the storage it read,
/// and a token call moves no coins.
pub proof fn law_token_diff_applies(
    storage: Map<Seq<u8>, String>,
    caller: Account,
    input: Seq<(String, JsonValue)>,
    out: ContractOutput,
)
    requires
        token_call_result(storage, caller, input, Ok(out)),
    ensures
        diff_applies(storage, out.storage_diff.inner.entries_seq()) is Some,
        out.balance_diff == 0,
{
    let r = Ok::<ContractOutput, Error>(out);
    if let Some(JsonValue::String(m)) = spec_json_get(input, "method"@) {
        if let Some(JsonValue::Object(args)) = spec_json_get(input, "arguments"@) {
            if m@ == "balance_of"@ {
                lemma_empty_diff_applies(storage, out.storage_diff);
            } else if m@ == "transfer"@ {
                if let Some(JsonValue::String(t)) = spec_json_get(args@, "to"@) {
                    if let Some(a) = spec_address_from_text(vstd::utf8::encode_utf8(t@)) {
                        if let Some(JsonValue::Number(JsonNumber::PosInt(n))) = spec_json_get(args@, "amount"@) {
                            lemma_transfer_diff_applies(storage, caller.0.0@, a, n, out);
                        }
                    }
                }
            } else if m@ == "name"@ {
                lemma_empty_diff_applies(storage, out.storage_diff);
            }
        }
    }
}

impl ContractsStorage {
    /// Creates the contract described by `input` (only tokens are known) at
    /// `contract_address`, which then holds the values the creation inserts; an
    /// address that already holds a contract keeps it.
    pub fn create(&mut self, creator: &Account, contract_address: Address, input: &JsonValue) -> (r:
        Result<ContractOutput, Error>)
        requires
            creation_input_ok(*input),
            contracts_wf(old(self).entries@),
        ensures
            contracts_wf(final(self).entries@),
            !(input is Object) ==> is_json_error(r, "expected object"@) && final(self).entries@
                == old(self).entries@,
            input matches JsonValue::Object(o) ==> match spec_json_get(o@, "type"@) {
                None => is_json_error(r, "expected field 'type'"@),
                Some(JsonValue::String(t)) => if t@ == "token"@ {
                    match spec_json_get(o@, "params"@) {
                        None => is_json_error(r, "expected field 'params'"@),
                        Some(JsonValue::Object(p)) => (r is Ok <==> token_params_ok(p@)),
                        Some(_) => is_json_error(r, "expected object"@),
                    }
                } else {
                    r matches Err(Error::UnknownContractType)
                },
                Some(_) => is_json_error(r, "expected string"@),
            },
            r is Err ==> final(self).entries@ == old(self).entries@,
            r matches Ok(out) ==> entry_index(final(self).entries@, contract_address.0@) is Some
                && out.operation == Operation::Create && out.status == Status::Succeed,
            r matches Ok(out) ==> (entry_index(old(self).entries@, contract_address.0@) is None
                ==> final(self).entries@[entry_index(final(self).entries@, contract_address.0@)->0].storage.inner@
                == spec_inserted(out.storage_diff.inner.entries_seq())
                && final(self).entries@.len() == old(self).entries@.len() + 1
                && final(self).entries@.take(old(self).entries@.len() as int) == old(self).entries@),
            r is Ok && entry_index(old(self).entries@, contract_address.0@) is Some ==> final(self).entries@
                == old(self).entries@,
    {
        let obj = match json_as_object(input) {
            Some(o) => o,
            None => return Err(Error::JsonParse(message("expected object"))),
        };
        let contract_type = match json_get(obj, "type") {
            Some(v) => match json_as_str(v) {
                Some(t) => t,
                None => return Err(Error::JsonParse(message("expected string"))),
            },
            None => return Err(Error::JsonParse(message("expected field 'type'"))),
        };
        if !(*contract_type == message("token")) {
            return Err(Error::UnknownContractType);
        }
        let params = match json_get(obj, "params") {
            Some(v) => match json_as_object(v) {
                Some(p) => p,
                None => return Err(Error::JsonParse(message("expected object"))),
            },
            None => return Err(Error::JsonParse(message("expected field 'params'"))),
        };
        let (output, contract) = match TokenContract::create(creator, params) {
            Ok(p) => p,
            Err(e) => return Err(e),
        };
        match self.find(&contract_address) {
            Some(_) => {},
            None => {
                let storage = storage_from_diff(&output.storage_diff);
                let ghost before = self.entries@;
                self.entries.push(
                    ContractEntry {
                        address: contract_address,
                        contract: ContractKind::Token(contract),
                        storage,
                    },
                );
                proof {
                    assert forall|j: int| 0 <= j < before.len() implies self.entries@[j].address.0@
                        != contract_address.0@ by {
                        if self.entries@[j].address.0@ == contract_address.0@ {
                            lemma_entry_index_some(before, contract_address.0@, j);
                        }
                    }
                    lemma_entry_index(self.entries@, contract_address.0@, before.len() as int);
                    assert(self.entries@.skip(before.len() as int)[0].address.0@ == contract_address.0@);
                    assert forall|i: int| 0 <= i < self.entries@.len() implies #[trigger] self.entries@[i].storage.inner.wf() by {
                        if i < before.len() {
                            assert(self.entries@[i] == before[i]);
                        }
                    }
                }
            },
        }
        Ok(output)
    }

    /// Calls the contract at `contract_address` with `input`; what the call
    /// changes in the contract's storage is applied to it. An address without a
    /// contract gives `UnknownContract`.
    pub fn call(&mut self, contract_address: &ContractAddress, caller: &Account, input: &Vec<(String, JsonValue)>) -> (r: Result<ContractOutput, Error>)
        requires
            contracts_wf(old(self).entries@),
        ensures
            call_applied(old(self).entries@, final(self).entries@, contract_address.0@, *caller, input@, r),
    {
        let i = match self.find(contract_address) {
            Some(i) => i,
            None => return Err(Error::UnknownContract),
        };
        let mut entry = self.entries.remove(i);
        proof {
            assert(entry == old(self).entries@[i as int]);
        }
        let result = match &mut entry.contract {
            ContractKind::Token(t) => t.call(caller, input, &entry.storage),
            ContractKind::Pos(p) => p.call(caller, input, &entry.storage),
        };
        proof {
            if result is Ok {
                if entry.contract is Token {
                    law_token_diff_applies(entry.storage.inner@, *caller, input@, result->Ok_0);
                }
            }
        }
        let output = match result {
            Ok(o) => o,
            Err(e) => {
                self.entries.insert(i, entry);
                proof {
                    assert(self.entries@ =~= old(self).entries@);
                }
                return Err(e);
            },
        };
        let applied = apply_diff(&mut entry.storage, &output.storage_diff);
        self.entries.insert(i, entry);
        proof {
            assert forall|j: int| 0 <= j < self.entries@.len() implies #[trigger] self.entries@[j].storage.inner.wf() by {
                if j != i {
                    assert(self.entries@[j] == old(self).entries@[j]);
                }
            }
        }
        match applied {
            Ok(()) => {},
            Err(e) => return Err(e),
        }
        let diff = output.balance_diff;
        if diff != 0 {
            let balance: i128 = caller.1 as i128 + diff as i128;
            if balance < 0 || balance > usize::MAX as i128 {
                return Err(Error::Overflow);
            }
        }
        Ok(output)
    }

    /// Applies a call whose output says it succeeded as a call: its storage diff
    /// goes into the storage of the contract called.
    pub fn apply_state(&mut self, call: &ContractInputOutput) -> (r: Result<(), Error>)
        requires
            contracts_wf(old(self).entries@),
            call.output.storage_diff.inner.wf(),
        ensures
            contracts_wf(final(self).entries@),
            final(self).entries@.len() == old(self).entries@.len(),
            match entry_index(old(self).entries@, call.input.address.0@) {
                Some(i) if call.output.status == Status::Succeed && call.output.operation == Operation::Call => (
                    r is Ok <==> diff_applies(old(self).entries@[i].storage.inner@, call.output.storage_diff.inner.entries_seq()) is Some)
                    && (r is Ok ==> Some(final(self).entries@[i].storage.inner@) == diff_applies(
                        old(self).entries@[i].storage.inner@,
                        call.output.storage_diff.inner.entries_seq(),
                    )),
                _ => r is Ok && final(self).entries@ == old(self).entries@,
            },
    {
        let i = match self.find(&call.input.address) {
            Some(i) => i,
            None => return Ok(()),
        };
        if call.output.status == Status::Succeed && call.output.operation == Operation::Call {
            let mut entry = self.entries.remove(i);
            proof {
                assert(entry == old(self).entries@[i as int]);
            }
            let applied = apply_diff(&mut entry.storage, &call.output.storage_diff);
            self.entries.insert(i, entry);
            proof {
                assert forall|j: int| 0 <= j < self.entries@.len() implies #[trigger] self.entries@[j].storage.inner.wf() by {
                    if j != i {
                        assert(self.entries@[j] == old(self).entries@[j]);
                    }
                }
            }
            return applied;
        }
        Ok(())
    }
}

proof fn lemma_entry_index_some(entries: Seq<ContractEntry>, a: Seq<u8>, j: int)
    requires
        0 <= j < entries.len(),
        entries[j].address.0@ == a,
    ensures
        entry_index(entries, a) is Some,
    decreases j,
{
    if j > 0 && entries[0].address.0@ != a {
        assert(entries.drop_first()[j - 1] == entries[j]);
        lemma_entry_index_some(entries.drop_first(), a, j - 1);
    }
}

} // verus!
