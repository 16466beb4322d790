use vstd::prelude::*;
use crate::pm::serializable::{le_u32, le_u64, splice, u32_from_le, u64_from_le, BufferView, SerializedBuffer};

verus! {

/// Number of bytes in a hash.
pub const HASH_SIZE: usize = 32;

/// Number of bytes in an address: twenty key bytes and a checksum byte.
pub const ADDRESS_SIZE: usize = 21;

/// Whether two byte slices hold the same bytes.
pub fn bytes_eq(a: &[u8], b: &[u8]) -> (r: bool)
    ensures
        r == (a@ == b@),
{
    if a.len() != b.len() {
        return false;
    }
    let mut i: usize = 0;
    while i < a.len()
        invariant
            a@.len() == b@.len(),
            i <= a@.len(),
            forall|k: int| 0 <= k < i ==> a@[k] == b@[k],
        decreases a@.len() - i,
    {
        if a[i] != b[i] {
            return false;
        }
        i = i + 1;
    }
    assert(a@ =~= b@);
    true
}

/// A 32-byte hash.
#[derive(Clone, Copy, Debug, Hash)]
pub struct Hash(pub [u8; 32]);

impl PartialEq for Hash {
    fn eq(&self, other: &Self) -> (r: bool) {
        bytes_eq(self.0.as_slice(), other.0.as_slice())
    }
}

impl vstd::std_specs::cmp::PartialEqSpecImpl for Hash {
    open spec fn obeys_eq_spec() -> bool {
        true
    }

    open spec fn eq_spec(&self, other: &Self) -> bool {
        self.0@ == other.0@
    }
}

impl Eq for Hash {
}

/// A 21-byte account address; its last byte is a checksum of the others.
#[derive(Clone, Copy, Debug, Hash)]
pub struct Address(pub [u8; 21]);

impl PartialEq for Address {
    fn eq(&self, other: &Self) -> (r: bool) {
        bytes_eq(self.0.as_slice(), other.0.as_slice())
    }
}

impl vstd::std_specs::cmp::PartialEqSpecImpl for Address {
    open spec fn obeys_eq_spec() -> bool {
        true
    }

    open spec fn eq_spec(&self, other: &Self) -> bool {
        self.0@ == other.0@
    }
}

impl Eq for Address {
}

/// A secp256k1 public key in its 33-byte compressed form.
pub type PublicKey = [u8; 33];

/// A secp256k1 secret key as its 32 bytes.
pub type PrivateKey = [u8; 32];

/// An ECDSA signature in its 64-byte compact form.
pub type Signature = [u8; 64];

/// The all-zero hash.
pub fn hash_null() -> (h: Hash)
    ensures
        h.0@ == Seq::new(32, |i: int| 0u8),
{
    let h = Hash([0u8; 32]);
    assert(h.0@ =~= Seq::new(32, |i: int| 0u8));
    h
}

/// The all-zero address.
pub fn address_null() -> (a: Address)
    ensures
        a.0@ == Seq::new(21, |i: int| 0u8),
{
    let a = Address([0u8; 21]);
    assert(a.0@ =~= Seq::new(21, |i: int| 0u8));
    a
}

/// The SHA3-256 digest of a byte sequence.
pub uninterp spec fn spec_sha3_256(data: Seq<u8>) -> Seq<u8>;

/// The SHA3-256 digest of `data`, computed by `crypto::sha3::Sha3::sha3_256`.
/// Claimed: the 32 bytes returned are the digest named `spec_sha3_256`, a
/// function of the input bytes alone.
#[verifier::external_body]
fn sha3_256_digest(data: &[u8]) -> (r: [u8; 32])
    ensures
        r@ == spec_sha3_256(data@),
{
    let mut sha = crypto::sha3::Sha3::sha3_256();
    crypto::digest::Digest::input(&mut sha, data);
    let mut buf = [0u8; 32];
    crypto::digest::Digest::result(&mut sha, &mut buf);
    buf
}

/// Value of a hexadecimal digit character.
pub open spec fn hex_digit_value(c: u8) -> Option<u8> {
    if 48 <= c <= 57 {
        Some((c - 48) as u8)
    } else if 97 <= c <= 102 {
        Some((c - 87) as u8)
    } else if 65 <= c <= 70 {
        Some((c - 55) as u8)
    } else {
        None
    }
}

/// Decoding of hexadecimal text: an even number of digits, two per byte, high first.
pub open spec fn spec_hex_decode(s: Seq<u8>) -> Option<Seq<u8>>
    decreases s.len(),
{
    if s.len() % 2 != 0 {
        None
    } else if s.len() == 0 {
        Some(Seq::<u8>::empty())
    } else {
        match (hex_digit_value(s[0]), hex_digit_value(s[1]), spec_hex_decode(s.skip(2))) {
            (Some(h), Some(l), Some(rest)) => Some(seq![(h * 16 + l) as u8] + rest),
            _ => None,
        }
    }
}

/// The hexadecimal digit of a value below sixteen, in upper or lower case.
pub open spec fn hex_digit(n: u8, upper: bool) -> u8 {
    if n < 10 {
        (48 + n) as u8
    } else if upper {
        (55 + n) as u8
    } else {
        (87 + n) as u8
    }
}

/// Hexadecimal text of bytes: two digits per byte, high first.
pub open spec fn spec_hex_encode(b: Seq<u8>, upper: bool) -> Seq<u8>
    decreases b.len(),
{
    if b.len() == 0 {
        Seq::empty()
    } else {
        seq![hex_digit(b[0] / 16, upper), hex_digit(b[0] % 16, upper)] + spec_hex_encode(
            b.skip(1),
            upper,
        )
    }
}

/// Decoding the hexadecimal text of bytes, in either case, gives the bytes back.
pub proof fn law_hex_roundtrip(b: Seq<u8>, upper: bool)
    ensures
        spec_hex_decode(spec_hex_encode(b, upper)) == Some(b),
    decreases b.len(),
{
    lemma_hex_encode_len(b, upper);
    if b.len() > 0 {
        let e = spec_hex_encode(b, upper);
        law_hex_roundtrip(b.skip(1), upper);
        assert(e.skip(2) =~= spec_hex_encode(b.skip(1), upper));
        assert(hex_digit_value(e[0]) == Some(b[0] / 16));
        assert(hex_digit_value(e[1]) == Some(b[0] % 16));
        assert(seq![((b[0] / 16) * 16 + b[0] % 16) as u8] + b.skip(1) =~= b);
    }
}

proof fn lemma_hex_encode_len(b: Seq<u8>, upper: bool)
    ensures
        spec_hex_encode(b, upper).len() == 2 * b.len(),
        forall|i: int| 0 <= i < spec_hex_encode(b, upper).len() ==> #[trigger] spec_hex_encode(b, upper)[i] < 128,
    decreases b.len(),
{
    if b.len() > 0 {
        lemma_hex_encode_len(b.skip(1), upper);
        let e = spec_hex_encode(b, upper);
        let t = spec_hex_encode(b.skip(1), upper);
        assert forall|i: int| 0 <= i < e.len() implies #[trigger] e[i] < 128 by {
            if i >= 2 {
                assert(e[i] == t[i - 2]);
            }
        }
    }
}

/// `hex::encode`: the bytes in hexadecimal, two lower-case digits per byte, high
/// first, as the crate's source writes them.
#[verifier::external_body]
fn hex_encode(data: &[u8]) -> (r: String)
    ensures
        vstd::utf8::encode_utf8(r@) == spec_hex_encode(data@, false),
{
    hex::encode(data)
}

/// Decodes hexadecimal text with `hex::decode`. Claimed, as the crate's source
/// shows: odd-length input and any non-hex-digit character are refused, otherwise
/// each pair of digits (either case) gives one byte.
#[verifier::external_body]
pub(crate) fn hex_decode(s: &[u8]) -> (r: Option<Vec<u8>>)
    ensures
        match spec_hex_decode(s@) {
            Some(d) => r matches Some(v) && v@ == d,
            None => r is None,
        },
{
    match hex::decode(s) {
        Ok(v) => Some(v),
        Err(_) => None,
    }
}

/// Whether the ECDSA signature `sig` (compact form) over the 32-byte message
/// `msg` verifies against the compressed public key `pk`.
pub uninterp spec fn spec_ecdsa_verify(msg: Seq<u8>, sig: Seq<u8>, pk: Seq<u8>) -> bool;

/// Verifies an ECDSA signature with `secp256k1::ecdsa::verify`, after parsing the
/// compact signature and the compressed key; a signature or key that does not
/// parse does not verify. Claimed: the answer is the predicate `spec_ecdsa_verify`
/// of the three byte strings.
#[verifier::external_body]
fn ecdsa_verify(msg: &[u8; 32], sig: &[u8; 64], pk: &[u8; 33]) -> (r: bool)
    ensures
        r == spec_ecdsa_verify(msg@, sig@, pk@),
{
    let sig = match secp256k1::ecdsa::Signature::from_compact(sig) {
        Ok(s) => s,
        Err(_) => return false,
    };
    let pk = match secp256k1::PublicKey::from_slice(pk) {
        Ok(p) => p,
        Err(_) => return false,
    };
    secp256k1::ecdsa::verify(&sig, secp256k1::Message::from_digest(*msg), &pk).is_ok()
}

/// The deterministic (RFC 6979) ECDSA signature, in compact form, of the message
/// `msg` under the secret key `sk`; `None` when `sk` is not a valid secret key.
pub uninterp spec fn spec_ecdsa_sign(msg: Seq<u8>, sk: Seq<u8>) -> Option<Seq<u8>>;

/// Signs with `secp256k1::ecdsa::sign`, whose nonce is derived by RFC 6979 from
/// the key and message alone. Claimed: the compact signature returned is the one
/// named `spec_ecdsa_sign`; a key that does not parse gives `None`.
#[verifier::external_body]
pub(crate) fn ecdsa_sign(msg: &[u8; 32], sk: &[u8; 32]) -> (r: Option<[u8; 64]>)
    ensures
        spec_ecdsa_sign(msg@, sk@) is Some <==> r is Some,
        r matches Some(s) ==> spec_ecdsa_sign(msg@, sk@) == Some(s@),
{
    let sk = match secp256k1::SecretKey::from_secret_bytes(*sk) {
        Ok(k) => k,
        Err(_) => return None,
    };
    Some(secp256k1::ecdsa::sign(secp256k1::Message::from_digest(*msg), &sk).serialize_compact())
}

/// The 65-byte uncompressed form of a compressed public key, `None` when the bytes
/// are not a point of the curve.
pub uninterp spec fn spec_uncompressed_key(pk: Seq<u8>) -> Option<Seq<u8>>;

/// Parses a compressed key with `secp256k1::PublicKey::from_slice` and returns its
/// `serialize_uncompressed` form. Claimed: the result is the one named
/// `spec_uncompressed_key`, `None` exactly when parsing fails.
#[verifier::external_body]
fn uncompressed_key(pk: &[u8; 33]) -> (r: Option<[u8; 65]>)
    ensures
        spec_uncompressed_key(pk@) is Some <==> r is Some,
        r matches Some(u) ==> spec_uncompressed_key(pk@) == Some(u@),
{
    match secp256k1::PublicKey::from_slice(pk) {
        Ok(p) => Some(p.serialize_uncompressed()),
        Err(_) => None,
    }
}

/// Bit `i` of `b`, counting from the most significant bit of the first byte.
pub open spec fn bit_set(b: Seq<u8>, i: int) -> bool {
    b[i / 8] & (0x80u8 >> ((i % 8) as u8)) != 0
}

/// The first `n` bits of `b` are all zero.
pub open spec fn leading_bits_zero(b: Seq<u8>, n: int) -> bool {
    forall|i: int| 0 <= i < n ==> !bit_set(b, i)
}

/// Whether the first `mwm` bits of a digest are zero (the proof-of-work test).
pub fn meets_weight_magnitude(digest: &[u8; 32], mwm: u32) -> (r: bool)
    requires
        mwm <= 256,
    ensures
        r == leading_bits_zero(digest@, mwm as int),
{
    let n = mwm as usize;
    let mut i: usize = 0;
    while i < n
        invariant
            n == mwm,
            n <= 256,
            i <= n,
            leading_bits_zero(digest@, i as int),
        decreases n - i,
    {
        let x = digest[i / 8];
        let y = 0x80u8 >> ((i % 8) as u8);
        if x & y != 0 {
            assert(bit_set(digest@, i as int));
            return false;
        }
        i = i + 1;
    }
    true
}

impl Hash {
    /// The SHA3-256 digest of `bytes`.
    pub fn sha3_256(bytes: &[u8]) -> (h: Hash)
        ensures
            h.0@ == spec_sha3_256(bytes@),
    {
        Hash(sha3_256_digest(bytes))
    }

    /// Number of leading zero bits of the hash, counted over its first 32 bits.
    pub fn trailing_zeros(&self) -> (r: u16)
        ensures
            r <= 32,
            leading_bits_zero(self.0@, r as int),
            r < 32 ==> bit_set(self.0@, r as int),
    {
        let mut zeros: u16 = 0;
        let mut i: usize = 0;
        while i < HASH_SIZE
            invariant
                i <= 32,
                zeros == i,
                leading_bits_zero(self.0@, i as int),
            decreases 32 - i,
        {
            let x = self.0[i / 8];
            let y = 0x80u8 >> ((i % 8) as u8);
            if x & y != 0 {
                assert(bit_set(self.0@, i as int));
                return zeros;
            }
            zeros = zeros + 1;
            i = i + 1;
        }
        zeros
    }

    /// Whether every byte is zero.
    pub fn is_null(&self) -> (r: bool)
        ensures
            r == (self.0@ == Seq::new(32, |i: int| 0u8)),
    {
        let z = hash_null();
        bytes_eq(self.0.as_slice(), z.0.as_slice())
    }

    /// Parses 64 hexadecimal digits.
    pub fn from_str(s: &str) -> (r: Result<Hash, HashError>)
        ensures
            match spec_hex_decode(vstd::utf8::encode_utf8(s@)) {
                Some(d) => if d.len() == 32 {
                    r matches Ok(h) && h.0@ == d
                } else {
                    r == Err::<Hash, HashError>(HashError::InvalidHash)
                },
                None => r == Err::<Hash, HashError>(HashError::InvalidHash),
            },
    {
        let v = match hex_decode(s.as_bytes()) {
            Some(v) => v,
            None => return Err(HashError::InvalidHash),
        };
        if v.len() != HASH_SIZE {
            return Err(HashError::InvalidHash);
        }
        let mut ret_bytes = [0u8; 32];
        let mut i: usize = 0;
        while i < 32
            invariant
                v@.len() == 32,
                i <= 32,
                forall|k: int| 0 <= k < i ==> ret_bytes@[k] == v@[k],
            decreases 32 - i,
        {
            ret_bytes[i] = v[i];
            i = i + 1;
        }
        assert(ret_bytes@ =~= v@);
        Ok(Hash(ret_bytes))
    }

    /// The bytes of the hash.
    pub fn as_ref(&self) -> (r: &[u8])
        ensures
            r@ == self.0@,
    {
        self.0.as_slice()
    }
}

impl Hash {
    /// The hash in lower-case hexadecimal, as it is logged.
    pub fn to_hex(&self) -> (r: String)
        ensures
            vstd::utf8::encode_utf8(r@) == spec_hex_encode(self.0@, false),
    {
        hex_encode(self.0.as_slice())
    }
}

impl Default for Hash {
    /// The all-zero hash.
    fn default() -> (h: Hash)
        ensures
            h.0@ == Seq::new(32, |i: int| 0u8),
    {
        hash_null()
    }
}

/// Failure to parse an address.
#[derive(Copy, Clone, Debug, PartialEq, Eq, Structural)]
pub enum AddressError {
    InvalidAddress,
}

/// Failure to parse a hash.
#[derive(Copy, Clone, Debug, PartialEq, Eq, Structural)]
pub enum HashError {
    InvalidHash,
}

/// Weighted byte sum, modulo 256, of the first `n` bytes: bytes at even indices
/// count once, bytes at odd indices twice.
pub open spec fn checksum_prefix(b: Seq<u8>, n: nat) -> nat
    decreases n,
{
    if n == 0 {
        0
    } else {
        let w: nat = if (n - 1) % 2 == 0 { 1 } else { 2 };
        (checksum_prefix(b, (n - 1) as nat) + w * (b[n - 1] as nat)) % 256
    }
}

/// The address text: the letter `P` followed by 42 hexadecimal digits.
pub open spec fn spec_address_from_text(t: Seq<u8>) -> Option<Seq<u8>> {
    if t.len() == 0 || t[0] != 80 {
        None
    } else {
        match spec_hex_decode(t.skip(1)) {
            Some(d) => if d.len() == 21 {
                Some(d)
            } else {
                None
            },
            None => None,
        }
    }
}

impl Address {
    /// Whether every byte is zero.
    pub fn is_null(&self) -> (r: bool)
        ensures
            r == (self.0@ == Seq::new(21, |i: int| 0u8)),
    {
        let z = address_null();
        bytes_eq(self.0.as_slice(), z.0.as_slice())
    }

    /// Whether the last byte is the checksum of the twenty before it.
    pub fn verify(&self) -> (r: bool)
        ensures
            r == (checksum_prefix(self.0@, 20) == self.0@[20] as nat),
    {
        let key = vstd::slice::slice_subrange(self.0.as_slice(), 0, ADDRESS_SIZE - 1);
        let c = Address::calculate_checksum(key);
        proof {
            lemma_checksum_prefix_eq(key@, self.0@, 20);
        }
        c == self.0[ADDRESS_SIZE - 1]
    }

    /// The address checksum: bytes at even indices count once, bytes at odd
    /// indices twice, summed modulo 256.
    pub fn calculate_checksum(bytes: &[u8]) -> (r: u8)
        ensures
            r as nat == checksum_prefix(bytes@, bytes@.len()),
    {
        let mut checksum_byte: u16 = 0;
        let mut i: usize = 0;
        while i < bytes.len()
            invariant
                i <= bytes@.len(),
                checksum_byte < 256,
                checksum_byte as nat == checksum_prefix(bytes@, i as nat),
            decreases bytes@.len() - i,
        {
            let b = bytes[i] as u16;
            if i % 2 == 0 {
                checksum_byte = checksum_byte + b;
            } else {
                checksum_byte = checksum_byte + b * 2;
            }
            checksum_byte = checksum_byte % 256;
            i = i + 1;
        }
        checksum_byte as u8
    }

    /// The address of a public key: the last twenty bytes of the SHA3-256 digest of
    /// the key's uncompressed form, then their checksum; `None` when the bytes are
    /// not a key.
    pub fn from_public_key(pk: &PublicKey) -> (r: Option<Address>)
        ensures
            match spec_uncompressed_key(pk@) {
                None => r is None,
                Some(u) => r matches Some(a) && a.0@ == spec_address_of_digest(spec_sha3_256(u)),
            },
    {
        let u = match uncompressed_key(pk) {
            Some(u) => u,
            None => return None,
        };
        let buf = sha3_256_digest(u.as_slice());
        let offset: usize = 32 - ADDRESS_SIZE + 1;
        let tail = vstd::slice::slice_subrange(buf.as_slice(), offset, 32);
        let checksum_byte = Address::calculate_checksum(tail);
        let mut addr = [0u8; 21];
        let mut i: usize = 0;
        while i < 20
            invariant
                i <= 20,
                offset == 12,
                tail@ == buf@.subrange(12, 32),
                forall|k: int| 0 <= k < i ==> addr@[k] == buf@[12 + k],
            decreases 20 - i,
        {
            addr[i] = buf[offset + i];
            i = i + 1;
        }
        addr[20] = checksum_byte;
        assert(addr@ =~= spec_address_of_digest(buf@));
        Some(Address(addr))
    }

    /// Parses the letter `P` followed by 42 hexadecimal digits.
    pub fn from_str(s: &str) -> (r: Result<Address, AddressError>)
        ensures
            match spec_address_from_text(vstd::utf8::encode_utf8(s@)) {
                Some(d) => r matches Ok(a) && a.0@ == d,
                None => r == Err::<Address, AddressError>(AddressError::InvalidAddress),
            },
    {
        let t = s.as_bytes();
        if t.len() == 0 || t[0] != 80u8 {
            return Err(AddressError::InvalidAddress);
        }
        let rest = vstd::slice::slice_subrange(t, 1, t.len());
        assert(rest@ =~= t@.skip(1));
        let v = match hex_decode(rest) {
            Some(v) => v,
            None => return Err(AddressError::InvalidAddress),
        };
        if v.len() != ADDRESS_SIZE {
            return Err(AddressError::InvalidAddress);
        }
        let mut ret_bytes = [0u8; 21];
        let mut i: usize = 0;
        while i < 21
            invariant
                v@.len() == 21,
                i <= 21,
                forall|k: int| 0 <= k < i ==> ret_bytes@[k] == v@[k],
            decreases 21 - i,
        {
            ret_bytes[i] = v[i];
            i = i + 1;
        }
        assert(ret_bytes@ =~= v@);
        Ok(Address(ret_bytes))
    }

    /// The bytes of the address.
    pub fn as_ref(&self) -> (r: &[u8])
        ensures
            r@ == self.0@,
    {
        self.0.as_slice()
    }
}

/// The text of an address: the letter `P`, then its bytes in upper-case
/// hexadecimal.
pub open spec fn spec_address_text(a: Seq<u8>) -> Seq<u8> {
    seq![80u8] + spec_hex_encode(a, true)
}

/// The text of an address reads back as the address.
pub proof fn law_address_text_roundtrip(a: Seq<u8>)
    requires
        a.len() == 21,
    ensures
        spec_address_from_text(spec_address_text(a)) == Some(a),
{
    law_hex_roundtrip(a, true);
    lemma_hex_encode_len(a, true);
    assert(spec_address_text(a).skip(1) =~= spec_hex_encode(a, true));
}

impl Address {
    /// The address as it is written: `P`, then its bytes in upper-case hexadecimal.
    pub fn to_text(&self) -> (r: String)
        ensures
            vstd::utf8::encode_utf8(r@) == spec_address_text(self.0@),
    {
        let mut out: Vec<u8> = Vec::new();
        out.push(80u8);
        let mut i: usize = 0;
        proof {
            lemma_hex_encode_len(self.0@, true);
        }
        while i < 21
            invariant
                i <= 21,
                out@ == seq![80u8] + spec_hex_encode(self.0@.take(i as int), true),
            decreases 21 - i,
        {
            let b = self.0[i];
            let hi = b / 16;
            let lo = b % 16;
            let dh: u8 = if hi < 10 { 48 + hi } else { 55 + hi };
            let dl: u8 = if lo < 10 { 48 + lo } else { 55 + lo };
            out.push(dh);
            out.push(dl);
            proof {
                lemma_hex_encode_append(self.0@.take(i as int), b, true);
                assert(self.0@.take(i + 1) =~= self.0@.take(i as int).push(b));
            }
            i = i + 1;
        }
        assert(self.0@.take(21) =~= self.0@);
        proof {
            lemma_hex_encode_len(self.0@, true);
            assert forall|k: int| 0 <= k < out@.len() implies #[trigger] out@[k] < 128 by {
                if k > 0 {
                    assert(out@[k] == spec_hex_encode(self.0@, true)[k - 1]);
                }
            }
            crate::transaction::decimal::lemma_ascii_valid(out@);
        }
        match crate::pm::serializable::string_from_utf8(out) {
            Some(s) => s,
            None => {
                proof {
                    assert(false);
                }
                String::new()
            },
        }
    }
}

proof fn lemma_hex_encode_append(b: Seq<u8>, x: u8, upper: bool)
    ensures
        spec_hex_encode(b.push(x), upper) == spec_hex_encode(b, upper) + seq![hex_digit(x / 16, upper), hex_digit(x % 16, upper)],
    decreases b.len(),
{
    if b.len() == 0 {
        assert(b.push(x).skip(1) =~= Seq::<u8>::empty());
        assert(spec_hex_encode(b.push(x).skip(1), upper) =~= Seq::<u8>::empty());
        assert(spec_hex_encode(b, upper) =~= Seq::<u8>::empty());
        assert(spec_hex_encode(b.push(x), upper) =~= seq![hex_digit(x / 16, upper), hex_digit(x % 16, upper)]);
    } else {
        lemma_hex_encode_append(b.skip(1), x, upper);
        assert(b.push(x).skip(1) =~= b.skip(1).push(x));
        assert(spec_hex_encode(b.push(x), upper) =~= spec_hex_encode(b, upper) + seq![hex_digit(x / 16, upper), hex_digit(x % 16, upper)]);
    }
}

impl Default for Address {
    /// The all-zero address.
    fn default() -> (a: Address)
        ensures
            a.0@ == Seq::new(21, |i: int| 0u8),
    {
        address_null()
    }
}

/// The checksum of a prefix depends only on the bytes of that prefix.
proof fn lemma_checksum_prefix_eq(a: Seq<u8>, b: Seq<u8>, n: nat)
    requires
        n <= a.len(),
        n <= b.len(),
        forall|i: int| 0 <= i < n ==> a[i] == b[i],
    ensures
        checksum_prefix(a, n) == checksum_prefix(b, n),
    decreases n,
{
    if n > 0 {
        lemma_checksum_prefix_eq(a, b, (n - 1) as nat);
    }
}

/// The address made from a 32-byte digest: its last twenty bytes and their checksum.
pub open spec fn spec_address_of_digest(d: Seq<u8>) -> Seq<u8> {
    d.subrange(12, 32).push(checksum_prefix(d.subrange(12, 32), 20) as u8)
}

/// Every address made from a key's digest passes `verify`: its last byte is the
/// checksum of the twenty before it.
pub proof fn law_key_address_verifies(d: Seq<u8>)
    requires
        d.len() == 32,
    ensures
        spec_address_of_digest(d).len() == 21,
        checksum_prefix(spec_address_of_digest(d), 20) == spec_address_of_digest(d)[20] as nat,
{
    let a = spec_address_of_digest(d);
    let t = d.subrange(12, 32);
    lemma_checksum_prefix_eq(a, t, 20);
    lemma_checksum_below_256(t, 20);
}

proof fn lemma_checksum_below_256(b: Seq<u8>, n: nat)
    ensures
        checksum_prefix(b, n) < 256,
{
    if n > 0 {
        let w: nat = if (n - 1) % 2 == 0 { 1 } else { 2 };
        assert((checksum_prefix(b, (n - 1) as nat) + w * (b[n - 1] as nat)) % 256 < 256);
    }
}


/// An account: an address and a 32-bit counter.
#[derive(Clone, Copy, Debug)]
pub struct Account(pub Address, pub u32);

/// Whether a transaction is known only by its hash or in full.
#[derive(Clone, Copy, Debug, PartialEq, Eq, Structural)]
pub enum TransactionType {
    HashOnly,
    Full,
}

/// The data of a transaction.
#[derive(Clone, Debug)]
pub struct TransactionObject {
    pub address: Address,
    pub attachment_timestamp: u64,
    pub attachment_timestamp_lower_bound: u64,
    pub attachment_timestamp_upper_bound: u64,
    pub branch_transaction: Hash,
    pub trunk_transaction: Hash,
    pub hash: Hash,
    pub nonce: u64,
    pub tag: Hash,
    pub timestamp: u64,
    pub value: u32,
    pub data_type: TransactionType,
    pub signature: Signature,
    pub signature_pubkey: PublicKey,
    pub snapshot: u32,
    pub solid: bool,
    pub height: u64,
    pub data: String,
}

/// Compact form of the signature that a transaction made only from a hash carries.
pub const DEFAULT_SIGNATURE: [u8; 64] = [
    198, 75, 25, 36, 21, 119, 72, 101, 39, 51, 196, 18, 148, 229, 246, 227, 149, 195, 98, 106, 142,
    145, 31, 55, 66, 164, 184, 173, 79, 219, 146, 47, 52, 123, 165, 205, 214, 41, 2, 126, 245, 132,
    110, 184, 92, 148, 82, 246, 49, 46, 10, 234, 105, 118, 37, 214, 107, 32, 36, 72, 243, 233, 97,
    143,
];

/// Compressed public key that a transaction made only from a hash carries.
pub const DEFAULT_PUBKEY: [u8; 33] = [
    3, 27, 132, 197, 86, 123, 18, 100, 64, 153, 93, 62, 213, 170, 186, 5, 101, 215, 30, 24, 52, 96,
    72, 25, 255, 156, 23, 245, 233, 213, 221, 7, 143,
];

impl TransactionObject {
    /// The serialization identifier of a transaction object.
    pub const SVUID: i32 = 342631123;

    /// An empty transaction object with the zero hash.
    pub fn new() -> (t: TransactionObject)
        ensures
            t.hash.0@ == Seq::new(32, |i: int| 0u8),
            t.data_type == TransactionType::HashOnly,
            !t.solid,
    {
        TransactionObject::from_hash(hash_null())
    }

    /// An empty transaction object that carries only `hash`: zero fields, the
    /// null address, a fixed placeholder signature and key, no data.
    pub fn from_hash(hash: Hash) -> (t: TransactionObject)
        ensures
            t.hash == hash,
            t.address.0@ == Seq::new(21, |i: int| 0u8),
            t.branch_transaction.0@ == Seq::new(32, |i: int| 0u8),
            t.trunk_transaction.0@ == Seq::new(32, |i: int| 0u8),
            t.tag.0@ == Seq::new(32, |i: int| 0u8),
            t.attachment_timestamp == 0,
            t.attachment_timestamp_lower_bound == 0,
            t.attachment_timestamp_upper_bound == 0,
            t.nonce == 0,
            t.timestamp == 0,
            t.value == 0,
            t.data_type == TransactionType::HashOnly,
            t.signature == DEFAULT_SIGNATURE,
            t.signature_pubkey == DEFAULT_PUBKEY,
            t.snapshot == 0,
            !t.solid,
            t.height == 0,
            t.data@ == Seq::<char>::empty(),
    {
        TransactionObject {
            address: address_null(),
            attachment_timestamp: 0u64,
            attachment_timestamp_lower_bound: 0u64,
            attachment_timestamp_upper_bound: 0u64,
            branch_transaction: hash_null(),
            trunk_transaction: hash_null(),
            hash,
            nonce: 0u64,
            tag: hash_null(),
            timestamp: 0u64,
            value: 0u32,
            data_type: TransactionType::HashOnly,
            signature: DEFAULT_SIGNATURE,
            signature_pubkey: DEFAULT_PUBKEY,
            snapshot: 0u32,
            solid: false,
            height: 0,
            data: String::new(),
        }
    }

    /// The index of the snapshot the transaction belongs to.
    pub fn get_snapshot_index(&self) -> (r: u32)
        ensures
            r == self.snapshot,
    {
        return self.snapshot;
    }
}

/// The bytes a transaction hash is computed over: address, value (four bytes,
/// little-endian), timestamp (eight bytes, little-endian), tag and data.
pub open spec fn spec_hash_input(o: TransactionObject) -> Seq<u8> {
    o.address.0@ + le_u32(o.value) + le_u64(o.timestamp) + o.tag.0@ + vstd::utf8::encode_utf8(
        o.data@,
    )
}

/// The bytes the proof of work is computed over for a nonce: the branch hash,
/// the trunk hash and eight zero bytes, where every nonce after the first is
/// written over bytes 40 to 47.
pub open spec fn spec_nonce_input(branch: Seq<u8>, trunk: Seq<u8>, nonce: u64) -> Seq<u8> {
    if nonce == 0 {
        branch + trunk + le_u64(0)
    } else {
        branch + trunk.take(8) + le_u64(nonce) + trunk.skip(16) + le_u64(0)
    }
}

/// The bytes the proof of work of a finished transaction is checked over: branch
/// hash, trunk hash and nonce (eight bytes, little-endian).
pub open spec fn spec_pow_input(o: TransactionObject) -> Seq<u8> {
    o.branch_transaction.0@ + o.trunk_transaction.0@ + le_u64(o.nonce)
}

/// The hash of a transaction covers each of its fields at a fixed place: the 21
/// address bytes, the value as the next 4 bytes read little-endian, the
/// timestamp as the next 8, the 32 tag bytes, and then the data's UTF-8.
pub proof fn law_hash_input_layout(o: TransactionObject)
    ensures
        spec_hash_input(o).len() == 65 + vstd::utf8::encode_utf8(o.data@).len(),
        spec_hash_input(o).subrange(0, 21) == o.address.0@,
        u32_from_le(spec_hash_input(o).subrange(21, 25)) == o.value,
        u64_from_le(spec_hash_input(o).subrange(25, 33)) == o.timestamp,
        spec_hash_input(o).subrange(33, 65) == o.tag.0@,
        spec_hash_input(o).skip(65) == vstd::utf8::encode_utf8(o.data@),
{
    crate::pm::serializable::lemma_le_u32_roundtrip(o.value);
    crate::pm::serializable::lemma_le_u64_roundtrip(o.timestamp);
    let h = spec_hash_input(o);
    assert(h.subrange(0, 21) =~= o.address.0@);
    assert(h.subrange(21, 25) =~= le_u32(o.value));
    assert(h.subrange(25, 33) =~= le_u64(o.timestamp));
    assert(h.subrange(33, 65) =~= o.tag.0@);
    assert(h.skip(65) =~= vstd::utf8::encode_utf8(o.data@));
}

/// Two transactions whose hash inputs are equal agree on address, value,
/// timestamp, tag and data: in particular transactions that differ only in their
/// value have different hash inputs, so the hash (and the signature over it)
/// covers the amount.
pub proof fn law_hash_input_determines_fields(o1: TransactionObject, o2: TransactionObject)
    requires
        spec_hash_input(o1) == spec_hash_input(o2),
    ensures
        o1.address.0@ == o2.address.0@,
        o1.value == o2.value,
        o1.timestamp == o2.timestamp,
        o1.tag.0@ == o2.tag.0@,
        o1.data@ == o2.data@,
{
    law_hash_input_layout(o1);
    law_hash_input_layout(o2);
    vstd::utf8::encode_utf8_decode_utf8(o1.data@);
    vstd::utf8::encode_utf8_decode_utf8(o2.data@);
}

/// The proof of work is checked over the 32 branch-hash bytes, then the 32
/// trunk-hash bytes, then the nonce as 8 bytes read little-endian; for the first
/// nonce a search tries (zero) this is exactly the input `find_nonce` hashes.
pub proof fn law_pow_input_layout(o: TransactionObject)
    ensures
        spec_pow_input(o).len() == 72,
        spec_pow_input(o).subrange(0, 32) == o.branch_transaction.0@,
        spec_pow_input(o).subrange(32, 64) == o.trunk_transaction.0@,
        u64_from_le(spec_pow_input(o).subrange(64, 72)) == o.nonce,
        o.nonce == 0 ==> spec_pow_input(o) == spec_nonce_input(
            o.branch_transaction.0@,
            o.trunk_transaction.0@,
            0,
        ),
{
    crate::pm::serializable::lemma_le_u64_roundtrip(o.nonce);
    let p = spec_pow_input(o);
    assert(p.subrange(0, 32) =~= o.branch_transaction.0@);
    assert(p.subrange(32, 64) =~= o.trunk_transaction.0@);
    assert(p.subrange(64, 72) =~= le_u64(o.nonce));
    if o.nonce == 0 {
        assert(p =~= spec_nonce_input(o.branch_transaction.0@, o.trunk_transaction.0@, 0));
    }
}

/// The checksum before the reduction modulo 256: bytes at even indices count once,
/// at odd indices twice.
spec fn checksum_sum(b: Seq<u8>, n: nat) -> int
    decreases n,
{
    if n == 0 {
        0
    } else {
        checksum_sum(b, (n - 1) as nat) + (if (n - 1) % 2 == 0 { 1int } else { 2int }) * b[n - 1]
    }
}

proof fn lemma_checksum_is_sum(b: Seq<u8>, n: nat)
    ensures
        checksum_prefix(b, n) == checksum_sum(b, n) % 256,
    decreases n,
{
    if n > 0 {
        lemma_checksum_is_sum(b, (n - 1) as nat);
        let w: int = if (n - 1) % 2 == 0 { 1 } else { 2 };
        vstd::arithmetic::div_mod::lemma_add_mod_noop(checksum_sum(b, (n - 1) as nat), w * b[n - 1], 256);
        vstd::arithmetic::div_mod::lemma_mod_twice(w * b[n - 1], 256);
        vstd::arithmetic::div_mod::lemma_add_mod_noop(checksum_sum(b, (n - 1) as nat) % 256, w * b[n - 1], 256);
        vstd::arithmetic::div_mod::lemma_mod_twice(checksum_sum(b, (n - 1) as nat), 256);
    }
}

proof fn lemma_checksum_sum_bump(b: Seq<u8>, i: int, n: nat)
    requires
        0 <= i < b.len(),
        n <= b.len(),
        b[i] < 255,
    ensures
        checksum_sum(b.update(i, (b[i] + 1) as u8), n) == checksum_sum(b, n) + (if i < n {
            if i % 2 == 0 { 1int } else { 2int }
        } else {
            0int
        }),
    decreases n,
{
    if n > 0 {
        lemma_checksum_sum_bump(b, i, (n - 1) as nat);
    }
}

/// Each byte of the key counts with the weight of its place: raising the byte at
/// index `i` by one raises the checksum by one when `i` is even and by two when
/// `i` is odd, modulo 256.
pub proof fn law_checksum_weights(b: Seq<u8>, i: int)
    requires
        0 <= i < b.len(),
        b[i] < 255,
    ensures
        checksum_prefix(b.update(i, (b[i] + 1) as u8), b.len()) == (checksum_prefix(b, b.len()) + (
        if i % 2 == 0 {
            1int
        } else {
            2int
        })) % 256,
{
    let b2 = b.update(i, (b[i] + 1) as u8);
    let w: int = if i % 2 == 0 { 1 } else { 2 };
    lemma_checksum_is_sum(b, b.len());
    lemma_checksum_is_sum(b2, b2.len());
    lemma_checksum_sum_bump(b, i, b.len());
    vstd::arithmetic::div_mod::lemma_add_mod_noop(checksum_sum(b, b.len()), w, 256);
    vstd::arithmetic::div_mod::lemma_mod_twice(checksum_sum(b, b.len()), 256);
    vstd::arithmetic::div_mod::lemma_add_mod_noop(checksum_sum(b, b.len()) % 256, w, 256);
}

/// The set of hashes of transactions that approve a transaction.
#[derive(Clone, Debug)]
pub struct Approvee {
    set: Vec<Hash>,
}

impl View for Approvee {
    type V = Set<Hash>;

    closed spec fn view(&self) -> Set<Hash> {
        self.set@.to_set()
    }
}

impl Approvee {
    /// No approvers.
    pub fn new_empty() -> (a: Approvee)
        ensures
            a@ == Set::<Hash>::empty(),
    {
        let a = Approvee { set: Vec::new() };
        assert(a.set@.to_set() =~= Set::<Hash>::empty());
        a
    }

    /// The approvers in `set`.
    pub fn new(set: Vec<Hash>) -> (a: Approvee)
        ensures
            a@ == set@.to_set(),
    {
        Approvee { set }
    }

    /// The approvers.
    pub fn get_hashes(&self) -> (r: Vec<Hash>)
        ensures
            r@.to_set() == self@,
    {
        let r = self.set.clone();
        assert(r@ =~= self.set@);
        r
    }
}


/// The digit of the standard base64 alphabet for the six-bit value `v`:
/// `A`-`Z`, `a`-`z`, `0`-`9`, `+`, `/`.
pub open spec fn base64_digit(v: int) -> char {
    if v < 26 {
        (65 + v) as char
    } else if v < 52 {
        (97 + v - 26) as char
    } else if v < 62 {
        (48 + v - 52) as char
    } else if v == 62 {
        '+'
    } else {
        '/'
    }
}

/// The standard base64 text (with padding) of a byte sequence: each three bytes
/// become four digits of six bits each, high bits first; a last group of one or
/// two bytes is filled with zero bits and padded with `=` to four characters.
pub open spec fn spec_base64(data: Seq<u8>) -> Seq<char>
    decreases data.len(),
{
    if data.len() == 0 {
        Seq::empty()
    } else if data.len() == 1 {
        seq![base64_digit((data[0] / 4) as int), base64_digit((data[0] % 4) * 16), '=', '=']
    } else if data.len() == 2 {
        seq![
            base64_digit((data[0] / 4) as int),
            base64_digit((data[0] % 4) * 16 + data[1] / 16),
            base64_digit((data[1] % 16) * 4),
            '=',
        ]
    } else {
        seq![
            base64_digit((data[0] / 4) as int),
            base64_digit((data[0] % 4) * 16 + data[1] / 16),
            base64_digit((data[1] % 16) * 4 + data[2] / 64),
            base64_digit((data[2] % 64) as int),
        ] + spec_base64(data.skip(3))
    }
}

/// Encodes bytes with the standard base64 alphabet and padding
/// (`base64::engine::general_purpose::STANDARD`). Claimed: the text is
/// `spec_base64` of the bytes, the encoding of RFC 4648 that the crate documents.
#[verifier::external_body]
fn base64_encode(data: &[u8]) -> (r: String)
    ensures
        r@ == spec_base64(data@),
{
    base64::Engine::encode(&base64::engine::general_purpose::STANDARD, data)
}

/// A transaction: its data, its serialized bytes, its weight magnitude (leading
/// zero bits of its hash) and the approvers loaded so far.
pub struct Transaction {
    pub object: TransactionObject,
    pub bytes: SerializedBuffer,
    pub weight_magnitude: u16,
    pub approvers: Option<Approvee>,
}

/// `bytes` written into a buffer whose position is zero; a buffer already
/// written to is left as it is.
pub open spec fn spec_bytes_after_fill(b: BufferView, bytes: Seq<u8>) -> BufferView {
    if b.position == 0 {
        b.write(bytes)
    } else {
        b
    }
}

/// A buffer accepts the bytes of a serialized object when its position is zero.
pub open spec fn can_fill(b: BufferView, bytes: Seq<u8>) -> bool {
    b.position == 0 ==> (b.in_bounds(bytes.len()) && (b.calculate ==> b.capacity + bytes.len()
        <= usize::MAX))
}

impl Transaction {
    /// The kind of the transaction.
    pub fn get_type(&self) -> (r: TransactionType)
        ensures
            r == self.object.data_type,
    {
        self.object.data_type
    }

    /// The hash of the transaction.
    pub fn get_hash(&self) -> (r: Hash)
        ensures
            r == self.object.hash,
    {
        self.object.hash
    }

    /// Whether the transaction is solid.
    pub fn is_solid(&self) -> (r: bool)
        ensures
            r == self.object.solid,
    {
        self.object.solid
    }

    /// The approvers: those cached, else those `loaded` from storage (none when
    /// nothing was stored), which are then cached.
    pub fn get_approvers(&mut self, loaded: Option<Vec<Hash>>) -> (r: Vec<Hash>)
        ensures
            final(self).object == old(self).object,
            final(self).bytes@ == old(self).bytes@,
            final(self).weight_magnitude == old(self).weight_magnitude,
            match old(self).approvers {
                Some(a) => r@.to_set() == a@ && final(self).approvers == old(self).approvers,
                None => match loaded {
                    Some(v) => r@.to_set() == v@.to_set() && (final(self).approvers matches Some(
                        a) && a@ == v@.to_set()),
                    None => r@.len() == 0 && (final(self).approvers matches Some(a) && a@
                        == Set::<Hash>::empty()),
                },
            },
    {
        match &self.approvers {
            Some(aprv) => aprv.get_hashes(),
            None => match loaded {
                Some(v) => {
                    let hashes = v.clone();
                    assert(hashes@ =~= v@);
                    self.approvers = Some(Approvee::new(v));
                    hashes
                },
                None => {
                    self.approvers = Some(Approvee::new_empty());
                    Vec::new()
                },
            },
        }
    }

    /// Sets the height.
    pub fn update_height(&mut self, height: u64)
        ensures
            final(self).object == (TransactionObject { height, ..old(self).object }),
            final(self).bytes@ == old(self).bytes@,
            final(self).weight_magnitude == old(self).weight_magnitude,
            final(self).approvers == old(self).approvers,
    {
        self.object.height = height;
    }

    /// The height.
    pub fn get_height(&self) -> (r: u64)
        ensures
            r == self.object.height,
    {
        self.object.height
    }

    /// The trunk hash.
    pub fn get_trunk_transaction_hash(&self) -> (r: Hash)
        ensures
            r == self.object.trunk_transaction,
    {
        self.object.trunk_transaction
    }

    /// The branch hash.
    pub fn get_branch_transaction_hash(&self) -> (r: Hash)
        ensures
            r == self.object.branch_transaction,
    {
        self.object.branch_transaction
    }

    /// A transaction made of `transaction` and its serialized `bytes`, with the
    /// weight magnitude of its hash and no approvers loaded.
    pub fn from_object(transaction: TransactionObject, bytes: SerializedBuffer) -> (t: Transaction)
        ensures
            t.object == transaction,
            t.bytes@ == bytes@,
            leading_bits_zero(transaction.hash.0@, t.weight_magnitude as int),
            t.weight_magnitude <= 32,
            t.weight_magnitude < 32 ==> bit_set(transaction.hash.0@, t.weight_magnitude as int),
            t.approvers is None,
    {
        Transaction {
            weight_magnitude: transaction.hash.trailing_zeros(),
            object: transaction,
            bytes,
            approvers: None,
        }
    }

    /// A transaction made of `bytes` and the object read from them.
    pub fn from_bytes(bytes: SerializedBuffer, transaction: TransactionObject) -> (t: Transaction)
        ensures
            t.object == transaction,
            t.bytes@ == bytes@,
            leading_bits_zero(transaction.hash.0@, t.weight_magnitude as int),
            t.weight_magnitude <= 32,
            t.weight_magnitude < 32 ==> bit_set(transaction.hash.0@, t.weight_magnitude as int),
            t.approvers is None,
    {
        Transaction::from_object(transaction, bytes)
    }

    /// An empty transaction that carries only `hash`, with the serialized `bytes`
    /// of that empty object.
    pub fn from_hash(hash: Hash, bytes: SerializedBuffer) -> (t: Transaction)
        ensures
            t.object.hash == hash,
            t.object.data_type == TransactionType::HashOnly,
            t.bytes@ == bytes@,
            leading_bits_zero(hash.0@, t.weight_magnitude as int),
            t.weight_magnitude <= 32,
            t.weight_magnitude < 32 ==> bit_set(hash.0@, t.weight_magnitude as int),
            t.approvers is None,
    {
        Transaction::from_object(TransactionObject::from_hash(hash), bytes)
    }

    /// An empty transaction with the zero hash.
    pub fn new(bytes: SerializedBuffer) -> (t: Transaction)
        ensures
            t.object.hash.0@ == Seq::new(32, |i: int| 0u8),
            t.bytes@ == bytes@,
            t.weight_magnitude == 32,
            t.approvers is None,
    {
        let t = Transaction::from_hash(hash_null(), bytes);
        proof {
            if t.weight_magnitude < 32 {
                let z = t.object.hash.0@;
                let w = t.weight_magnitude as int;
                assert(z[w / 8] == 0u8);
                assert(0u8 & (0x80u8 >> ((w % 8) as u8)) == 0) by (bit_vector);
            }
        }
        t
    }

    /// Writes the object's serialized bytes into the transaction's buffer when
    /// nothing was written there yet.
    fn fill_bytes(&mut self, object_bytes: &[u8])
        requires
            can_fill(old(self).bytes@, object_bytes@),
        ensures
            final(self).object == old(self).object,
            final(self).bytes@ == spec_bytes_after_fill(old(self).bytes@, object_bytes@),
            final(self).weight_magnitude == old(self).weight_magnitude,
            final(self).approvers == old(self).approvers,
    {
        if self.bytes.position() == 0 {
            let _ = self.bytes.write_bytes(object_bytes);
        }
    }

    /// The hash of the transaction: SHA3-256 over its address, value, timestamp,
    /// tag and data. The object's serialized bytes are first written into the
    /// transaction's buffer when nothing was written there yet.
    pub fn calculate_hash(&mut self, object_bytes: &[u8]) -> (r: Hash)
        requires
            can_fill(old(self).bytes@, object_bytes@),
            vstd::utf8::encode_utf8(old(self).object.data@).len() + 65 <= usize::MAX,
        ensures
            r.0@ == spec_sha3_256(spec_hash_input(old(self).object)),
            final(self).object == old(self).object,
            final(self).bytes@ == spec_bytes_after_fill(old(self).bytes@, object_bytes@),
            final(self).weight_magnitude == old(self).weight_magnitude,
            final(self).approvers == old(self).approvers,
    {
        self.fill_bytes(object_bytes);
        let input = hash_input(&self.object);
        let bytes = input.as_ref();
        assert(bytes@ =~= spec_hash_input(self.object));
        Hash(sha3_256_digest(bytes))
    }

    /// The smallest nonce whose input as this search builds it has a digest with
    /// `mwm` leading zero bits; `None` when no 64-bit nonce has one. The search
    /// hashes branch, trunk and eight zero bytes first, and then writes each next
    /// nonce over bytes 40 to 47 (inside the trunk hash), leaving the last eight
    /// bytes zero: see `spec_nonce_input`.
    pub fn find_nonce(&self, mwm: u32) -> (r: Option<u64>)
        requires
            mwm <= 256,
        ensures
            r matches Some(n) ==> leading_bits_zero(
                spec_sha3_256(
                    spec_nonce_input(
                        self.object.branch_transaction.0@,
                        self.object.trunk_transaction.0@,
                        n,
                    ),
                ),
                mwm as int,
            ) && forall|m: u64|
                m < n ==> !leading_bits_zero(
                    #[trigger] spec_sha3_256(
                        spec_nonce_input(
                            self.object.branch_transaction.0@,
                            self.object.trunk_transaction.0@,
                            m,
                        ),
                    ),
                    mwm as int,
                ),
            r is None ==> forall|m: u64|
                !leading_bits_zero(
                    #[trigger] spec_sha3_256(
                        spec_nonce_input(
                            self.object.branch_transaction.0@,
                            self.object.trunk_transaction.0@,
                            m,
                        ),
                    ),
                    mwm as int,
                ),
    {
        let ghost b = self.object.branch_transaction.0@;
        let ghost t = self.object.trunk_transaction.0@;
        let mut in_buf: Vec<u8> = Vec::new();
        let mut i: usize = 0;
        while i < 32
            invariant
                i <= 32,
                b == self.object.branch_transaction.0@,
                in_buf@ == b.take(i as int),
            decreases 32 - i,
        {
            in_buf.push(self.object.branch_transaction.0[i]);
            i = i + 1;
            assert(in_buf@ =~= b.take(i as int));
        }
        let mut i: usize = 0;
        while i < 32
            invariant
                i <= 32,
                t == self.object.trunk_transaction.0@,
                in_buf@ == b + t.take(i as int),
                b.len() == 32,
            decreases 32 - i,
        {
            in_buf.push(self.object.trunk_transaction.0[i]);
            i = i + 1;
            assert(in_buf@ =~= b + t.take(i as int));
        }
        let mut i: usize = 0;
        while i < 8
            invariant
                i <= 8,
                in_buf@ == b + t + Seq::new(i as nat, |k: int| 0u8),
                b.len() == 32,
                t.len() == 32,
            decreases 8 - i,
        {
            in_buf.push(0u8);
            i = i + 1;
            assert(in_buf@ =~= b + t + Seq::new(i as nat, |k: int| 0u8));
        }
        assert(le_u64(0) =~= Seq::new(8, |k: int| 0u8)) by {
            assert(0u64 as u8 == 0u8 && (0u64 >> 8u64) as u8 == 0u8 && (0u64 >> 16u64) as u8 == 0u8
                && (0u64 >> 24u64) as u8 == 0u8 && (0u64 >> 32u64) as u8 == 0u8 && (0u64 >> 40u64)
                as u8 == 0u8 && (0u64 >> 48u64) as u8 == 0u8 && (0u64 >> 56u64) as u8 == 0u8)
                by (bit_vector);
        }
        let mut nonce: u64 = 0;
        loop
            invariant
                b.len() == 32,
                t.len() == 32,
                mwm <= 256,
                in_buf@ == spec_nonce_input(b, t, nonce),
                b == self.object.branch_transaction.0@,
                t == self.object.trunk_transaction.0@,
                forall|m: u64|
                    m < nonce ==> !leading_bits_zero(
                        #[trigger] spec_sha3_256(spec_nonce_input(b, t, m)),
                        mwm as int,
                    ),
            decreases u64::MAX - nonce,
        {
            let digest = sha3_256_digest(in_buf.as_slice());
            if meets_weight_magnitude(&digest, mwm) {
                return Some(nonce);
            }
            if nonce == u64::MAX {
                return None;
            }
            let ghost prev = in_buf@;
            nonce = nonce + 1;
            let nb = le_bytes_u64(nonce);
            let mut k: usize = 0;
            while k < 8
                invariant
                    k <= 8,
                    in_buf@.len() == 72,
                    prev.len() == 72,
                    nb@ == le_u64(nonce),
                    forall|j: int| 0 <= j < 72 && (j < 40 || j >= 40 + k) ==> in_buf@[j] == prev[j],
                    forall|j: int| 40 <= j < 40 + k ==> in_buf@[j] == nb@[j - 40],
                decreases 8 - k,
            {
                in_buf.set(40 + k, nb[k]);
                k = k + 1;
            }
            proof {
                let cur = spec_nonce_input(b, t, nonce);
                let pv = spec_nonce_input(b, t, (nonce - 1) as u64);
                assert(pv == prev);
                assert forall|j: int| 0 <= j < 72 implies #[trigger] in_buf@[j] == cur[j] by {
                    if j < 32 {
                        assert(cur[j] == b[j] && pv[j] == b[j]);
                    } else if j < 40 {
                        assert(cur[j] == t[j - 32] && pv[j] == t[j - 32]);
                    } else if j < 48 {
                        assert(cur[j] == le_u64(nonce)[j - 40]);
                    } else if j < 64 {
                        assert(cur[j] == t[j - 32] && pv[j] == t[j - 32]);
                    } else {
                        assert(cur[j] == le_u64(0)[j - 64] && pv[j] == le_u64(0)[j - 64]);
                    }
                }
                assert(in_buf@ =~= cur);
            }
        }
    }

    /// Whether the transaction is solid; when `solid` differs the flag is set and
    /// `true` returned.
    pub fn update_solidity(&mut self, solid: bool) -> (r: bool)
        ensures
            r == (solid != old(self).object.solid),
            final(self).object == (TransactionObject { solid, ..old(self).object }),
            final(self).bytes@ == old(self).bytes@,
            final(self).weight_magnitude == old(self).weight_magnitude,
            final(self).approvers == old(self).approvers,
    {
        if solid != self.object.solid {
            self.object.solid = solid;
            return true;
        }
        false
    }

    /// The transaction's bytes up to its buffer's limit, in base64. The object's
    /// serialized bytes are first written into the buffer when nothing was
    /// written there yet.
    pub fn get_base64_data(&mut self, object_bytes: &[u8]) -> (r: String)
        requires
            can_fill(old(self).bytes@, object_bytes@),
            spec_bytes_after_fill(old(self).bytes@, object_bytes@).limit
                <= spec_bytes_after_fill(old(self).bytes@, object_bytes@).buffer.len(),
        ensures
            final(self).object == old(self).object,
            final(self).bytes@ == spec_bytes_after_fill(old(self).bytes@, object_bytes@),
            r@ == spec_base64(final(self).bytes@.buffer.take(final(self).bytes@.limit as int)),
    {
        self.fill_bytes(object_bytes);
        let all = self.bytes.storage();
        let lim = self.bytes.limit();
        let data = vstd::slice::slice_subrange(all, 0, lim);
        assert(data@ =~= self.bytes@.buffer.take(lim as int));
        base64_encode(data)
    }

    /// The signature of the transaction's hash under `sk`; `None` when `sk` is not
    /// a valid secret key.
    pub fn calculate_signature(&mut self, sk: &PrivateKey, _pk: &PublicKey) -> (r: Option<
        Signature,
    >)
        ensures
            final(self).object == old(self).object,
            final(self).bytes@ == old(self).bytes@,
            final(self).weight_magnitude == old(self).weight_magnitude,
            final(self).approvers == old(self).approvers,
            spec_ecdsa_sign(old(self).object.hash.0@, sk@) is Some <==> r is Some,
            r matches Some(s) ==> spec_ecdsa_sign(old(self).object.hash.0@, sk@) == Some(s@),
    {
        ecdsa_sign(&self.object.hash.0, sk)
    }
}

/// Little-endian bytes of a 64-bit word.
fn le_bytes_u64(v: u64) -> (r: [u8; 8])
    ensures
        r@ == le_u64(v),
{
    let r = [
        v as u8,
        (v >> 8u64) as u8,
        (v >> 16u64) as u8,
        (v >> 24u64) as u8,
        (v >> 32u64) as u8,
        (v >> 40u64) as u8,
        (v >> 48u64) as u8,
        (v >> 56u64) as u8,
    ];
    assert(r@ =~= le_u64(v));
    r
}

/// The bytes a transaction hash is computed over, laid out in a buffer of exactly
/// their length and rewound.
fn hash_input(o: &TransactionObject) -> (sb: SerializedBuffer)
    requires
        vstd::utf8::encode_utf8(o.data@).len() + 65 <= usize::MAX,
    ensures
        sb@.buffer == spec_hash_input(*o),
        sb@.position == 0,
        sb@.limit == spec_hash_input(*o).len(),
{
    let data = o.data.as_str().as_bytes();
    let n = ADDRESS_SIZE + 4 + 8 + HASH_SIZE + data.len();
    let mut sb = SerializedBuffer::new_with_size(n);
    let ghost v0 = sb@;
    let a = o.address.as_ref();
    let _ = sb.write_bytes(a);
    let _ = sb.write_u32(o.value);
    let _ = sb.write_u64(o.timestamp);
    let t = o.tag.as_ref();
    let _ = sb.write_bytes(t);
    let _ = sb.write_bytes(data);
    proof {
        let s1 = a@;
        let s2 = le_u32(o.value);
        let s3 = le_u64(o.timestamp);
        let s4 = t@;
        let s5 = data@;
        crate::pm::serializable::lemma_put_put(v0, s1, s2);
        crate::pm::serializable::lemma_put_put(v0, s1 + s2, s3);
        crate::pm::serializable::lemma_put_put(v0, s1 + s2 + s3, s4);
        crate::pm::serializable::lemma_put_put(v0, s1 + s2 + s3 + s4, s5);
        assert(splice(v0.buffer, 0, s1 + s2 + s3 + s4 + s5) =~= spec_hash_input(*o));
    }
    sb.rewind();
    sb
}

/// Checks a transaction: its hash must be the hash of its contents, the digest of
/// its proof-of-work input must have `mwm` leading zero bits, and its signature
/// must verify against its key. The object's serialized bytes are first written
/// into the transaction's buffer when nothing was written there yet.
pub fn validate_transaction(transaction: &mut Transaction, mwm: u32, object_bytes: &[u8]) -> (r:
    bool)
    requires
        mwm <= 256,
        can_fill(old(transaction).bytes@, object_bytes@),
        vstd::utf8::encode_utf8(old(transaction).object.data@).len() + 65 <= usize::MAX,
    ensures
        final(transaction).object == old(transaction).object,
        final(transaction).bytes@ == spec_bytes_after_fill(old(transaction).bytes@, object_bytes@),
        final(transaction).weight_magnitude == old(transaction).weight_magnitude,
        final(transaction).approvers == old(transaction).approvers,
        r == spec_transaction_valid(old(transaction).object, mwm as int),
{
    let calculated_hash = transaction.calculate_hash(object_bytes);
    if !bytes_eq(transaction.object.hash.as_ref(), calculated_hash.as_ref()) {
        return false;
    }
    let mut in_buf: Vec<u8> = Vec::new();
    let mut i: usize = 0;
    while i < 32
        invariant
            i <= 32,
            in_buf@ == transaction.object.branch_transaction.0@.take(i as int),
        decreases 32 - i,
    {
        in_buf.push(transaction.object.branch_transaction.0[i]);
        i = i + 1;
        assert(in_buf@ =~= transaction.object.branch_transaction.0@.take(i as int));
    }
    let mut i: usize = 0;
    while i < 32
        invariant
            i <= 32,
            in_buf@ == transaction.object.branch_transaction.0@
                + transaction.object.trunk_transaction.0@.take(i as int),
        decreases 32 - i,
    {
        in_buf.push(transaction.object.trunk_transaction.0[i]);
        i = i + 1;
        assert(in_buf@ =~= transaction.object.branch_transaction.0@
            + transaction.object.trunk_transaction.0@.take(i as int));
    }
    let nb = le_bytes_u64(transaction.object.nonce);
    let mut i: usize = 0;
    while i < 8
        invariant
            i <= 8,
            nb@ == le_u64(transaction.object.nonce),
            in_buf@ == transaction.object.branch_transaction.0@
                + transaction.object.trunk_transaction.0@ + nb@.take(i as int),
        decreases 8 - i,
    {
        in_buf.push(nb[i]);
        i = i + 1;
        assert(in_buf@ =~= transaction.object.branch_transaction.0@
            + transaction.object.trunk_transaction.0@ + nb@.take(i as int));
    }
    assert(nb@.take(8) =~= nb@);
    let digest = sha3_256_digest(in_buf.as_slice());
    if !meets_weight_magnitude(&digest, mwm) {
        return false;
    }
    ecdsa_verify(
        &transaction.object.hash.0,
        &transaction.object.signature,
        &transaction.object.signature_pubkey,
    )
}

/// A transaction is valid when its hash is the hash of its contents, its proof of
/// work has `mwm` leading zero bits and its signature verifies.
pub open spec fn spec_transaction_valid(o: TransactionObject, mwm: int) -> bool {
    &&& o.hash.0@ == spec_sha3_256(spec_hash_input(o))
    &&& leading_bits_zero(spec_sha3_256(spec_pow_input(o)), mwm)
    &&& spec_ecdsa_verify(o.hash.0@, o.signature@, o.signature_pubkey@)
}

} // verus!
