use vstd::prelude::*;
use crate::pm::error::{Error, SerializationError};

verus! {

/// Wire value of a serialized `true`.
pub const BOOL_TRUE_ID: u32 = 0x6e4a64b3;

/// Wire value of a serialized `false`.
pub const BOOL_FALSE_ID: u32 = 0x3f5d29c3;

/// `s` with `bytes` laid over it from index `at` on.
pub open spec fn splice(s: Seq<u8>, at: nat, bytes: Seq<u8>) -> Seq<u8> {
    s.take(at as int) + bytes + s.skip((at + bytes.len()) as int)
}

/// Little-endian bytes of a 32-bit word.
pub open spec fn le_u32(v: u32) -> Seq<u8> {
    seq![v as u8, (v >> 8u32) as u8, (v >> 16u32) as u8, (v >> 24u32) as u8]
}

/// Little-endian bytes of a 64-bit word.
pub open spec fn le_u64(v: u64) -> Seq<u8> {
    seq![
        v as u8,
        (v >> 8u64) as u8,
        (v >> 16u64) as u8,
        (v >> 24u64) as u8,
        (v >> 32u64) as u8,
        (v >> 40u64) as u8,
        (v >> 48u64) as u8,
        (v >> 56u64) as u8,
    ]
}

/// The 32-bit word whose little-endian bytes are `b0..b3`.
pub open spec fn u32_of(b0: u8, b1: u8, b2: u8, b3: u8) -> u32 {
    (b0 as u32) | ((b1 as u32) << 8u32) | ((b2 as u32) << 16u32) | ((b3 as u32) << 24u32)
}

/// The 32-bit word whose little-endian bytes start `b`.
pub open spec fn u32_from_le(b: Seq<u8>) -> u32 {
    u32_of(b[0], b[1], b[2], b[3])
}

/// The 64-bit word whose little-endian bytes are `b0..b7`.
pub open spec fn u64_of(b0: u8, b1: u8, b2: u8, b3: u8, b4: u8, b5: u8, b6: u8, b7: u8) -> u64 {
    (b0 as u64) | ((b1 as u64) << 8u64) | ((b2 as u64) << 16u64) | ((b3 as u64) << 24u64)
        | ((b4 as u64) << 32u64) | ((b5 as u64) << 40u64) | ((b6 as u64) << 48u64) | ((b7
        as u64) << 56u64)
}

/// The 64-bit word whose little-endian bytes start `b`.
pub open spec fn u64_from_le(b: Seq<u8>) -> u64 {
    u64_of(b[0], b[1], b[2], b[3], b[4], b[5], b[6], b[7])
}

/// Bytes of the length prefix of a byte array of `len` bytes: one byte up to 253,
/// else the marker 254 and the low three bytes of the length.
pub open spec fn array_header(len: nat) -> Seq<u8> {
    if len <= 253 {
        seq![len as u8]
    } else {
        seq![254u8, len as u8, (len as u64 >> 8u64) as u8, (len as u64 >> 16u64) as u8]
    }
}

/// Number of zero bytes that pad a byte array of `len` bytes to a multiple of four.
pub open spec fn array_padding(len: nat) -> nat {
    let hl: nat = if len <= 253 { 1 } else { 4 };
    let a = (len + hl) % 4;
    if a == 0 { 0 } else { (4 - a) as nat }
}

/// `n` zero bytes.
pub open spec fn zeros(n: nat) -> Seq<u8> {
    Seq::new(n, |i: int| 0u8)
}

/// Full wire encoding of a byte array: header, data, padding.
pub open spec fn array_encoding(b: Seq<u8>) -> Seq<u8> {
    array_header(b.len()) + b + zeros(array_padding(b.len()))
}

/// The text that a byte sequence decodes to, or the empty text when it is not UTF-8.
pub open spec fn utf8_or_empty(b: Seq<u8>) -> Seq<char> {
    if vstd::utf8::valid_utf8(b) {
        vstd::utf8::decode_utf8(b)
    } else {
        Seq::<char>::empty()
    }
}

/// Decodes `v` as UTF-8 (`String::from_utf8`), `None` when the bytes are not valid UTF-8.
#[verifier::external_body]
pub(crate) fn string_from_utf8(v: Vec<u8>) -> (r: Option<String>)
    ensures
        r is Some <==> vstd::utf8::valid_utf8(v@),
        r matches Some(s) ==> s@ == vstd::utf8::decode_utf8(v@),
{
    match String::from_utf8(v) {
        Ok(s) => Some(s),
        Err(_) => None,
    }
}

/// The mathematical state of a `SerializedBuffer`.
pub struct BufferView {
    pub buffer: Seq<u8>,
    pub position: nat,
    pub limit: nat,
    pub capacity: nat,
    pub calculate: bool,
}

impl BufferView {
    /// `n` more bytes fit before the limit.
    pub open spec fn fits(self, n: nat) -> bool {
        self.position + n <= self.limit
    }

    /// When `n` bytes fit before the limit they also lie inside the storage.
    pub open spec fn in_bounds(self, n: nat) -> bool {
        self.fits(n) ==> self.position + n <= self.buffer.len()
    }

    /// The limit lies inside the storage whenever the buffer really stores bytes.
    pub open spec fn wf(self) -> bool {
        !self.calculate ==> self.limit <= self.buffer.len()
    }

    /// The state after storing `bytes` at the position and moving past them.
    pub open spec fn put(self, bytes: Seq<u8>) -> BufferView {
        BufferView {
            buffer: splice(self.buffer, self.position, bytes),
            position: self.position + bytes.len(),
            ..self
        }
    }

    /// The state after counting `n` more bytes in a size-calculating buffer.
    pub open spec fn grow(self, n: nat) -> BufferView {
        BufferView { capacity: self.capacity + n, ..self }
    }

    /// A write of `n` bytes succeeds.
    pub open spec fn write_ok(self, n: nat) -> bool {
        self.calculate || self.fits(n)
    }

    /// The state after a single-step write of `bytes`.
    pub open spec fn write(self, bytes: Seq<u8>) -> BufferView {
        if self.calculate {
            self.grow(bytes.len())
        } else if self.fits(bytes.len()) {
            self.put(bytes)
        } else {
            self
        }
    }

    /// The `n` bytes at the position.
    pub open spec fn peek(self, n: nat) -> Seq<u8> {
        self.buffer.subrange(self.position as int, (self.position + n) as int)
    }

    /// The state with the position moved forward by `n`.
    pub open spec fn advance(self, n: nat) -> BufferView {
        BufferView { position: self.position + n, ..self }
    }

    /// The state with the position set to `p`.
    pub open spec fn at(self, p: nat) -> BufferView {
        BufferView { position: p, ..self }
    }

    /// Result of reading a 32-bit little-endian word.
    pub open spec fn read_u32_result(self) -> Option<u32> {
        if self.fits(4) {
            Some(u32_from_le(self.peek(4)))
        } else {
            None
        }
    }

    /// Result of reading a 64-bit little-endian word.
    pub open spec fn read_u64_result(self) -> Option<u64> {
        if self.fits(8) {
            Some(u64_from_le(self.peek(8)))
        } else {
            None
        }
    }

    /// Result of reading a single byte.
    pub open spec fn read_u8_result(self) -> Option<u8> {
        if self.fits(1) {
            Some(self.buffer[self.position as int])
        } else {
            None
        }
    }

    /// Result of reading a bool: the word must be one of the two bool constants.
    pub open spec fn read_bool_result(self) -> Option<bool> {
        match self.read_u32_result() {
            Some(w) => if w == BOOL_TRUE_ID {
                Some(true)
            } else if w == BOOL_FALSE_ID {
                Some(false)
            } else {
                None
            },
            None => None,
        }
    }

    /// Data length and header length of the byte array at the position, if its
    /// header can be read.
    pub open spec fn array_len_at(self) -> Option<(nat, nat)> {
        if !self.fits(1) {
            None
        } else {
            let first = self.buffer[self.position as int];
            if first < 254 {
                Some((first as nat, 1nat))
            } else if !self.advance(1).fits(3) {
                None
            } else {
                let p = self.position as int;
                Some(
                    (
                        (self.buffer[p + 1] as nat) + (self.buffer[p + 2] as nat) * 256 + (
                        self.buffer[p + 3] as nat) * 65536,
                        4nat,
                    ),
                )
            }
        }
    }

    /// Number of header bytes a failed byte-array read has moved past.
    pub open spec fn header_consumed(self) -> nat {
        if !self.fits(1) {
            0
        } else if self.buffer[self.position as int] < 254 {
            1
        } else if !self.advance(1).fits(3) {
            1
        } else {
            4
        }
    }

    /// Result of reading a byte array: the data and the total number of bytes read.
    pub open spec fn read_array_result(self) -> Option<(Seq<u8>, nat)> {
        match self.array_len_at() {
            None => None,
            Some((l, hl)) => {
                let a = (l + hl) % 4;
                let pad: nat = if a == 0 { 0 } else { (4 - a) as nat };
                if self.position + hl + l + pad <= self.limit {
                    Some(
                        (
                            self.buffer.subrange((self.position + hl) as int, (self.position + hl + l) as int),
                            hl + l + pad,
                        ),
                    )
                } else {
                    None
                }
            }
        }
    }

    /// The byte array at the position lies inside the storage whenever its
    /// header and body fit before the limit.
    pub open spec fn array_in_bounds(self) -> bool {
        &&& self.in_bounds(1)
        &&& (self.fits(1) && self.buffer[self.position as int] >= 254) ==> self.in_bounds(4)
        &&& match self.read_array_result() {
            Some((_, n)) => self.position + n <= self.buffer.len(),
            None => true,
        }
    }

    /// State after writing a byte array in stages: header, body and padding each
    /// check the limit, and a failing stage keeps what earlier stages wrote.
    pub open spec fn write_array(self, b: Seq<u8>) -> (BufferView, bool) {
        let h = array_header(b.len());
        let z = zeros(array_padding(b.len()));
        if self.calculate {
            (self.grow(h.len() + b.len() + z.len()), true)
        } else if !self.fits(h.len()) {
            (self, false)
        } else {
            let s1 = self.put(h);
            if !s1.fits(b.len()) {
                (s1, false)
            } else {
                let s2 = s1.put(b);
                if !s2.fits(z.len()) {
                    (s2, false)
                } else {
                    (s2.put(z), true)
                }
            }
        }
    }
}

/// A growable byte buffer with a position and a limit, the carrier of the PM codec.
/// A buffer made to calculate sizes only counts bytes in its capacity.
pub struct SerializedBuffer {
    pub buffer: Vec<u8>,
    position: usize,
    limit: usize,
    capacity: usize,
    calculated_size_only: bool,
}

impl View for SerializedBuffer {
    type V = BufferView;

    closed spec fn view(&self) -> BufferView {
        BufferView {
            buffer: self.buffer@,
            position: self.position as nat,
            limit: self.limit as nat,
            capacity: self.capacity as nat,
            calculate: self.calculated_size_only,
        }
    }
}


/// Putting `a` then `b` is putting `a + b`.
pub proof fn lemma_put_put(v: BufferView, a: Seq<u8>, b: Seq<u8>)
    requires
        v.position + a.len() + b.len() <= v.buffer.len(),
    ensures
        v.put(a).put(b) == v.put(a + b),
{
    let s1 = splice(v.buffer, v.position, a);
    assert(s1.len() == v.buffer.len());
    assert(splice(s1, v.position + a.len(), b) =~= splice(v.buffer, v.position, a + b));
}

/// A word survives its little-endian bytes.
proof fn lemma_u32_bytes(v: u32)
    ensures
        u32_of(v as u8, (v >> 8u32) as u8, (v >> 16u32) as u8, (v >> 24u32) as u8) == v,
{
    assert(u32_of(v as u8, (v >> 8u32) as u8, (v >> 16u32) as u8, (v >> 24u32) as u8) == v)
        by (bit_vector);
}

/// A 64-bit word survives its little-endian bytes.
proof fn lemma_u64_bytes(v: u64)
    ensures
        u64_of(
            v as u8,
            (v >> 8u64) as u8,
            (v >> 16u64) as u8,
            (v >> 24u64) as u8,
            (v >> 32u64) as u8,
            (v >> 40u64) as u8,
            (v >> 48u64) as u8,
            (v >> 56u64) as u8,
        ) == v,
{
    assert(u64_of(
        v as u8,
        (v >> 8u64) as u8,
        (v >> 16u64) as u8,
        (v >> 24u64) as u8,
        (v >> 32u64) as u8,
        (v >> 40u64) as u8,
        (v >> 48u64) as u8,
        (v >> 56u64) as u8,
    ) == v) by (bit_vector);
}

/// Reading back the little-endian bytes of a 32-bit word gives the word.
pub proof fn lemma_le_u32_roundtrip(v: u32)
    ensures
        le_u32(v).len() == 4,
        u32_from_le(le_u32(v)) == v,
{
    lemma_u32_bytes(v);
}

/// Reading back the little-endian bytes of a 64-bit word gives the word.
pub proof fn lemma_le_u64_roundtrip(v: u64)
    ensures
        le_u64(v).len() == 8,
        u64_from_le(le_u64(v)) == v,
{
    lemma_u64_bytes(v);
}

proof fn lemma_i32_u32(i: i32)
    ensures
        ((i as u32) as i32) == i,
{
    assert(((i as u32) as i32) == i) by (bit_vector);
}

proof fn lemma_u32_i32(u: u32)
    ensures
        ((u as i32) as u32) == u,
{
    assert(((u as i32) as u32) == u) by (bit_vector);
}

proof fn lemma_i64_u64(i: i64)
    ensures
        ((i as u64) as i64) == i,
{
    assert(((i as u64) as i64) == i) by (bit_vector);
}

proof fn lemma_u64_i64(u: u64)
    ensures
        ((u as i64) as u64) == u,
{
    assert(((u as i64) as u64) == u) by (bit_vector);
}

impl SerializedBuffer {
    /// Whether `n` more bytes fit before the limit.
    fn room(&self, n: usize) -> (r: bool)
        ensures
            r == self@.fits(n as nat),
    {
        self.position <= self.limit && self.limit - self.position >= n
    }

    /// Stores one byte at the position and moves past it.
    fn put_byte(&mut self, b: u8)
        requires
            old(self).position < old(self).buffer.len(),
        ensures
            final(self)@ == old(self)@.put(seq![b]),
    {
        let ghost v = self@;
        self.buffer.set(self.position, b);
        self.position = self.position + 1;
        assert(self.buffer@ =~= splice(v.buffer, v.position, seq![b]));
    }

    /// Stores the first `n` bytes of `b` at the position and moves past them.
    fn put_slice(&mut self, b: &[u8], n: usize)
        requires
            n <= b@.len(),
            old(self).position + n <= old(self).buffer.len(),
        ensures
            final(self)@ == old(self)@.put(b@.take(n as int)),
    {
        let ghost v = self@;
        assert(b@.take(0) =~= Seq::<u8>::empty());
        assert(v.put(Seq::<u8>::empty()) == v) by {
            assert(splice(v.buffer, v.position, Seq::<u8>::empty()) =~= v.buffer);
        }
        let mut i: usize = 0;
        while i < n
            invariant
                i <= n,
                n <= b@.len(),
                v.position + n <= v.buffer.len(),
                self@ == v.put(b@.take(i as int)),
            decreases n - i,
        {
            proof {
                lemma_put_put(v, b@.take(i as int), seq![b@[i as int]]);
                assert(b@.take(i as int) + seq![b@[i as int]] =~= b@.take(i + 1));
            }
            self.put_byte(b[i]);
            i = i + 1;
        }
    }

    /// Stores four bytes at the position and moves past them.
    fn put4(&mut self, b0: u8, b1: u8, b2: u8, b3: u8)
        requires
            old(self).position + 4 <= old(self).buffer.len(),
        ensures
            final(self)@ == old(self)@.put(seq![b0, b1, b2, b3]),
    {
        let ghost v = self@;
        self.put_byte(b0);
        self.put_byte(b1);
        self.put_byte(b2);
        self.put_byte(b3);
        proof {
            lemma_put_put(v, seq![b0], seq![b1]);
            assert(seq![b0] + seq![b1] =~= seq![b0, b1]);
            lemma_put_put(v, seq![b0, b1], seq![b2]);
            assert(seq![b0, b1] + seq![b2] =~= seq![b0, b1, b2]);
            lemma_put_put(v, seq![b0, b1, b2], seq![b3]);
            assert(seq![b0, b1, b2] + seq![b3] =~= seq![b0, b1, b2, b3]);
        }
    }

    /// A buffer of `size` zero bytes, limit and capacity `size`.
    pub fn new_with_size(size: usize) -> (sb: Self)
        ensures
            sb@ == (BufferView {
                buffer: Seq::new(size as nat, |i: int| 0u8),
                position: 0,
                limit: size as nat,
                capacity: size as nat,
                calculate: false,
            }),
    {
        let buffer = vec![0u8; size];
        let sb = SerializedBuffer {
            buffer,
            position: 0,
            limit: size,
            capacity: size,
            calculated_size_only: false,
        };
        assert(sb@.buffer =~= Seq::new(size as nat, |i: int| 0u8));
        sb
    }

    /// An empty buffer; with `calculate` set it only counts the bytes written to it.
    pub fn new(calculate: bool) -> (sb: Self)
        ensures
            sb@ == (BufferView {
                buffer: Seq::<u8>::empty(),
                position: 0,
                limit: 0,
                capacity: 0,
                calculate,
            }),
    {
        SerializedBuffer {
            buffer: Vec::new(),
            position: 0,
            limit: 0,
            capacity: 0,
            calculated_size_only: calculate,
        }
    }

    /// A buffer holding a copy of `buff`, limit and capacity its length.
    pub fn from_slice(buff: &[u8]) -> (sb: Self)
        ensures
            sb@ == (BufferView {
                buffer: buff@,
                position: 0,
                limit: buff@.len(),
                capacity: buff@.len(),
                calculate: false,
            }),
    {
        let length = buff.len();
        let v = vstd::slice::slice_to_vec(buff);
        SerializedBuffer {
            buffer: v,
            position: 0,
            limit: length,
            capacity: length,
            calculated_size_only: false,
        }
    }

    /// Moves the position to `pos`, unless the position already lies past the limit.
    pub fn set_position(&mut self, pos: usize)
        ensures
            final(self)@ == if old(self)@.position > old(self)@.limit {
                old(self)@
            } else {
                old(self)@.at(pos as nat)
            },
    {
        if self.position > self.limit {
            return ;
        }
        self.position = pos;
    }

    /// Sets the limit when it does not exceed the capacity, pulling the position back to it.
    pub fn set_limit(&mut self, limit: usize)
        ensures
            final(self)@ == if limit > old(self)@.capacity {
                old(self)@
            } else if old(self)@.position > limit {
                BufferView { position: limit as nat, limit: limit as nat, ..old(self)@ }
            } else {
                BufferView { limit: limit as nat, ..old(self)@ }
            },
    {
        if limit > self.capacity {
            return ;
        }
        if self.position > limit {
            self.position = limit;
        }
        self.limit = limit;
    }

    /// Sets the limit to the position and the position to zero.
    pub fn flip(&mut self)
        ensures
            final(self)@ == (BufferView {
                limit: old(self)@.position,
                position: 0,
                ..old(self)@
            }),
    {
        self.limit = self.position;
        self.position = 0;
    }

    /// Sets the limit to the capacity and the position to zero.
    pub fn clear(&mut self)
        ensures
            final(self)@ == (BufferView {
                limit: old(self)@.capacity,
                position: 0,
                ..old(self)@
            }),
    {
        self.limit = self.capacity;
        self.position = 0;
    }

    /// The position.
    pub fn position(&self) -> (r: usize)
        ensures
            r as nat == self@.position,
    {
        self.position
    }

    /// The capacity.
    pub fn capacity(&self) -> (r: usize)
        ensures
            r as nat == self@.capacity,
    {
        self.capacity
    }

    /// The limit.
    pub fn limit(&self) -> (r: usize)
        ensures
            r as nat == self@.limit,
    {
        self.limit
    }

    /// Whether the buffer only counts bytes.
    pub fn is_calculating(&self) -> (r: bool)
        ensures
            r == self@.calculate,
    {
        self.calculated_size_only
    }

    /// Number of bytes between the position and the limit.
    pub fn remaining(&self) -> (r: usize)
        requires
            self@.position <= self@.limit,
        ensures
            r as nat == self@.limit - self@.position,
    {
        self.limit - self.position
    }

    /// Whether the position lies past the limit.
    pub fn has_remaining(&self) -> (r: bool)
        ensures
            r == (self@.position > self@.limit),
    {
        return self.position > self.limit;
    }

    /// Resets the byte count of a size-calculating buffer; a storing buffer is left alone.
    pub fn clear_capacity(&mut self)
        ensures
            old(self)@.calculate ==> final(self)@ == (BufferView { capacity: 0, ..old(self)@ }),
            !old(self)@.calculate ==> final(self)@ == old(self)@,
    {
        if !self.calculated_size_only {
            return ;
        }
        self.capacity = 0;
    }

    /// Sets the position to zero.
    pub fn rewind(&mut self)
        ensures
            final(self)@ == old(self)@.at(0),
    {
        self.position = 0;
    }

    /// Moves the bytes between position and limit to the front; the position
    /// then counts them and the limit becomes the capacity.
    pub fn compact(&mut self)
        requires
            old(self)@.position <= old(self)@.limit <= old(self)@.buffer.len(),
        ensures
            old(self)@.position == old(self)@.limit ==> final(self)@ == old(self)@,
            old(self)@.position < old(self)@.limit ==> final(self)@ == (BufferView {
                buffer: old(self)@.buffer.subrange(
                    old(self)@.position as int,
                    old(self)@.limit as int,
                ) + old(self)@.buffer.skip(old(self)@.limit - old(self)@.position),
                position: (old(self)@.limit - old(self)@.position) as nat,
                limit: old(self)@.capacity,
                ..old(self)@
            }),
    {
        if self.position == self.limit {
            return ;
        }
        let ghost old_buf = self.buffer@;
        let ghost v = self@;
        let blen = self.buffer.len();
        let p = self.position;
        let n = self.limit - self.position;
        let mut i: usize = 0;
        while i < n
            invariant
                p + n <= old_buf.len(),
                blen == old_buf.len(),
                self.capacity == v.capacity,
                self.calculated_size_only == v.calculate,
                self.position == v.position,
                self.limit == v.limit,
                self.buffer@.len() == old_buf.len(),
                i <= n,
                forall|k: int| 0 <= k < i ==> self.buffer@[k] == old_buf[p + k],
                forall|k: int| i <= k < old_buf.len() ==> self.buffer@[k] == old_buf[k],
            decreases n - i,
        {
            let b = self.buffer[p + i];
            self.buffer.set(i, b);
            i = i + 1;
        }
        assert(self.buffer@ =~= old_buf.subrange(p as int, (p + n) as int) + old_buf.skip(
            n as int,
        ));
        self.position = n;
        self.limit = self.capacity;
        assert(self@.buffer == v.buffer.subrange(v.position as int, v.limit as int) + v.buffer.skip(
            v.limit - v.position,
        ));
    }

    /// Moves the position forward by `len` when that stays within the limit; a
    /// size-calculating buffer counts `len` more bytes instead.
    pub fn skip(&mut self, len: usize)
        requires
            old(self)@.calculate ==> old(self)@.capacity + len <= usize::MAX,
        ensures
            final(self)@ == if old(self)@.calculate {
                old(self)@.grow(len as nat)
            } else if old(self)@.fits(len as nat) {
                old(self)@.advance(len as nat)
            } else {
                old(self)@
            },
    {
        if !self.calculated_size_only {
            if !self.room(len) {
                return ;
            }
            self.position = self.position + len;
        } else {
            self.capacity = self.capacity + len;
        }
    }

    /// Does nothing.
    pub fn reuse(&self) {
    }

    /// Writes one byte.
    pub fn write_u8(&mut self, i: u8) -> (r: Result<(), Error>)
        requires
            !old(self)@.calculate ==> old(self)@.in_bounds(1),
            old(self)@.calculate ==> old(self)@.capacity + 1 <= usize::MAX,
        ensures
            final(self)@ == old(self)@.write(seq![i]),
            r is Ok <==> old(self)@.write_ok(1),
            r matches Err(e) ==> e@ == SerializationError::U8Error,
    {
        if !self.calculated_size_only {
            if !self.room(1) {
                return Err(Error::new(SerializationError::U8Error));
            }
            self.put_byte(i);
        } else {
            self.capacity = self.capacity + 1;
        }
        Ok(())
    }

    /// Writes one byte.
    pub fn write_byte(&mut self, i: u8) -> (r: Result<(), Error>)
        requires
            !old(self)@.calculate ==> old(self)@.in_bounds(1),
            old(self)@.calculate ==> old(self)@.capacity + 1 <= usize::MAX,
        ensures
            final(self)@ == old(self)@.write(seq![i]),
            r is Ok <==> old(self)@.write_ok(1),
            r matches Err(e) ==> e@ == SerializationError::U8Error,
    {
        self.write_u8(i)
    }

    /// Writes one signed byte as its two's-complement bits.
    pub fn write_i8(&mut self, i: i8) -> (r: Result<(), Error>)
        requires
            !old(self)@.calculate ==> old(self)@.in_bounds(1),
            old(self)@.calculate ==> old(self)@.capacity + 1 <= usize::MAX,
        ensures
            final(self)@ == old(self)@.write(seq![i as u8]),
            r is Ok <==> old(self)@.write_ok(1),
            r matches Err(e) ==> e@ == SerializationError::I8Error,
    {
        if !self.calculated_size_only {
            if !self.room(1) {
                return Err(Error::new(SerializationError::I8Error));
            }
            self.put_byte(i as u8);
        } else {
            self.capacity = self.capacity + 1;
        }
        Ok(())
    }

    /// Writes a 32-bit integer, little-endian.
    pub fn write_i32(&mut self, i: i32) -> (r: Result<(), Error>)
        requires
            !old(self)@.calculate ==> old(self)@.in_bounds(4),
            old(self)@.calculate ==> old(self)@.capacity + 4 <= usize::MAX,
        ensures
            final(self)@ == old(self)@.write(le_u32(i as u32)),
            r is Ok <==> old(self)@.write_ok(4),
            r matches Err(e) ==> e@ == SerializationError::I32Error,
    {
        if !self.calculated_size_only {
            if !self.room(4) {
                return Err(Error::new(SerializationError::I32Error));
            }
            let u = i as u32;
            self.put4(u as u8, (u >> 8u32) as u8, (u >> 16u32) as u8, (u >> 24u32) as u8);
        } else {
            self.capacity = self.capacity + 4;
        }
        Ok(())
    }

    /// Writes a 64-bit integer, little-endian.
    pub fn write_i64(&mut self, i: i64) -> (r: Result<(), Error>)
        requires
            !old(self)@.calculate ==> old(self)@.in_bounds(8),
            old(self)@.calculate ==> old(self)@.capacity + 8 <= usize::MAX,
        ensures
            final(self)@ == old(self)@.write(le_u64(i as u64)),
            r is Ok <==> old(self)@.write_ok(8),
            r matches Err(e) ==> e@ == SerializationError::I64Error,
    {
        if !self.calculated_size_only {
            if !self.room(8) {
                return Err(Error::new(SerializationError::I64Error));
            }
            let ghost v = self@;
            let u = i as u64;
            self.put4(u as u8, (u >> 8u64) as u8, (u >> 16u64) as u8, (u >> 24u64) as u8);
            self.put4(
                (u >> 32u64) as u8,
                (u >> 40u64) as u8,
                (u >> 48u64) as u8,
                (u >> 56u64) as u8,
            );
            proof {
                let a = seq![u as u8, (u >> 8u64) as u8, (u >> 16u64) as u8, (u >> 24u64) as u8];
                let b = seq![
                    (u >> 32u64) as u8,
                    (u >> 40u64) as u8,
                    (u >> 48u64) as u8,
                    (u >> 56u64) as u8,
                ];
                lemma_put_put(v, a, b);
                assert(a + b =~= le_u64(u));
            }
        } else {
            self.capacity = self.capacity + 8;
        }
        Ok(())
    }

    /// Writes an unsigned 64-bit integer, little-endian.
    pub fn write_u64(&mut self, i: u64) -> (r: Result<(), Error>)
        requires
            !old(self)@.calculate ==> old(self)@.in_bounds(8),
            old(self)@.calculate ==> old(self)@.capacity + 8 <= usize::MAX,
        ensures
            final(self)@ == old(self)@.write(le_u64(i)),
            r is Ok <==> old(self)@.write_ok(8),
            r matches Err(e) ==> e@ == SerializationError::I64Error,
    {
        proof {
            lemma_u64_i64(i);
        }
        self.write_i64(i as i64)
    }

    /// Writes an unsigned 32-bit integer, little-endian.
    pub fn write_u32(&mut self, i: u32) -> (r: Result<(), Error>)
        requires
            !old(self)@.calculate ==> old(self)@.in_bounds(4),
            old(self)@.calculate ==> old(self)@.capacity + 4 <= usize::MAX,
        ensures
            final(self)@ == old(self)@.write(le_u32(i)),
            r is Ok <==> old(self)@.write_ok(4),
            r matches Err(e) ==> e@ == SerializationError::I32Error,
    {
        proof {
            lemma_u32_i32(i);
        }
        self.write_i32(i as i32)
    }

    /// Writes a bool as one of two 32-bit constants.
    pub fn write_bool(&mut self, val: bool) -> (r: Result<(), Error>)
        requires
            !old(self)@.calculate ==> old(self)@.in_bounds(4),
            old(self)@.calculate ==> old(self)@.capacity + 4 <= usize::MAX,
        ensures
            final(self)@ == old(self)@.write(
                le_u32(if val { BOOL_TRUE_ID } else { BOOL_FALSE_ID }),
            ),
            r is Ok <==> old(self)@.write_ok(4),
            r matches Err(e) ==> e@ == SerializationError::I32Error,
    {
        if !self.calculated_size_only {
            if val {
                self.write_u32(BOOL_TRUE_ID)?;
            } else {
                self.write_u32(BOOL_FALSE_ID)?;
            }
        } else {
            self.capacity = self.capacity + 4;
        }
        Ok(())
    }

    /// Writes the bytes of `b`.
    pub fn write_bytes(&mut self, b: &[u8]) -> (r: Result<(), Error>)
        requires
            !old(self)@.calculate ==> old(self)@.in_bounds(b@.len()),
            old(self)@.calculate ==> old(self)@.capacity + b@.len() <= usize::MAX,
        ensures
            final(self)@ == old(self)@.write(b@),
            r is Ok <==> old(self)@.write_ok(b@.len()),
            r matches Err(e) ==> e@ == SerializationError::BytesError,
    {
        let length = b.len();
        if !self.calculated_size_only {
            if !self.room(length) {
                return Err(Error::new(SerializationError::BytesError));
            }
            self.put_slice(b, length);
            assert(b@.take(length as int) =~= b@);
        } else {
            self.capacity = self.capacity + length;
        }
        Ok(())
    }

    /// Writes the first `length` bytes of `b`.
    pub fn write_bytes_offset(&mut self, b: &[u8], length: usize) -> (r: Result<(), Error>)
        requires
            length <= b@.len(),
            !old(self)@.calculate ==> old(self)@.in_bounds(length as nat),
            old(self)@.calculate ==> old(self)@.capacity + length <= usize::MAX,
        ensures
            final(self)@ == old(self)@.write(b@.take(length as int)),
            r is Ok <==> old(self)@.write_ok(length as nat),
            r matches Err(e) ==> e@ == SerializationError::BytesError,
    {
        if !self.calculated_size_only {
            if !self.room(length) {
                return Err(Error::new(SerializationError::BytesError));
            }
            self.put_slice(b, length);
        } else {
            self.capacity = self.capacity + length;
        }
        Ok(())
    }

    /// Writes the bytes of `b` between its position and its limit, then moves the
    /// position of `b` to its limit.
    pub fn write_bytes_serialized_buffer(&mut self, b: &mut SerializedBuffer) -> (r: Result<
        (),
        Error,
    >)
        requires
            old(b)@.position <= old(b)@.limit <= old(b)@.buffer.len(),
            !old(self)@.calculate ==> old(self)@.in_bounds((old(b)@.limit - old(b)@.position) as nat),
            old(self)@.calculate ==> old(self)@.capacity + (old(b)@.limit - old(b)@.position)
                <= usize::MAX,
        ensures
            ({
                let n = (old(b)@.limit - old(b)@.position) as nat;
                let bytes = old(b)@.peek(n);
                if n == 0 {
                    r is Ok && final(self)@ == old(self)@ && final(b)@ == old(b)@
                } else if old(self)@.calculate {
                    r is Ok && final(self)@ == old(self)@.grow(n) && final(b)@ == old(b)@
                } else if old(self)@.fits(n) {
                    r is Ok && final(self)@ == old(self)@.put(bytes) && final(b)@ == old(b)@.at(
                        old(b)@.limit,
                    )
                } else {
                    &&& r matches Err(e) && e@ == SerializationError::ByteArrayError
                    &&& final(self)@ == old(self)@
                    &&& final(b)@ == old(b)@
                }
            }),
    {
        let length = b.limit - b.position;
        if length == 0 {
            return Ok(());
        }
        if !self.calculated_size_only {
            if !self.room(length) {
                return Err(Error::new(SerializationError::ByteArrayError));
            }
            let src = vstd::slice::slice_subrange(b.buffer.as_slice(), b.position, b.buffer.len());
            self.put_slice(src, length);
            assert(src@.take(length as int) =~= old(b)@.peek(length as nat));
            let lim = b.limit();
            b.set_position(lim);
        } else {
            self.capacity = self.capacity + length;
        }
        Ok(())
    }

    /// Writes `b` as a byte array: a length header, the bytes, and zero padding to a
    /// multiple of four. Each stage checks the limit; a failing stage keeps what the
    /// earlier stages wrote.
    pub fn write_byte_array(&mut self, b: &[u8]) -> (r: Result<(), Error>)
        requires
            old(self)@.wf(),
            old(self)@.calculate ==> old(self)@.capacity + array_encoding(b@).len()
                <= usize::MAX,
        ensures
            final(self)@ == old(self)@.write_array(b@).0,
            r is Ok <==> old(self)@.write_array(b@).1,
            r matches Err(e) ==> e@ == SerializationError::ByteArrayError,
    {
        let length = b.len();
        let ghost v = self@;
        let ghost h = array_header(length as nat);
        let ghost z = zeros(array_padding(length as nat));
        let l64 = length as u64;
        let hl: usize = if length <= 253 { 1 } else { 4 };
        if length <= 253 {
            if !self.calculated_size_only {
                if !self.room(1) {
                    return Err(Error::new(SerializationError::ByteArrayError));
                }
                self.put_byte(l64 as u8);
            } else {
                self.capacity = self.capacity + 1;
            }
        } else {
            if !self.calculated_size_only {
                if !self.room(4) {
                    return Err(Error::new(SerializationError::ByteArrayError));
                }
                self.put4(254u8, l64 as u8, (l64 >> 8u64) as u8, (l64 >> 16u64) as u8);
            } else {
                self.capacity = self.capacity + 4;
            }
        }
        assert(h.len() == hl);
        let ghost s1 = self@;
        assert(!v.calculate ==> s1 == v.put(h));
        if !self.calculated_size_only {
            if !self.room(length) {
                return Err(Error::new(SerializationError::ByteArrayError));
            }
            self.put_slice(b, length);
            assert(b@.take(length as int) =~= b@);
        } else {
            self.capacity = self.capacity + length;
        }
        let ghost s2 = self@;
        let mut addition = (length % 4 + hl) % 4;
        if addition != 0 {
            addition = 4 - addition;
        }
        assert(addition == array_padding(length as nat));
        if !self.calculated_size_only && !self.room(addition) {
            return Err(Error::new(SerializationError::ByteArrayError));
        }
        if !self.calculated_size_only {
            let mut k: usize = 0;
            assert(zeros(0) =~= Seq::<u8>::empty());
            assert(s2.put(Seq::<u8>::empty()) == s2) by {
                assert(splice(s2.buffer, s2.position, Seq::<u8>::empty()) =~= s2.buffer);
            }
            while k < addition
                invariant
                    k <= addition,
                    addition <= 3,
                    s2.position + addition <= s2.limit,
                    s2.limit <= s2.buffer.len(),
                    self@ == s2.put(zeros(k as nat)),
                decreases addition - k,
            {
                proof {
                    lemma_put_put(s2, zeros(k as nat), seq![0u8]);
                    assert(zeros(k as nat) + seq![0u8] =~= zeros((k + 1) as nat));
                }
                self.put_byte(0u8);
                k = k + 1;
            }
        } else {
            self.capacity = self.capacity + addition;
        }
        Ok(())
    }

    /// Rewinds `b` and writes its whole storage as a byte array.
    pub fn write_byte_array_serialized_buffer(&mut self, b: &mut SerializedBuffer) -> (r: Result<
        (),
        Error,
    >)
        requires
            old(self)@.wf(),
            old(self)@.calculate ==> old(self)@.capacity + array_encoding(old(b)@.buffer).len()
                <= usize::MAX,
        ensures
            final(b)@ == old(b)@.at(0),
            final(self)@ == old(self)@.write_array(old(b)@.buffer).0,
            r is Ok <==> old(self)@.write_array(old(b)@.buffer).1,
            r matches Err(e) ==> e@ == SerializationError::ByteArrayError,
    {
        b.rewind();
        self.write_byte_array(b.buffer.as_slice())
    }

    /// Writes the UTF-8 bytes of `s` as a byte array.
    pub fn write_string(&mut self, s: &str) -> (r: Result<(), Error>)
        requires
            old(self)@.wf(),
            old(self)@.calculate ==> old(self)@.capacity + array_encoding(vstd::utf8::encode_utf8(s@)).len()
                <= usize::MAX,
        ensures
            final(self)@ == old(self)@.write_array(vstd::utf8::encode_utf8(s@)).0,
            r is Ok <==> old(self)@.write_array(vstd::utf8::encode_utf8(s@)).1,
            r matches Err(e) ==> e@ == SerializationError::ByteArrayError,
    {
        self.write_byte_array(s.as_bytes())
    }

    /// Reads a 32-bit little-endian integer.
    pub fn read_i32(&mut self) -> (r: Result<i32, Error>)
        requires
            old(self)@.in_bounds(4),
        ensures
            match old(self)@.read_u32_result() {
                Some(w) => r == Ok::<i32, Error>(w as i32) && final(self)@ == old(self)@.advance(4),
                None => (r matches Err(e) && e@ == SerializationError::I32Error) && final(self)@
                    == old(self)@,
            },
    {
        if !self.room(4) {
            return Err(Error::new(SerializationError::I32Error));
        }
        let p = self.position;
        let b0 = self.buffer[p] as u32;
        let b1 = self.buffer[p + 1] as u32;
        let b2 = self.buffer[p + 2] as u32;
        let b3 = self.buffer[p + 3] as u32;
        let w = b0 | (b1 << 8u32) | (b2 << 16u32) | (b3 << 24u32);
        self.position = p + 4;
        Ok(w as i32)
    }

    /// Reads a 64-bit little-endian integer.
    pub fn read_i64(&mut self) -> (r: Result<i64, Error>)
        requires
            old(self)@.in_bounds(8),
        ensures
            match old(self)@.read_u64_result() {
                Some(w) => r == Ok::<i64, Error>(w as i64) && final(self)@ == old(self)@.advance(8),
                None => (r matches Err(e) && e@ == SerializationError::I64Error) && final(self)@
                    == old(self)@,
            },
    {
        if !self.room(8) {
            return Err(Error::new(SerializationError::I64Error));
        }
        let p = self.position;
        let b0 = self.buffer[p] as u64;
        let b1 = self.buffer[p + 1] as u64;
        let b2 = self.buffer[p + 2] as u64;
        let b3 = self.buffer[p + 3] as u64;
        let b4 = self.buffer[p + 4] as u64;
        let b5 = self.buffer[p + 5] as u64;
        let b6 = self.buffer[p + 6] as u64;
        let b7 = self.buffer[p + 7] as u64;
        let w = b0 | (b1 << 8u64) | (b2 << 16u64) | (b3 << 24u64) | (b4 << 32u64) | (b5 << 40u64)
            | (b6 << 48u64) | (b7 << 56u64);
        self.position = p + 8;
        Ok(w as i64)
    }

    /// Reads an unsigned 32-bit little-endian integer.
    pub fn read_u32(&mut self) -> (r: Result<u32, Error>)
        requires
            old(self)@.in_bounds(4),
        ensures
            match old(self)@.read_u32_result() {
                Some(w) => r == Ok::<u32, Error>(w) && final(self)@ == old(self)@.advance(4),
                None => (r matches Err(e) && e@ == SerializationError::I32Error) && final(self)@
                    == old(self)@,
            },
    {
        let i = self.read_i32()?;
        proof {
            lemma_u32_i32(self@.buffer.len() as u32);
            if let Some(w) = old(self)@.read_u32_result() {
                lemma_u32_i32(w);
            }
        }
        Ok(i as u32)
    }

    /// Reads an unsigned 64-bit little-endian integer.
    pub fn read_u64(&mut self) -> (r: Result<u64, Error>)
        requires
            old(self)@.in_bounds(8),
        ensures
            match old(self)@.read_u64_result() {
                Some(w) => r == Ok::<u64, Error>(w) && final(self)@ == old(self)@.advance(8),
                None => (r matches Err(e) && e@ == SerializationError::I64Error) && final(self)@
                    == old(self)@,
            },
    {
        let i = self.read_i64()?;
        proof {
            if let Some(w) = old(self)@.read_u64_result() {
                lemma_u64_i64(w);
            }
        }
        Ok(i as u64)
    }

    /// Reads one byte.
    pub fn read_u8(&mut self) -> (r: Result<u8, Error>)
        requires
            old(self)@.in_bounds(1),
        ensures
            match old(self)@.read_u8_result() {
                Some(b) => r == Ok::<u8, Error>(b) && final(self)@ == old(self)@.advance(1),
                None => (r matches Err(e) && e@ == SerializationError::U8Error) && final(self)@
                    == old(self)@,
            },
    {
        if !self.room(1) {
            return Err(Error::new(SerializationError::U8Error));
        }
        let result = self.buffer[self.position];
        self.position = self.position + 1;
        Ok(result)
    }

    /// Reads one byte.
    pub fn read_byte(&mut self) -> (r: Result<u8, Error>)
        requires
            old(self)@.in_bounds(1),
        ensures
            match old(self)@.read_u8_result() {
                Some(b) => r == Ok::<u8, Error>(b) && final(self)@ == old(self)@.advance(1),
                None => (r matches Err(e) && e@ == SerializationError::U8Error) && final(self)@
                    == old(self)@,
            },
    {
        self.read_u8()
    }

    /// Reads one byte as a signed byte; failure reports `U8Error`.
    pub fn read_i8(&mut self) -> (r: Result<i8, Error>)
        requires
            old(self)@.in_bounds(1),
        ensures
            match old(self)@.read_u8_result() {
                Some(b) => r == Ok::<i8, Error>(b as i8) && final(self)@ == old(self)@.advance(1),
                None => (r matches Err(e) && e@ == SerializationError::U8Error) && final(self)@
                    == old(self)@,
            },
    {
        if !self.room(1) {
            return Err(Error::new(SerializationError::U8Error));
        }
        let result = self.buffer[self.position] as i8;
        self.position = self.position + 1;
        Ok(result)
    }

    /// Reads a bool: the word must equal one of the two bool constants.
    pub fn read_bool(&mut self) -> (r: Result<bool, Error>)
        requires
            old(self)@.in_bounds(4),
        ensures
            match old(self)@.read_u32_result() {
                None => (r matches Err(e) && e@ == SerializationError::I32Error) && final(self)@
                    == old(self)@,
                Some(w) => final(self)@ == old(self)@.advance(4) && match old(self)@.read_bool_result() {
                    Some(b) => r == Ok::<bool, Error>(b),
                    None => r matches Err(e) && e@ == SerializationError::BoolError,
                },
            },
    {
        let i = self.read_u32()?;
        if i == BOOL_TRUE_ID {
            return Ok(true);
        } else if i == BOOL_FALSE_ID {
            return Ok(false);
        }
        Err(Error::new(SerializationError::BoolError))
    }

    /// Reads the length header of a byte array, moving past what it reads;
    /// returns the data length and the header length.
    fn read_array_header(&mut self) -> (r: Option<(usize, usize)>)
        requires
            old(self)@.array_in_bounds(),
        ensures
            r matches Some((l, hl)) ==> old(self)@.array_len_at() == Some((l as nat, hl as nat))
                && final(self)@ == old(self)@.advance(hl as nat),
            r is None ==> old(self)@.array_len_at() is None && final(self)@ == old(self)@.advance(
                old(self)@.header_consumed(),
            ),
    {
        if !self.room(1) {
            return None;
        }
        let mut l = self.buffer[self.position] as usize;
        self.position = self.position + 1;
        if l >= 254 {
            if !self.room(3) {
                return None;
            }
            let p = self.position;
            l = (self.buffer[p] as usize) + (self.buffer[p + 1] as usize) * 256 + (self.buffer[p
                + 2] as usize) * 65536;
            self.position = p + 3;
            return Some((l, 4));
        }
        Some((l, 1))
    }

    /// Reads a byte array: header, data and padding.
    pub fn read_byte_array(&mut self) -> (r: Result<Vec<u8>, Error>)
        requires
            old(self)@.array_in_bounds(),
        ensures
            match old(self)@.read_array_result() {
                Some((data, n)) => (r matches Ok(v) && v@ == data) && final(self)@ == old(self)@.advance(n),
                None => (r matches Err(e) && e@ == SerializationError::ByteArrayError) && final(self)@ == old(self)@.advance(old(self)@.header_consumed()),
            },
    {
        let hdr = self.read_array_header();
        let (l, sl) = match hdr {
            Some(x) => x,
            None => {
                return Err(Error::new(SerializationError::ByteArrayError));
            },
        };
        let mut addition = (l % 4 + sl) % 4;
        if addition != 0 {
            addition = 4 - addition;
        }
        if !self.room(l) || !self.advance_room(l, addition) {
            return Err(Error::new(SerializationError::ByteArrayError));
        }
        let p = self.position;
        let data = vstd::slice::slice_subrange(self.buffer.as_slice(), p, p + l);
        let result = vstd::slice::slice_to_vec(data);
        self.position = p + l + addition;
        Ok(result)
    }

    /// Whether `a` more bytes fit after `l` more bytes.
    fn advance_room(&self, l: usize, a: usize) -> (r: bool)
        requires
            self@.fits(l as nat),
        ensures
            r == self@.fits((l + a) as nat),
    {
        self.limit - self.position - l >= a
    }

    /// Reads a byte array and decodes it as UTF-8; bytes that are not valid UTF-8
    /// read as the empty string.
    pub fn read_string(&mut self) -> (r: Result<String, Error>)
        requires
            old(self)@.array_in_bounds(),
        ensures
            match old(self)@.read_array_result() {
                Some((data, n)) => (r matches Ok(s) && s@ == utf8_or_empty(data)) && final(self)@ == old(self)@.advance(n),
                None => (r matches Err(e) && e@ == SerializationError::StringError) && final(self)@ == old(self)@.advance(old(self)@.header_consumed()),
            },
    {
        match self.read_byte_array() {
            Ok(v) => {
                let s = match string_from_utf8(v) {
                    Some(s) => s,
                    None => String::new(),
                };
                Ok(s)
            },
            Err(_) => Err(Error::new(SerializationError::StringError)),
        }
    }
}


impl SerializedBuffer {
    /// The whole storage, for direct access.
    pub fn buffer(&mut self) -> (r: &mut [u8])
        ensures
            r@ == old(self)@.buffer,
            final(self)@ == (BufferView { buffer: final(r)@, ..old(self)@ }),
    {
        self.buffer.as_mut_slice()
    }

    /// The whole storage, read-only.
    pub fn storage(&self) -> (r: &[u8])
        ensures
            r@ == self@.buffer,
    {
        self.buffer.as_slice()
    }

    /// The bytes between the position and the limit.
    pub fn as_ref(&self) -> (r: &[u8])
        requires
            self@.position <= self@.limit <= self@.buffer.len(),
        ensures
            r@ == self@.buffer.subrange(self@.position as int, self@.limit as int),
    {
        vstd::slice::slice_subrange(self.buffer.as_slice(), self.position, self.limit)
    }

    /// Reads `length` bytes into the front of `b`.
    pub fn read_bytes(&mut self, b: &mut [u8], length: usize) -> (r: Result<(), Error>)
        requires
            old(self)@.in_bounds(length as nat),
            old(self)@.fits(length as nat) ==> length <= old(b)@.len(),
        ensures
            old(self)@.fits(length as nat) ==> {
                &&& r is Ok
                &&& final(self)@ == old(self)@.advance(length as nat)
                &&& final(b)@ == old(self)@.peek(length as nat) + old(b)@.skip(length as int)
            },
            !old(self)@.fits(length as nat) ==> {
                &&& r matches Err(e) && e@ == SerializationError::BytesError
                &&& final(self)@ == old(self)@
                &&& final(b)@ == old(b)@
            },
    {
        if !self.room(length) {
            return Err(Error::new(SerializationError::BytesError));
        }
        let p = self.position;
        let blen = self.buffer.len();
        let ghost b0 = b@;
        let mut i: usize = 0;
        while i < length
            invariant
                i <= length,
                length <= b0.len(),
                b@.len() == b0.len(),
                p + length <= self.buffer@.len(),
                blen == self.buffer@.len(),
                forall|k: int| 0 <= k < i ==> b@[k] == self.buffer@[p + k],
                forall|k: int| i <= k < b0.len() ==> b@[k] == b0[k],
            decreases length - i,
        {
            b[i] = self.buffer[p + i];
            i = i + 1;
        }
        assert(b@ =~= self@.peek(length as nat) + b0.skip(length as int));
        self.position = p + length;
        Ok(())
    }
}

impl Clone for SerializedBuffer {
    /// A copy with the same bytes, position, limit, capacity and mode.
    fn clone(&self) -> (r: Self)
        ensures
            r@ == self@,
    {
        let bytes = self.buffer.clone();
        assert(bytes@ =~= self.buffer@);
        SerializedBuffer {
            buffer: bytes,
            position: self.position,
            limit: self.limit,
            capacity: self.capacity,
            calculated_size_only: self.calculated_size_only,
        }
    }
}

impl Default for SerializedBuffer {
    /// An empty storing buffer.
    fn default() -> (r: Self)
        ensures
            r@ == (BufferView {
                buffer: Seq::<u8>::empty(),
                position: 0,
                limit: 0,
                capacity: 0,
                calculate: false,
            }),
    {
        SerializedBuffer::new(false)
    }
}

/// Reading back a 32-bit integer at the position where it was written gives that integer.
pub proof fn law_i32_roundtrip(v: BufferView, x: i32)
    requires
        !v.calculate,
        v.fits(4),
        v.in_bounds(4),
    ensures
        v.write(le_u32(x as u32)).at(v.position).read_u32_result() matches Some(w) && w as i32
            == x,
        v.write(le_u32(x as u32)).position == v.position + 4,
{
    let w = v.write(le_u32(x as u32));
    assert(w.at(v.position).peek(4) =~= le_u32(x as u32));
    lemma_u32_bytes(x as u32);
    lemma_i32_u32(x);
}

/// Reading back an unsigned 32-bit integer at the position where it was written gives it.
pub proof fn law_u32_roundtrip(v: BufferView, x: u32)
    requires
        !v.calculate,
        v.fits(4),
        v.in_bounds(4),
    ensures
        v.write(le_u32(x)).at(v.position).read_u32_result() == Some(x),
        v.write(le_u32(x)).position == v.position + 4,
{
    let w = v.write(le_u32(x));
    assert(w.at(v.position).peek(4) =~= le_u32(x));
    lemma_u32_bytes(x);
}

/// Reading back a 64-bit integer at the position where it was written gives that integer.
pub proof fn law_i64_roundtrip(v: BufferView, x: i64)
    requires
        !v.calculate,
        v.fits(8),
        v.in_bounds(8),
    ensures
        v.write(le_u64(x as u64)).at(v.position).read_u64_result() matches Some(w) && w as i64
            == x,
        v.write(le_u64(x as u64)).position == v.position + 8,
{
    let w = v.write(le_u64(x as u64));
    assert(w.at(v.position).peek(8) =~= le_u64(x as u64));
    lemma_u64_bytes(x as u64);
    lemma_i64_u64(x);
}

/// Reading back an unsigned 64-bit integer at the position where it was written gives it.
pub proof fn law_u64_roundtrip(v: BufferView, x: u64)
    requires
        !v.calculate,
        v.fits(8),
        v.in_bounds(8),
    ensures
        v.write(le_u64(x)).at(v.position).read_u64_result() == Some(x),
        v.write(le_u64(x)).position == v.position + 8,
{
    let w = v.write(le_u64(x));
    assert(w.at(v.position).peek(8) =~= le_u64(x));
    lemma_u64_bytes(x);
}

/// Reading back a byte at the position where it was written gives that byte.
pub proof fn law_u8_roundtrip(v: BufferView, x: u8)
    requires
        !v.calculate,
        v.fits(1),
        v.in_bounds(1),
    ensures
        v.write(seq![x]).at(v.position).read_u8_result() == Some(x),
        v.write(seq![x]).position == v.position + 1,
{
    let w = v.write(seq![x]);
    assert(w.buffer[v.position as int] == x);
}

/// Reading back a bool at the position where it was written gives that bool.
pub proof fn law_bool_roundtrip(v: BufferView, x: bool)
    requires
        !v.calculate,
        v.fits(4),
        v.in_bounds(4),
    ensures
        v.write(le_u32(if x { BOOL_TRUE_ID } else { BOOL_FALSE_ID })).at(
            v.position,
        ).read_bool_result() == Some(x),
{
    law_u32_roundtrip(v, if x { BOOL_TRUE_ID } else { BOOL_FALSE_ID });
}

/// The header of a long array carries its length in its last three bytes.
proof fn lemma_header_len(len: u64)
    requires
        254 <= len <= 0xff_ffff,
    ensures
        (len as u8) as nat + ((len >> 8u64) as u8) as nat * 256 + ((len >> 16u64) as u8) as nat
            * 65536 == len as nat,
{
    let a = len as u8;
    let b = (len >> 8u64) as u8;
    let c = (len >> 16u64) as u8;
    assert(len == (a as u64) + (b as u64) * 256 + (c as u64) * 65536) by (bit_vector)
        requires
            len <= 0xff_ffff,
            a == len as u8,
            b == (len >> 8u64) as u8,
            c == (len >> 16u64) as u8,
    ;
}

/// A successful byte-array write stores exactly its encoding and moves past it.
pub proof fn law_byte_array_written(v: BufferView, b: Seq<u8>)
    requires
        !v.calculate,
        v.wf(),
        v.write_array(b).1,
    ensures
        v.write_array(b).0 == v.put(array_encoding(b)),
        v.write_array(b).0.position == v.position + array_encoding(b).len(),
        v.write_array(b).0.wf(),
{
    let h = array_header(b.len());
    let z = zeros(array_padding(b.len()));
    lemma_put_put(v, h, b);
    lemma_put_put(v, h + b, z);
}

/// One write a serializer makes on a buffer: the bytes of a value written as
/// they are (`write_u8`, `write_i32`, `write_bool`, `write_bytes`, ...), a byte
/// array or string written with its header and padding, or a skip.
pub enum WriteStep {
    Plain(Seq<u8>),
    Array(Seq<u8>),
    Skip(nat),
}

impl WriteStep {
    /// The number of bytes the step occupies on the wire.
    pub open spec fn size(self) -> nat {
        match self {
            WriteStep::Plain(b) => b.len(),
            WriteStep::Array(b) => array_encoding(b).len(),
            WriteStep::Skip(n) => n,
        }
    }
}

impl BufferView {
    /// The state after one write step, as the write functions and `skip` leave it.
    pub open spec fn step(self, s: WriteStep) -> BufferView {
        match s {
            WriteStep::Plain(b) => self.write(b),
            WriteStep::Array(b) => self.write_array(b).0,
            WriteStep::Skip(n) => if self.calculate {
                self.grow(n)
            } else if self.fits(n) {
                self.advance(n)
            } else {
                self
            },
        }
    }

    /// The step goes through: the write succeeds, or the skip stays within the limit.
    pub open spec fn step_ok(self, s: WriteStep) -> bool {
        match s {
            WriteStep::Plain(b) => self.write_ok(b.len()),
            WriteStep::Array(b) => self.write_array(b).1,
            WriteStep::Skip(n) => self.calculate || self.fits(n),
        }
    }
}

/// The state after the steps, in order.
pub open spec fn run_steps(v: BufferView, steps: Seq<WriteStep>) -> BufferView
    decreases steps.len(),
{
    if steps.len() == 0 {
        v
    } else {
        run_steps(v, steps.drop_last()).step(steps.last())
    }
}

/// Every step goes through on the state the steps before it left.
pub open spec fn steps_ok(v: BufferView, steps: Seq<WriteStep>) -> bool
    decreases steps.len(),
{
    if steps.len() == 0 {
        true
    } else {
        steps_ok(v, steps.drop_last()) && run_steps(v, steps.drop_last()).step_ok(steps.last())
    }
}

/// The bytes the steps occupy on the wire, all together.
pub open spec fn steps_size(steps: Seq<WriteStep>) -> nat
    decreases steps.len(),
{
    if steps.len() == 0 {
        0
    } else {
        steps_size(steps.drop_last()) + steps.last().size()
    }
}

/// A size-calculating buffer counts exactly what the same writes and skips
/// occupy in a storing buffer on which they all go through: its capacity grows by
/// as much as the storing buffer's position, and its position stays put. A
/// measuring buffer that starts empty (`new(true)`) thus ends with the capacity
/// that a storing buffer written from position zero (`new_with_size(n)`) ends at.
/// The steps are the calls themselves, by their contracts: `write_u8`,
/// `write_byte`, `write_i8`, `write_i32`, `write_u32`, `write_i64`, `write_u64`,
/// `write_bool` and `write_bytes` leave `write` of their bytes, that is a
/// `Plain` step; `write_byte_array` and `write_string` an `Array` step; `skip`
/// a `Skip` step. So any sequence of these calls, applied to both buffers and
/// going through on the storing one, ends with `c.capacity() == w.position()`
/// and `c.position() == 0`.
pub proof fn law_measure_matches_write(c: BufferView, w: BufferView, steps: Seq<WriteStep>)
    requires
        c.calculate,
        !w.calculate,
        w.wf(),
        steps_ok(w, steps),
    ensures
        run_steps(c, steps).capacity == c.capacity + steps_size(steps),
        run_steps(c, steps).position == c.position,
        run_steps(w, steps).position == w.position + steps_size(steps),
        c.capacity == 0 && w.position == 0 ==> run_steps(c, steps).capacity == run_steps(w, steps).position,
    decreases steps.len(),
{
    lemma_steps_keep_wf(w, steps);
    if steps.len() > 0 {
        let p = steps.drop_last();
        law_measure_matches_write(c, w, p);
        lemma_steps_keep_wf(w, p);
        let wm = run_steps(w, p);
        let cm = run_steps(c, p);
        assert(cm.calculate) by {
            lemma_steps_keep_mode(c, p);
        }
        assert(!wm.calculate) by {
            lemma_steps_keep_mode(w, p);
        }
        match steps.last() {
            WriteStep::Array(b) => {
                law_byte_array_written(wm, b);
            },
            _ => {},
        }
    }
}

proof fn lemma_steps_keep_mode(v: BufferView, steps: Seq<WriteStep>)
    ensures
        run_steps(v, steps).calculate == v.calculate,
    decreases steps.len(),
{
    if steps.len() > 0 {
        lemma_steps_keep_mode(v, steps.drop_last());
    }
}

proof fn lemma_steps_keep_wf(w: BufferView, steps: Seq<WriteStep>)
    requires
        !w.calculate,
        w.wf(),
        steps_ok(w, steps),
    ensures
        run_steps(w, steps).wf(),
        run_steps(w, steps).limit == w.limit,
        run_steps(w, steps).buffer.len() == w.buffer.len(),
    decreases steps.len(),
{
    if steps.len() > 0 {
        let p = steps.drop_last();
        lemma_steps_keep_wf(w, p);
        lemma_steps_keep_mode(w, p);
        let wm = run_steps(w, p);
        match steps.last() {
            WriteStep::Array(b) => {
                law_byte_array_written(wm, b);
                assert(splice(wm.buffer, wm.position, array_encoding(b)).len() == wm.buffer.len());
            },
            WriteStep::Plain(b) => {
                assert(splice(wm.buffer, wm.position, b).len() == wm.buffer.len());
            },
            _ => {},
        }
    }
}

/// One write call on a buffer, with its argument.
pub enum WriteCall {
    U8(u8),
    I8(i8),
    I32(i32),
    U32(u32),
    I64(i64),
    U64(u64),
    Bool(bool),
    Bytes(Vec<u8>),
    ByteArray(Vec<u8>),
    Str(String),
    Skip(usize),
}

impl WriteCall {
    /// The step the call makes, by the contract of the write it stands for.
    pub open spec fn step(self) -> WriteStep {
        match self {
            WriteCall::U8(x) => WriteStep::Plain(seq![x]),
            WriteCall::I8(x) => WriteStep::Plain(seq![x as u8]),
            WriteCall::I32(x) => WriteStep::Plain(le_u32(x as u32)),
            WriteCall::U32(x) => WriteStep::Plain(le_u32(x)),
            WriteCall::I64(x) => WriteStep::Plain(le_u64(x as u64)),
            WriteCall::U64(x) => WriteStep::Plain(le_u64(x)),
            WriteCall::Bool(b) => WriteStep::Plain(le_u32(if b { BOOL_TRUE_ID } else { BOOL_FALSE_ID })),
            WriteCall::Bytes(v) => WriteStep::Plain(v@),
            WriteCall::ByteArray(v) => WriteStep::Array(v@),
            WriteCall::Str(t) => WriteStep::Array(vstd::utf8::encode_utf8(t@)),
            WriteCall::Skip(n) => WriteStep::Skip(n as nat),
        }
    }
}

/// The steps a list of calls makes, in order.
pub open spec fn call_steps(calls: Seq<WriteCall>) -> Seq<WriteStep> {
    calls.map_values(|c: WriteCall| c.step())
}

/// Every step goes through on a size-calculating buffer, which counts each
/// step's size and keeps its position.
proof fn lemma_counting_steps(c: BufferView, steps: Seq<WriteStep>)
    requires
        c.calculate,
    ensures
        steps_ok(c, steps),
        run_steps(c, steps).capacity == c.capacity + steps_size(steps),
        run_steps(c, steps).position == c.position,
        run_steps(c, steps).calculate,
    decreases steps.len(),
{
    if steps.len() > 0 {
        lemma_counting_steps(c, steps.drop_last());
    }
}

/// On a storing buffer with room for all of them, every step goes through.
proof fn lemma_room_for_steps(w: BufferView, steps: Seq<WriteStep>)
    requires
        !w.calculate,
        w.wf(),
        w.position + steps_size(steps) <= w.limit,
    ensures
        steps_ok(w, steps),
    decreases steps.len(),
{
    if steps.len() > 0 {
        let p = steps.drop_last();
        lemma_room_for_steps(w, p);
        let c = BufferView { calculate: true, ..w };
        law_measure_matches_write(c, w, p);
        lemma_steps_keep_wf(w, p);
        lemma_steps_keep_mode(w, p);
        let wm = run_steps(w, p);
        match steps.last() {
            WriteStep::Array(b) => {
                let h = array_header(b.len());
                let z = zeros(array_padding(b.len()));
                assert(array_encoding(b).len() == h.len() + b.len() + z.len());
            },
            _ => {},
        }
    }
}

/// A prefix of steps that all go through goes through.
proof fn lemma_steps_ok_prefix(v: BufferView, steps: Seq<WriteStep>, i: int)
    requires
        0 <= i <= steps.len(),
        steps_ok(v, steps),
    ensures
        steps_ok(v, steps.take(i)),
    decreases steps.len(),
{
    if i < steps.len() {
        assert(steps.drop_last().take(i) =~= steps.take(i));
        lemma_steps_ok_prefix(v, steps.drop_last(), i);
    } else {
        assert(steps.take(i) =~= steps);
    }
}

/// One step leaves a valid buffer valid and keeps its mode.
proof fn lemma_step_keeps_wf(v: BufferView, st: WriteStep)
    requires
        v.wf(),
    ensures
        v.step(st).wf(),
        v.step(st).calculate == v.calculate,
{
    match st {
        WriteStep::Plain(b) => {
            assert(splice(v.buffer, v.position, b).len() == v.buffer.len() || !v.fits(b.len()) || v.calculate);
        },
        WriteStep::Array(b) => {
            if !v.calculate {
                let h = array_header(b.len());
                let z = zeros(array_padding(b.len()));
                if v.fits(h.len()) {
                    let s1 = v.put(h);
                    assert(s1.buffer.len() == v.buffer.len());
                    if s1.fits(b.len()) {
                        let s2 = s1.put(b);
                        assert(s2.buffer.len() == v.buffer.len());
                        if s2.fits(z.len()) {
                            assert(s2.put(z).buffer.len() == v.buffer.len());
                        }
                    }
                }
            }
        },
        _ => {},
    }
}

impl SerializedBuffer {
    /// Makes the write call `c`: the write it stands for, or `skip`. A skip
    /// always answers `Ok`, as it cannot fail.
    pub fn write_call(&mut self, c: &WriteCall) -> (r: Result<(), Error>)
        requires
            old(self)@.wf(),
            old(self)@.calculate ==> old(self)@.capacity + c.step().size() <= usize::MAX,
        ensures
            final(self)@ == old(self)@.step(c.step()),
            !(c.step() is Skip) ==> (r is Ok <==> old(self)@.step_ok(c.step())),
            c.step() is Skip ==> r is Ok,
    {
        match c {
            WriteCall::U8(x) => self.write_u8(*x),
            WriteCall::I8(x) => self.write_i8(*x),
            WriteCall::I32(x) => self.write_i32(*x),
            WriteCall::U32(x) => self.write_u32(*x),
            WriteCall::I64(x) => self.write_i64(*x),
            WriteCall::U64(x) => self.write_u64(*x),
            WriteCall::Bool(b) => self.write_bool(*b),
            WriteCall::Bytes(v) => self.write_bytes(v.as_slice()),
            WriteCall::ByteArray(v) => self.write_byte_array(v.as_slice()),
            WriteCall::Str(t) => self.write_string(t.as_str()),
            WriteCall::Skip(n) => {
                self.skip(*n);
                Ok(())
            },
        }
    }

    /// Makes the calls in order, stopping at the first write that fails. When
    /// every step goes through the answer is `Ok`; an `Ok` leaves the buffer as
    /// the steps do.
    pub fn write_calls(&mut self, calls: &[WriteCall]) -> (r: Result<(), Error>)
        requires
            old(self)@.wf(),
            old(self)@.calculate ==> old(self)@.capacity + steps_size(call_steps(calls@)) <= usize::MAX,
        ensures
            final(self)@.wf(),
            steps_ok(old(self)@, call_steps(calls@)) ==> r is Ok,
            r is Ok ==> final(self)@ == run_steps(old(self)@, call_steps(calls@)),
    {
        let ghost v0 = self@;
        let ghost steps = call_steps(calls@);
        proof {
            if v0.calculate {
                lemma_counting_steps(v0, steps);
            }
        }
        let mut i: usize = 0;
        while i < calls.len()
            invariant
                i <= calls@.len(),
                steps == call_steps(calls@),
                steps.len() == calls@.len(),
                v0 == old(self)@,
                self@ == run_steps(v0, steps.take(i as int)),
                self@.wf(),
                self@.calculate == v0.calculate,
                v0.calculate ==> v0.capacity + steps_size(steps) <= usize::MAX,
                v0.calculate ==> self@.capacity == v0.capacity + steps_size(steps.take(i as int)),
            decreases calls@.len() - i,
        {
            proof {
                assert(steps.take(i + 1).drop_last() =~= steps.take(i as int));
                assert(steps[i as int] == calls@[i as int].step());
                if v0.calculate {
                    lemma_counting_steps(v0, steps.take(i + 1));
                    lemma_steps_size_prefix(steps, i + 1);
                }
                lemma_step_keeps_wf(self@, steps[i as int]);
            }
            let r = self.write_call(&calls[i]);
            if r.is_err() {
                proof {
                    if steps_ok(v0, steps) {
                        lemma_steps_ok_prefix(v0, steps, i + 1);
                    }
                }
                return r;
            }
            i = i + 1;
        }
        assert(steps.take(calls@.len() as int) =~= steps);
        Ok(())
    }
}

proof fn lemma_steps_size_prefix(steps: Seq<WriteStep>, i: int)
    requires
        0 <= i <= steps.len(),
    ensures
        steps_size(steps.take(i)) <= steps_size(steps),
    decreases steps.len(),
{
    if i < steps.len() {
        assert(steps.drop_last().take(i) =~= steps.take(i));
        lemma_steps_size_prefix(steps.drop_last(), i);
    } else {
        assert(steps.take(i) =~= steps);
    }
}

/// The buffer of a value written by these calls, in two passes: they are first
/// measured on a size-calculating buffer, then written into a buffer of exactly
/// the measured size, which is rewound. Every write of the second pass goes
/// through, and the buffer is filled to its end.
pub fn to_buffer(calls: &[WriteCall]) -> (r: Result<SerializedBuffer, Error>)
    requires
        steps_size(call_steps(calls@)) <= usize::MAX,
    ensures
        r matches Ok(b) && b@ == run_steps(
            BufferView {
                buffer: Seq::new(steps_size(call_steps(calls@)), |i: int| 0u8),
                position: 0,
                limit: steps_size(call_steps(calls@)),
                capacity: steps_size(call_steps(calls@)),
                calculate: false,
            },
            call_steps(calls@),
        ).at(0) && b@.limit == steps_size(call_steps(calls@)) && b@.buffer.len() == b@.limit,
{
    let ghost steps = call_steps(calls@);
    let mut measure = SerializedBuffer::new(true);
    proof {
        lemma_counting_steps(measure@, steps);
    }
    let _ = measure.write_calls(calls);
    let size = measure.capacity();
    let mut buff = SerializedBuffer::new_with_size(size);
    let ghost w0 = buff@;
    proof {
        lemma_room_for_steps(w0, steps);
        let c = BufferView { calculate: true, ..w0 };
        law_measure_matches_write(c, w0, steps);
        lemma_steps_keep_wf(w0, steps);
        lemma_steps_keep_mode(w0, steps);
    }
    match buff.write_calls(calls) {
        Ok(()) => {},
        Err(e) => {
            proof {
                assert(false);
            }
            return Err(e);
        },
    }
    buff.rewind();
    Ok(buff)
}

/// Reading back a byte array at the position where it was written gives the array,
/// for arrays whose length fits the three-byte header.
pub proof fn law_byte_array_roundtrip(v: BufferView, b: Seq<u8>)
    requires
        !v.calculate,
        v.wf(),
        b.len() <= 0xff_ffff,
        v.write_array(b).1,
    ensures
        v.write_array(b).0.at(v.position).read_array_result() == Some(
            (b, array_encoding(b).len()),
        ),
{
    law_byte_array_written(v, b);
    let e = array_encoding(b);
    let p: int = v.position as int;
    let w = v.put(e).at(v.position);
    let h = array_header(b.len());
    assert(w.buffer.subrange(p, p + e.len()) =~= e);
    assert forall|i: int| 0 <= i < e.len() implies w.buffer[p + i] == e[i] by {
        assert(w.buffer.subrange(p, p + e.len())[i] == e[i]);
    }
    if b.len() <= 253 {
        assert(w.buffer[p] == e[0]);
        assert(w.array_len_at() == Some((b.len(), 1nat)));
        assert(w.buffer.subrange(p + 1, p + 1 + b.len()) =~= b) by {
            assert forall|i: int| 0 <= i < b.len() implies w.buffer[p + 1 + i] == b[i] by {
                assert(e[1 + i] == b[i]);
            }
        }
    } else {
        let l = b.len() as u64;
        lemma_header_len(l);
        assert(w.buffer[p] == 254u8);
        assert(w.buffer[p + 1] == l as u8);
        assert(w.buffer[p + 2] == (l >> 8u64) as u8);
        assert(w.buffer[p + 3] == (l >> 16u64) as u8);
        assert(w.array_len_at() == Some((b.len(), 4nat)));
        assert(w.buffer.subrange(p + 4, p + 4 + b.len()) =~= b) by {
            assert forall|i: int| 0 <= i < b.len() implies w.buffer[p + 4 + i] == b[i] by {
                assert(e[4 + i] == b[i]);
            }
        }
    }
}

/// Text written as a byte array reads back unchanged, for texts whose UTF-8 form
/// fits the three-byte header.
pub proof fn law_string_roundtrip(v: BufferView, s: Seq<char>)
    requires
        !v.calculate,
        v.wf(),
        vstd::utf8::encode_utf8(s).len() <= 0xff_ffff,
        v.write_array(vstd::utf8::encode_utf8(s)).1,
    ensures
        v.write_array(vstd::utf8::encode_utf8(s)).0.at(v.position).read_array_result() matches Some(
            (data, _),
        ) && utf8_or_empty(data) == s,
{
    law_byte_array_roundtrip(v, vstd::utf8::encode_utf8(s));
    vstd::utf8::encode_utf8_valid_utf8(s);
    vstd::utf8::encode_utf8_decode_utf8(s);
}

} // verus!
