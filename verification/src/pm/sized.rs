use vstd::prelude::*;
use crate::pm::error::{Error, SerializationError};
use crate::pm::serializable::{array_encoding, array_header, array_padding, zeros, BufferView};

verus! {

/// Size of a bool PM value.
pub const BOOL_SIZE: usize = 4;

/// Size of a byte PM value.
pub const BYTE_SIZE: usize = 1;

/// Size of an int PM value.
pub const INT_SIZE: usize = 4;

/// Size of a long PM value.
pub const LONG_SIZE: usize = 8;

/// Size of a float PM value.
pub const FLOAT_SIZE: usize = 4;

/// Size of a double PM value.
pub const DOUBLE_SIZE: usize = 8;

/// Size of an int128 PM value.
pub const INT128_SIZE: usize = 16;

/// Size of the PM form of a byte sequence of `len` bytes (length prefix, data,
/// padding), when the length fits the three-byte prefix.
pub open spec fn spec_byte_seq_size(len: nat) -> Option<nat> {
    if len <= 253 {
        Some((1 + len + (4 - (len + 1) % 4) % 4) as nat)
    } else if len <= 0xff_ffff {
        Some((4 + len + (4 - len % 4) % 4) as nat)
    } else {
        None
    }
}

/// Size of the PM form of a byte sequence of `len` bytes, including its length
/// prefix and padding; sequences longer than `0xff_ffff` bytes are refused.
pub fn size_hint_from_byte_seq_len(len: usize) -> (r: Result<usize, Error>)
    ensures
        match spec_byte_seq_size(len as nat) {
            Some(n) => r == Ok::<usize, Error>(n as usize),
            None => r matches Err(e) && e@ == SerializationError::SeqTooLong,
        },
        r matches Ok(n) ==> n % 4 == 0,
{
    let (len_info, data, padding) = if len <= 253 {
        (1usize, len, (4 - (len + 1) % 4) % 4)
    } else if len <= 0xff_ff_ff {
        (4usize, len, (4 - len % 4) % 4)
    } else {
        return Err(Error::new(SerializationError::SeqTooLong));
    };
    let size = len_info + data + padding;
    Ok(size)
}

/// The measured size of a byte array is the length of its wire encoding.
pub proof fn law_byte_seq_size_is_encoding_len(b: Seq<u8>)
    requires
        b.len() <= 0xff_ffff,
    ensures
        spec_byte_seq_size(b.len()) == Some(array_encoding(b).len()),
{
}

/// Measuring a byte array in a size-calculating buffer counts exactly the bytes
/// that a storing buffer with that much room receives: the two passes of
/// size-then-write agree.
pub proof fn law_measure_then_write(c: BufferView, w: BufferView, b: Seq<u8>)
    requires
        c.calculate,
        !w.calculate,
        w.wf(),
        b.len() <= 0xff_ffff,
        w.position + spec_byte_seq_size(b.len()).unwrap() <= w.limit,
    ensures
        c.write_array(b).1,
        c.write_array(b).0.capacity == c.capacity + spec_byte_seq_size(b.len()).unwrap(),
        w.write_array(b).1,
        w.write_array(b).0.position == w.position + spec_byte_seq_size(b.len()).unwrap(),
{
    crate::pm::serializable::law_byte_array_written(w, b);
}

/// Rejects sequences whose length does not fit in 32 bits.
pub fn check_seq_len(len: usize) -> (r: Result<(), Error>)
    ensures
        r is Ok <==> len <= u32::MAX,
        r matches Err(e) ==> e@ == SerializationError::SeqTooLong,
{
    if len as u64 > 0xffff_ffffu64 {
        Err(Error::new(SerializationError::SeqTooLong))
    } else {
        Ok(())
    }
}

/// A value whose PM size can be computed without serializing it.
pub trait PMSized {
    /// The size of the PM form, or `None` when the value cannot be serialized.
    spec fn spec_pm_size(&self) -> Option<nat>;

    /// Computes the size of the PM form without serializing.
    fn size_hint(&self) -> (r: Result<usize, Error>)
        ensures
            r matches Ok(n) ==> self.spec_pm_size() == Some(n as nat),
            self.spec_pm_size() matches Some(n) && n <= usize::MAX ==> r is Ok,
    ;
}

impl PMSized for bool {
    open spec fn spec_pm_size(&self) -> Option<nat> {
        Some(BOOL_SIZE as nat)
    }

    fn size_hint(&self) -> (r: Result<usize, Error>) {
        Ok(BOOL_SIZE)
    }
}

/// A signed byte is counted as an int: four bytes, as the size documentation
/// and its example count it.
impl PMSized for i8 {
    open spec fn spec_pm_size(&self) -> Option<nat> {
        Some(INT_SIZE as nat)
    }

    fn size_hint(&self) -> (r: Result<usize, Error>) {
        Ok(INT_SIZE)
    }
}

impl PMSized for i16 {
    open spec fn spec_pm_size(&self) -> Option<nat> {
        Some(INT_SIZE as nat)
    }

    fn size_hint(&self) -> (r: Result<usize, Error>) {
        Ok(INT_SIZE)
    }
}

impl PMSized for i32 {
    open spec fn spec_pm_size(&self) -> Option<nat> {
        Some(INT_SIZE as nat)
    }

    fn size_hint(&self) -> (r: Result<usize, Error>) {
        Ok(INT_SIZE)
    }
}

impl PMSized for i64 {
    open spec fn spec_pm_size(&self) -> Option<nat> {
        Some(LONG_SIZE as nat)
    }

    fn size_hint(&self) -> (r: Result<usize, Error>) {
        Ok(LONG_SIZE)
    }
}

impl PMSized for u8 {
    open spec fn spec_pm_size(&self) -> Option<nat> {
        Some(BYTE_SIZE as nat)
    }

    fn size_hint(&self) -> (r: Result<usize, Error>) {
        Ok(BYTE_SIZE)
    }
}

impl PMSized for u16 {
    open spec fn spec_pm_size(&self) -> Option<nat> {
        Some(INT_SIZE as nat)
    }

    fn size_hint(&self) -> (r: Result<usize, Error>) {
        Ok(INT_SIZE)
    }
}

impl PMSized for u32 {
    open spec fn spec_pm_size(&self) -> Option<nat> {
        Some(INT_SIZE as nat)
    }

    fn size_hint(&self) -> (r: Result<usize, Error>) {
        Ok(INT_SIZE)
    }
}

impl PMSized for u64 {
    open spec fn spec_pm_size(&self) -> Option<nat> {
        Some(LONG_SIZE as nat)
    }

    fn size_hint(&self) -> (r: Result<usize, Error>) {
        Ok(LONG_SIZE)
    }
}

impl PMSized for () {
    open spec fn spec_pm_size(&self) -> Option<nat> {
        Some(0)
    }

    fn size_hint(&self) -> (r: Result<usize, Error>) {
        Ok(0)
    }
}

impl PMSized for String {
    open spec fn spec_pm_size(&self) -> Option<nat> {
        spec_byte_seq_size(vstd::utf8::encode_utf8(self@).len())
    }

    fn size_hint(&self) -> (r: Result<usize, Error>) {
        size_hint_from_byte_seq_len(self.as_str().as_bytes().len())
    }
}

/// The sum of two sizes, `None` where either is.
pub open spec fn size_sum(a: Option<nat>, b: Option<nat>) -> Option<nat> {
    match (a, b) {
        (Some(x), Some(y)) => Some(x + y),
        _ => None,
    }
}

/// Adds the size `b` to `a`, both computed by `size_hint`; a total past
/// `usize::MAX` is refused.
fn add_size(a: Result<usize, Error>, b: Result<usize, Error>) -> (r: Result<usize, Error>)
    ensures
        r matches Ok(n) ==> a matches Ok(x) && b matches Ok(y) && n == x + y,
        (a matches Ok(x) && b matches Ok(y) && x + y <= usize::MAX) ==> r is Ok,
{
    let x = a?;
    let y = b?;
    match x.checked_add(y) {
        Some(n) => Ok(n),
        None => Err(Error::new(SerializationError::SeqTooLong)),
    }
}

impl<T1: PMSized> PMSized for (T1,) {
    open spec fn spec_pm_size(&self) -> Option<nat> {
        self.0.spec_pm_size()
    }

    fn size_hint(&self) -> (r: Result<usize, Error>) {
        self.0.size_hint()
    }
}

impl<T1: PMSized, T2: PMSized> PMSized for (T1, T2) {
    open spec fn spec_pm_size(&self) -> Option<nat> {
        size_sum(self.0.spec_pm_size(), self.1.spec_pm_size())
    }

    fn size_hint(&self) -> (r: Result<usize, Error>) {
        add_size(self.0.size_hint(), self.1.size_hint())
    }
}

impl<T1: PMSized, T2: PMSized, T3: PMSized> PMSized for (T1, T2, T3) {
    open spec fn spec_pm_size(&self) -> Option<nat> {
        size_sum(size_sum(self.0.spec_pm_size(), self.1.spec_pm_size()), self.2.spec_pm_size())
    }

    fn size_hint(&self) -> (r: Result<usize, Error>) {
        let a = add_size(self.0.size_hint(), self.1.size_hint());
        add_size(a, self.2.size_hint())
    }
}

impl<T1: PMSized, T2: PMSized, T3: PMSized, T4: PMSized> PMSized for (T1, T2, T3, T4) {
    open spec fn spec_pm_size(&self) -> Option<nat> {
        size_sum(
            size_sum(size_sum(self.0.spec_pm_size(), self.1.spec_pm_size()), self.2.spec_pm_size()),
            self.3.spec_pm_size(),
        )
    }

    fn size_hint(&self) -> (r: Result<usize, Error>) {
        let a = add_size(self.0.size_hint(), self.1.size_hint());
        let b = add_size(a, self.2.size_hint());
        add_size(b, self.3.size_hint())
    }
}

/// Total PM size of a sequence of elements, `None` as soon as one element has none.
pub open spec fn seq_elems_size<T: PMSized>(s: Seq<T>) -> Option<nat>
    decreases s.len(),
{
    if s.len() == 0 {
        Some(0)
    } else {
        match (seq_elems_size(s.drop_last()), s.last().spec_pm_size()) {
            (Some(a), Some(b)) => Some(a + b),
            _ => None,
        }
    }
}

/// PM size of a sequence: a four-byte length and the elements; sequences with
/// 2^32 or more elements, or whose size reaches 2^32, cannot be serialized.
pub open spec fn spec_seq_size<T: PMSized>(s: Seq<T>) -> Option<nat> {
    if s.len() > u32::MAX {
        None
    } else {
        match seq_elems_size(s) {
            Some(n) => if 4 + n <= u32::MAX {
                Some(4 + n)
            } else {
                None
            },
            None => None,
        }
    }
}

/// The size of the elements of a prefix never exceeds that of the whole sequence.
proof fn lemma_elems_size_prefix<T: PMSized>(s: Seq<T>, i: int)
    requires
        0 <= i <= s.len(),
        seq_elems_size(s) is Some,
    ensures
        seq_elems_size(s.take(i)) is Some,
        seq_elems_size(s.take(i)).unwrap() <= seq_elems_size(s).unwrap(),
    decreases s.len(),
{
    if i < s.len() {
        assert(s.take(i) =~= s.drop_last().take(i));
        lemma_elems_size_prefix(s.drop_last(), i);
    } else {
        assert(s.take(i) =~= s);
    }
}

impl<T: PMSized> PMSized for Vec<T> {
    open spec fn spec_pm_size(&self) -> Option<nat> {
        spec_seq_size(self@)
    }

    fn size_hint(&self) -> (r: Result<usize, Error>) {
        check_seq_len(self.len())?;
        let mut result: usize = 4;
        let mut i: usize = 0;
        while i < self.len()
            invariant
                i <= self@.len(),
                self@.len() <= u32::MAX,
                seq_elems_size(self@.take(i as int)) == Some((result - 4) as nat),
                4 <= result <= u32::MAX,
            decreases self@.len() - i,
        {
            let n = match self[i].size_hint() {
                Ok(n) => n,
                Err(e) => {
                    proof {
                        if seq_elems_size(self@) is Some {
                            lemma_elems_size_prefix(self@, i + 1);
                            assert(self@.take(i + 1).drop_last() =~= self@.take(i as int));
                        }
                    }
                    return Err(e);
                },
            };
            proof {
                assert(self@.take(i + 1).drop_last() =~= self@.take(i as int));
            }
            if n as u64 > 0xffff_ffffu64 - result as u64 {
                proof {
                    if seq_elems_size(self@) is Some {
                        lemma_elems_size_prefix(self@, i + 1);
                    }
                }
                return Err(Error::new(SerializationError::SeqTooLong));
            }
            result = result + n;
            i = i + 1;
        }
        assert(self@.take(i as int) =~= self@);
        check_seq_len(result)?;
        Ok(result)
    }
}

} // verus!
