use vstd::prelude::*;
use crate::pm::error::{Error, SerializationError};
use crate::pm::serializable::{
    le_u32,
    le_u64,
    BufferView,
    SerializedBuffer,
    BOOL_FALSE_ID,
    BOOL_TRUE_ID,
};

verus! {

/// The PM serializer: writes values into its buffer, which may be one that only
/// measures (see `SerializedBuffer::new(true)`).
pub struct Serializer {
    buff: SerializedBuffer,
}

impl View for Serializer {
    type V = BufferView;

    closed spec fn view(&self) -> BufferView {
        self.buff@
    }
}

/// State of a compound value being serialized: its element count and the index
/// of the next element.
pub struct SerStruct<'a> {
    ser: &'a mut Serializer,
    len: u32,
    next_index: u32,
}

impl<'a> SerStruct<'a> {
    /// Starts a compound value of `len` elements on `ser`.
    pub fn new(ser: &'a mut Serializer, len: u32) -> (s: Self)
        ensures
            s.len() == len,
            s.next_index() == 0,
            s.ser_view() == old(ser)@,
    {
        SerStruct { ser, len, next_index: 0 }
    }

    /// Number of elements of the compound value.
    pub closed spec fn len(&self) -> u32 {
        self.len
    }

    /// Index of the next element.
    pub closed spec fn next_index(&self) -> u32 {
        self.next_index
    }

    /// State of the underlying serializer.
    pub closed spec fn ser_view(&self) -> BufferView {
        self.ser@
    }

    /// The serializer that receives the elements.
    pub fn serializer(&mut self) -> (r: &mut Serializer)
        ensures
            r@ == old(self).ser_view(),
            final(self).ser_view() == final(r)@,
            final(self).len() == old(self).len(),
            final(self).next_index() == old(self).next_index(),
    {
        &mut *self.ser
    }
}

/// The compound serializer for maps, which PM cannot represent.
pub struct SerNone {}

impl SerNone {
    /// Map keys cannot be serialized.
    pub fn serialize_key(&mut self) -> (r: Result<(), Error>)
        ensures
            r matches Err(e) && e@ == SerializationError::UnserializableType,
    {
        Err(Error::new(SerializationError::UnserializableType))
    }

    /// Map values cannot be serialized.
    pub fn serialize_value(&mut self) -> (r: Result<(), Error>)
        ensures
            r matches Err(e) && e@ == SerializationError::UnserializableType,
    {
        Err(Error::new(SerializationError::UnserializableType))
    }
}


/// `len` as a 32-bit element count, refused when it does not fit.
pub fn safe_uint_cast(len: usize) -> (r: Result<u32, Error>)
    ensures
        len <= u32::MAX ==> r == Ok::<u32, Error>(len as u32),
        len > u32::MAX ==> (r matches Err(e) && e@ == SerializationError::SeqTooLong),
{
    if len as u64 > 0xffff_ffffu64 {
        Err(Error::new(SerializationError::SeqTooLong))
    } else {
        Ok(len as u32)
    }
}

/// A serializer's buffer accepts a write of `n` bytes without panicking.
pub open spec fn can_take(v: BufferView, n: nat) -> bool {
    &&& v.in_bounds(n)
    &&& v.calculate ==> v.capacity + n <= usize::MAX
}

impl Serializer {
    /// A serializer writing into `buff`.
    pub fn from_buffer(buff: SerializedBuffer) -> (s: Serializer)
        ensures
            s@ == buff@,
    {
        Serializer { buff }
    }

    /// The buffer written so far.
    pub fn into_buffer(self) -> (b: SerializedBuffer)
        ensures
            b@ == self@,
    {
        self.buff
    }

    /// The buffer written so far.
    pub fn buffer(&self) -> (b: &SerializedBuffer)
        ensures
            b@ == self@,
    {
        &self.buff
    }

    /// Writes a bool.
    pub fn serialize_bool(&mut self, v: bool) -> (r: Result<(), Error>)
        requires
            can_take(old(self)@, 4),
        ensures
            final(self)@ == old(self)@.write(le_u32(if v { BOOL_TRUE_ID } else { BOOL_FALSE_ID })),
            r is Ok <==> old(self)@.write_ok(4),
            r matches Err(e) ==> e@ == SerializationError::I32Error,
    {
        self.buff.write_bool(v)
    }

    /// Writes a signed byte.
    pub fn serialize_i8(&mut self, v: i8) -> (r: Result<(), Error>)
        requires
            can_take(old(self)@, 1),
        ensures
            final(self)@ == old(self)@.write(seq![v as u8]),
            r is Ok <==> old(self)@.write_ok(1),
            r matches Err(e) ==> e@ == SerializationError::I8Error,
    {
        self.buff.write_i8(v)
    }

    /// 16-bit integers have no PM form.
    pub fn serialize_i16(&mut self, v: i16) -> (r: Result<(), Error>)
        ensures
            final(self)@ == old(self)@,
            r matches Err(e) && e@ == SerializationError::UnserializableType,
    {
        Err(Error::new(SerializationError::UnserializableType))
    }

    /// Writes a 32-bit integer.
    pub fn serialize_i32(&mut self, v: i32) -> (r: Result<(), Error>)
        requires
            can_take(old(self)@, 4),
        ensures
            final(self)@ == old(self)@.write(le_u32(v as u32)),
            r is Ok <==> old(self)@.write_ok(4),
            r matches Err(e) ==> e@ == SerializationError::I32Error,
    {
        self.buff.write_i32(v)
    }

    /// Writes a 64-bit integer.
    pub fn serialize_i64(&mut self, v: i64) -> (r: Result<(), Error>)
        requires
            can_take(old(self)@, 8),
        ensures
            final(self)@ == old(self)@.write(le_u64(v as u64)),
            r is Ok <==> old(self)@.write_ok(8),
            r matches Err(e) ==> e@ == SerializationError::I64Error,
    {
        self.buff.write_i64(v)
    }

    /// Writes a byte.
    pub fn serialize_u8(&mut self, v: u8) -> (r: Result<(), Error>)
        requires
            can_take(old(self)@, 1),
        ensures
            final(self)@ == old(self)@.write(seq![v]),
            r is Ok <==> old(self)@.write_ok(1),
            r matches Err(e) ==> e@ == SerializationError::U8Error,
    {
        self.buff.write_u8(v)
    }

    /// 16-bit integers have no PM form.
    pub fn serialize_u16(&mut self, v: u16) -> (r: Result<(), Error>)
        ensures
            final(self)@ == old(self)@,
            r matches Err(e) && e@ == SerializationError::UnserializableType,
    {
        Err(Error::new(SerializationError::UnserializableType))
    }

    /// Writes an unsigned 32-bit integer.
    pub fn serialize_u32(&mut self, v: u32) -> (r: Result<(), Error>)
        requires
            can_take(old(self)@, 4),
        ensures
            final(self)@ == old(self)@.write(le_u32(v)),
            r is Ok <==> old(self)@.write_ok(4),
            r matches Err(e) ==> e@ == SerializationError::I32Error,
    {
        self.buff.write_u32(v)
    }

    /// Writes an unsigned 64-bit integer.
    pub fn serialize_u64(&mut self, v: u64) -> (r: Result<(), Error>)
        requires
            can_take(old(self)@, 8),
        ensures
            final(self)@ == old(self)@.write(le_u64(v)),
            r is Ok <==> old(self)@.write_ok(8),
            r matches Err(e) ==> e@ == SerializationError::I64Error,
    {
        self.buff.write_u64(v)
    }

    /// Writes a char as its 32-bit scalar value.
    pub fn serialize_char(&mut self, v: char) -> (r: Result<(), Error>)
        requires
            can_take(old(self)@, 4),
        ensures
            final(self)@ == old(self)@.write(le_u32(v as u32)),
            r is Ok <==> old(self)@.write_ok(4),
            r matches Err(e) ==> e@ == SerializationError::I32Error,
    {
        self.buff.write_u32(v as u32)
    }

    /// Writes a string as a byte array of its UTF-8 bytes.
    pub fn serialize_str(&mut self, v: &str) -> (r: Result<(), Error>)
        requires
            old(self)@.wf(),
            old(self)@.calculate ==> old(self)@.capacity
                + crate::pm::serializable::array_encoding(vstd::utf8::encode_utf8(v@)).len()
                <= usize::MAX,
        ensures
            final(self)@ == old(self)@.write_array(vstd::utf8::encode_utf8(v@)).0,
            r is Ok <==> old(self)@.write_array(vstd::utf8::encode_utf8(v@)).1,
            r matches Err(e) ==> e@ == SerializationError::ByteArrayError,
    {
        self.buff.write_string(v)
    }

    /// Writes bytes as a byte array.
    pub fn serialize_bytes(&mut self, v: &[u8]) -> (r: Result<(), Error>)
        requires
            old(self)@.wf(),
            old(self)@.calculate ==> old(self)@.capacity
                + crate::pm::serializable::array_encoding(v@).len() <= usize::MAX,
        ensures
            final(self)@ == old(self)@.write_array(v@).0,
            r is Ok <==> old(self)@.write_array(v@).1,
            r matches Err(e) ==> e@ == SerializationError::ByteArrayError,
    {
        self.buff.write_byte_array(v)
    }

    /// Options have no PM form.
    pub fn serialize_none(&mut self) -> (r: Result<(), Error>)
        ensures
            final(self)@ == old(self)@,
            r matches Err(e) && e@ == SerializationError::UnserializableType,
    {
        Err(Error::new(SerializationError::UnserializableType))
    }

    /// Options have no PM form.
    pub fn serialize_some(&mut self) -> (r: Result<(), Error>)
        ensures
            final(self)@ == old(self)@,
            r matches Err(e) && e@ == SerializationError::UnserializableType,
    {
        Err(Error::new(SerializationError::UnserializableType))
    }

    /// The unit value has no PM form.
    pub fn serialize_unit(&mut self) -> (r: Result<(), Error>)
        ensures
            final(self)@ == old(self)@,
            r matches Err(e) && e@ == SerializationError::UnserializableType,
    {
        Err(Error::new(SerializationError::UnserializableType))
    }

    /// Unit structs have no PM form.
    pub fn serialize_unit_struct(&mut self) -> (r: Result<(), Error>)
        ensures
            final(self)@ == old(self)@,
            r matches Err(e) && e@ == SerializationError::UnserializableType,
    {
        Err(Error::new(SerializationError::UnserializableType))
    }

    /// Writes a unit variant as the low byte of its index.
    pub fn serialize_unit_variant(&mut self, variant_index: u32) -> (r: Result<(), Error>)
        requires
            can_take(old(self)@, 1),
        ensures
            final(self)@ == old(self)@.write(seq![variant_index as u8]),
            r is Ok <==> old(self)@.write_ok(1),
            r matches Err(e) ==> e@ == SerializationError::U8Error,
    {
        self.buff.write_u8(variant_index as u8)
    }

    /// Writes the low byte of a variant index ahead of the variant's payload; a
    /// failure to write it is not reported.
    pub fn serialize_variant_tag(&mut self, variant_index: u32)
        requires
            can_take(old(self)@, 1),
        ensures
            final(self)@ == old(self)@.write(seq![variant_index as u8]),
    {
        let _ = self.buff.write_u8(variant_index as u8);
    }

    /// Starts a sequence: writes its element count as a 32-bit integer; sequences
    /// of unknown length have no PM form.
    pub fn serialize_seq<'a>(&'a mut self, len: Option<usize>) -> (r: Result<SerStruct<'a>, Error>)
        requires
            can_take(old(self)@, 4),
        ensures
            len is None ==> (r matches Err(e) && e@ == SerializationError::UnserializableType),
            len is Some && old(self)@.write_ok(4) ==> (r matches Ok(s) && s.len() == len.unwrap() as u32
                && s.next_index() == 0 && s.ser_view() == old(self)@.write(le_u32(len.unwrap() as u32))),
            len is Some && !old(self)@.write_ok(4) ==> (r matches Err(e) && e@
                == SerializationError::I32Error),
    {
        match len {
            Some(len) => {
                self.buff.write_u32(len as u32)?;
                Ok(SerStruct::new(self, len as u32))
            },
            None => Err(Error::new(SerializationError::UnserializableType)),
        }
    }

    /// Starts a tuple of `len` elements; nothing is written for it.
    pub fn serialize_tuple<'a>(&'a mut self, len: usize) -> (r: Result<SerStruct<'a>, Error>)
        ensures
            len <= u32::MAX ==> (r matches Ok(s) && s.len() == len as u32 && s.next_index() == 0
                && s.ser_view() == old(self)@),
            len > u32::MAX ==> (r matches Err(e) && e@ == SerializationError::SeqTooLong),
    {
        let n = safe_uint_cast(len)?;
        Ok(SerStruct::new(self, n))
    }

    /// Starts a tuple struct of `len` fields; nothing is written for it.
    pub fn serialize_tuple_struct<'a>(&'a mut self, len: usize) -> (r: Result<SerStruct<'a>, Error>)
        ensures
            len <= u32::MAX ==> (r matches Ok(s) && s.len() == len as u32 && s.next_index() == 0
                && s.ser_view() == old(self)@),
            len > u32::MAX ==> (r matches Err(e) && e@ == SerializationError::SeqTooLong),
    {
        let n = safe_uint_cast(len)?;
        Ok(SerStruct::new(self, n))
    }

    /// Starts a tuple variant: writes the low byte of its index (a failure to
    /// write it is not reported), then starts a tuple of `len` fields.
    pub fn serialize_tuple_variant<'a>(&'a mut self, variant_index: u32, len: usize) -> (r: Result<
        SerStruct<'a>,
        Error,
    >)
        requires
            can_take(old(self)@, 1),
        ensures
            len <= u32::MAX ==> (r matches Ok(s) && s.len() == len as u32 && s.next_index() == 0
                && s.ser_view() == old(self)@.write(seq![variant_index as u8])),
            len > u32::MAX ==> (r matches Err(e) && e@ == SerializationError::SeqTooLong),
    {
        let _ = self.buff.write_u8(variant_index as u8);
        let n = safe_uint_cast(len)?;
        Ok(SerStruct::new(self, n))
    }

    /// Maps have no PM form.
    pub fn serialize_map(&mut self, len: Option<usize>) -> (r: Result<SerNone, Error>)
        ensures
            final(self)@ == old(self)@,
            r matches Err(e) && e@ == SerializationError::UnserializableType,
    {
        Err(Error::new(SerializationError::UnserializableType))
    }

    /// Starts a struct of `len` fields (truncated to 32 bits); nothing is written for it.
    pub fn serialize_struct<'a>(&'a mut self, len: usize) -> (r: SerStruct<'a>)
        ensures
            r.len() == len as u32,
            r.next_index() == 0,
            r.ser_view() == old(self)@,
    {
        SerStruct::new(self, len as u32)
    }

    /// Struct variants have no PM form; the low byte of the index is written
    /// before the refusal.
    pub fn serialize_struct_variant(&mut self, variant_index: u32) -> (r: Result<(), Error>)
        requires
            can_take(old(self)@, 1),
        ensures
            final(self)@ == old(self)@.write(seq![variant_index as u8]),
            r matches Err(e) && e@ == SerializationError::UnserializableType,
    {
        let _ = self.buff.write_u8(variant_index as u8);
        Err(Error::new(SerializationError::UnserializableType))
    }

    /// Display-formatted values are skipped: nothing is written.
    pub fn collect_str(&mut self) -> (r: Result<(), Error>)
        ensures
            final(self)@ == old(self)@,
            r is Ok,
    {
        Ok(())
    }

    /// The PM form is binary.
    pub fn is_human_readable(&self) -> (r: bool)
        ensures
            !r,
    {
        false
    }
}

} // verus!
