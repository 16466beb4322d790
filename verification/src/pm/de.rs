use vstd::prelude::*;
use crate::pm::error::{Error, SerializationError};
use crate::pm::serializable::{utf8_or_empty, BufferView, SerializedBuffer};
use crate::pm::ser::safe_uint_cast;

verus! {

/// The PM deserializer: reads values from a borrowed buffer.
pub struct Deserializer<'de> {
    buff: &'de mut SerializedBuffer,
}

impl<'de> View for Deserializer<'de> {
    type V = BufferView;

    closed spec fn view(&self) -> BufferView {
        self.buff@
    }
}

impl<'de> Deserializer<'de> {
    /// A deserializer reading from `stream`.
    pub fn new(stream: &'de mut SerializedBuffer) -> (d: Self)
        ensures
            d@ == old(stream)@,
    {
        Deserializer { buff: stream }
    }

    /// Self-describing input is not supported.
    pub fn deserialize_any(&mut self) -> (r: Result<(), Error>)
        ensures
            final(self)@ == old(self)@,
            r matches Err(e) && e@ == SerializationError::BoolError,
    {
        Err(Error::new(SerializationError::BoolError))
    }

    /// Reads a bool.
    pub fn deserialize_bool(&mut self) -> (r: Result<bool, Error>)
        requires
            old(self)@.in_bounds(4),
        ensures
            match old(self)@.read_u32_result() {
                None => (r matches Err(e) && e@ == SerializationError::I32Error) && final(self)@
                    == old(self)@,
                Some(w) => final(self)@ == old(self)@.advance(4) && match old(self)@.read_bool_result() {
                    Some(b) => r == Ok::<bool, Error>(b),
                    None => r matches Err(e) && e@ == SerializationError::BoolError,
                },
            },
    {
        self.buff.read_bool()
    }

    /// Reads a signed byte.
    pub fn deserialize_i8(&mut self) -> (r: Result<i8, Error>)
        requires
            old(self)@.in_bounds(1),
        ensures
            match old(self)@.read_u8_result() {
                Some(b) => r == Ok::<i8, Error>(b as i8) && final(self)@ == old(self)@.advance(1),
                None => (r matches Err(e) && e@ == SerializationError::U8Error) && final(self)@
                    == old(self)@,
            },
    {
        self.buff.read_i8()
    }

    /// 16-bit integers have no PM form.
    pub fn deserialize_i16(&mut self) -> (r: Result<i16, Error>)
        ensures
            final(self)@ == old(self)@,
            r matches Err(e) && e@ == SerializationError::UnserializableType,
    {
        Err(Error::new(SerializationError::UnserializableType))
    }

    /// Reads a 32-bit integer.
    pub fn deserialize_i32(&mut self) -> (r: Result<i32, Error>)
        requires
            old(self)@.in_bounds(4),
        ensures
            match old(self)@.read_u32_result() {
                Some(w) => r == Ok::<i32, Error>(w as i32) && final(self)@ == old(self)@.advance(4),
                None => (r matches Err(e) && e@ == SerializationError::I32Error) && final(self)@
                    == old(self)@,
            },
    {
        self.buff.read_i32()
    }

    /// Reads a 64-bit integer.
    pub fn deserialize_i64(&mut self) -> (r: Result<i64, Error>)
        requires
            old(self)@.in_bounds(8),
        ensures
            match old(self)@.read_u64_result() {
                Some(w) => r == Ok::<i64, Error>(w as i64) && final(self)@ == old(self)@.advance(8),
                None => (r matches Err(e) && e@ == SerializationError::I64Error) && final(self)@
                    == old(self)@,
            },
    {
        self.buff.read_i64()
    }

    /// Reads a byte.
    pub fn deserialize_u8(&mut self) -> (r: Result<u8, Error>)
        requires
            old(self)@.in_bounds(1),
        ensures
            match old(self)@.read_u8_result() {
                Some(b) => r == Ok::<u8, Error>(b) && final(self)@ == old(self)@.advance(1),
                None => (r matches Err(e) && e@ == SerializationError::U8Error) && final(self)@
                    == old(self)@,
            },
    {
        self.buff.read_u8()
    }

    /// 16-bit integers have no PM form.
    pub fn deserialize_u16(&mut self) -> (r: Result<u16, Error>)
        ensures
            final(self)@ == old(self)@,
            r matches Err(e) && e@ == SerializationError::UnserializableType,
    {
        Err(Error::new(SerializationError::UnserializableType))
    }

    /// Reads an unsigned 32-bit integer.
    pub fn deserialize_u32(&mut self) -> (r: Result<u32, Error>)
        requires
            old(self)@.in_bounds(4),
        ensures
            match old(self)@.read_u32_result() {
                Some(w) => r == Ok::<u32, Error>(w) && final(self)@ == old(self)@.advance(4),
                None => (r matches Err(e) && e@ == SerializationError::I32Error) && final(self)@
                    == old(self)@,
            },
    {
        self.buff.read_u32()
    }

    /// Reads an unsigned 64-bit integer.
    pub fn deserialize_u64(&mut self) -> (r: Result<u64, Error>)
        requires
            old(self)@.in_bounds(8),
        ensures
            match old(self)@.read_u64_result() {
                Some(w) => r == Ok::<u64, Error>(w) && final(self)@ == old(self)@.advance(8),
                None => (r matches Err(e) && e@ == SerializationError::I64Error) && final(self)@
                    == old(self)@,
            },
    {
        self.buff.read_u64()
    }

    /// Reads a char from a single byte.
    pub fn deserialize_char(&mut self) -> (r: Result<char, Error>)
        requires
            old(self)@.in_bounds(1),
        ensures
            match old(self)@.read_u8_result() {
                Some(b) => (r matches Ok(c) && c as u32 == b as u32) && final(self)@ == old(self)@.advance(1),
                None => (r matches Err(e) && e@ == SerializationError::U8Error) && final(self)@
                    == old(self)@,
            },
    {
        let b = self.buff.read_byte()?;
        Ok(b as char)
    }

    /// Reads a string.
    pub fn deserialize_string(&mut self) -> (r: Result<String, Error>)
        requires
            old(self)@.array_in_bounds(),
        ensures
            match old(self)@.read_array_result() {
                Some((data, n)) => (r matches Ok(s) && s@ == utf8_or_empty(data)) && final(self)@
                    == old(self)@.advance(n),
                None => (r matches Err(e) && e@ == SerializationError::StringError) && final(self)@
                    == old(self)@.advance(old(self)@.header_consumed()),
            },
    {
        self.buff.read_string()
    }

    /// Reads a string, for a visitor that borrows it.
    pub fn deserialize_str(&mut self) -> (r: Result<String, Error>)
        requires
            old(self)@.array_in_bounds(),
        ensures
            match old(self)@.read_array_result() {
                Some((data, n)) => (r matches Ok(s) && s@ == utf8_or_empty(data)) && final(self)@
                    == old(self)@.advance(n),
                None => (r matches Err(e) && e@ == SerializationError::StringError) && final(self)@
                    == old(self)@.advance(old(self)@.header_consumed()),
            },
    {
        self.buff.read_string()
    }

    /// Reads a byte array, for a visitor that takes it by value.
    pub fn deserialize_byte_buf(&mut self) -> (r: Result<Vec<u8>, Error>)
        requires
            old(self)@.array_in_bounds(),
        ensures
            match old(self)@.read_array_result() {
                Some((data, n)) => (r matches Ok(v) && v@ == data) && final(self)@ == old(self)@.advance(n),
                None => (r matches Err(e) && e@ == SerializationError::ByteArrayError) && final(self)@ == old(self)@.advance(old(self)@.header_consumed()),
            },
    {
        self.buff.read_byte_array()
    }

    /// Reads a byte array.
    pub fn deserialize_bytes(&mut self) -> (r: Result<Vec<u8>, Error>)
        requires
            old(self)@.array_in_bounds(),
        ensures
            match old(self)@.read_array_result() {
                Some((data, n)) => (r matches Ok(v) && v@ == data) && final(self)@ == old(self)@.advance(n),
                None => (r matches Err(e) && e@ == SerializationError::ByteArrayError) && final(self)@ == old(self)@.advance(old(self)@.header_consumed()),
            },
    {
        self.buff.read_byte_array()
    }

    /// Options have no PM form.
    pub fn deserialize_option(&mut self) -> (r: Result<(), Error>)
        ensures
            final(self)@ == old(self)@,
            r matches Err(e) && e@ == SerializationError::UnserializableType,
    {
        Err(Error::new(SerializationError::UnserializableType))
    }

    /// The unit value has no PM form.
    pub fn deserialize_unit(&mut self) -> (r: Result<(), Error>)
        ensures
            final(self)@ == old(self)@,
            r matches Err(e) && e@ == SerializationError::UnserializableType,
    {
        Err(Error::new(SerializationError::UnserializableType))
    }

    /// Maps have no PM form.
    pub fn deserialize_map(&mut self) -> (r: Result<(), Error>)
        ensures
            final(self)@ == old(self)@,
            r matches Err(e) && e@ == SerializationError::UnserializableType,
    {
        Err(Error::new(SerializationError::UnserializableType))
    }

    /// Values cannot be skipped.
    pub fn deserialize_ignored_any(&mut self) -> (r: Result<(), Error>)
        ensures
            final(self)@ == old(self)@,
            r matches Err(e) && e@ == SerializationError::UnserializableType,
    {
        Err(Error::new(SerializationError::UnserializableType))
    }

    /// Reads the element count of a sequence.
    pub fn deserialize_seq(&mut self) -> (r: Result<SeqAccess, Error>)
        requires
            old(self)@.in_bounds(4),
        ensures
            match old(self)@.read_u32_result() {
                Some(w) => (r matches Ok(s) && s.len == w && s.next_index == 0) && final(self)@
                    == old(self)@.advance(4),
                None => (r matches Err(e) && e@ == SerializationError::I32Error) && final(self)@
                    == old(self)@,
            },
    {
        let len = self.buff.read_u32()?;
        Ok(SeqAccess::new(len))
    }

    /// A tuple of `len` elements; nothing is read for it.
    pub fn deserialize_tuple(&mut self, len: usize) -> (r: Result<SeqAccess, Error>)
        ensures
            final(self)@ == old(self)@,
            len <= u32::MAX ==> (r matches Ok(s) && s.len == len as u32 && s.next_index == 0),
            len > u32::MAX ==> (r matches Err(e) && e@ == SerializationError::SeqTooLong),
    {
        Ok(SeqAccess::new(safe_uint_cast(len)?))
    }

    /// A struct with `nfields` fields, read as a sequence of that many elements.
    pub fn deserialize_struct(&mut self, nfields: usize) -> (r: Result<SeqAccess, Error>)
        ensures
            final(self)@ == old(self)@,
            nfields <= u32::MAX ==> (r matches Ok(s) && s.len == nfields as u32 && s.next_index
                == 0),
            nfields > u32::MAX ==> (r matches Err(e) && e@ == SerializationError::SeqTooLong),
    {
        Ok(SeqAccess::new(safe_uint_cast(nfields)?))
    }

    /// Reads an enum variant index from a single byte.
    pub fn deserialize_identifier(&mut self) -> (r: Result<u32, Error>)
        requires
            old(self)@.in_bounds(1),
        ensures
            match old(self)@.read_u8_result() {
                Some(b) => r == Ok::<u32, Error>(b as u32) && final(self)@ == old(self)@.advance(1),
                None => (r matches Err(e) && e@ == SerializationError::U8Error) && final(self)@
                    == old(self)@,
            },
    {
        let variant_id = self.buff.read_u8()?;
        Ok(variant_id as u32)
    }
}

/// Progress through the elements of a sequence being read.
pub struct SeqAccess {
    pub len: u32,
    pub next_index: u32,
}

impl SeqAccess {
    /// No element of `len` read yet.
    pub fn new(len: u32) -> (s: SeqAccess)
        ensures
            s.len == len,
            s.next_index == 0,
    {
        SeqAccess { len, next_index: 0 }
    }

    /// Claims the next element: true, and one more element counted, while elements
    /// are left; false once all have been read.
    pub fn next_element(&mut self) -> (more: bool)
        ensures
            more == (old(self).next_index < old(self).len),
            final(self).len == old(self).len,
            final(self).next_index == if more {
                (old(self).next_index + 1) as u32
            } else {
                old(self).next_index
            },
    {
        if self.next_index < self.len {
            self.next_index = self.next_index + 1;
            true
        } else {
            false
        }
    }

    /// Number of elements left.
    pub fn size_hint(&self) -> (r: usize)
        requires
            self.next_index <= self.len,
        ensures
            r == self.len - self.next_index,
    {
        (self.len - self.next_index) as usize
    }
}

} // verus!
