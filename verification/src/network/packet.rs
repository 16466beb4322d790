use vstd::prelude::*;
use crate::pm::serializable::{le_u32, BufferView};

verus! {

/// The node's packet buffer: a byte buffer with a position and a limit, whose
/// integer accessors insist on room (a caller that writes or reads past the limit
/// is refused by the contract). A buffer made to calculate sizes only counts bytes.
pub struct SerializedBuffer {
    buffer: Vec<u8>,
    position: usize,
    limit: usize,
    capacity: usize,
    calculated_size_only: bool,
}

impl View for SerializedBuffer {
    type V = BufferView;

    closed spec fn view(&self) -> BufferView {
        BufferView {
            buffer: self.buffer@,
            position: self.position as nat,
            limit: self.limit as nat,
            capacity: self.capacity as nat,
            calculate: self.calculated_size_only,
        }
    }
}

impl SerializedBuffer {
    /// A storing buffer of `size` bytes, limit and capacity `size`; the bytes hold
    /// no particular values.
    pub fn new_with_size(size: usize) -> (sb: SerializedBuffer)
        ensures
            sb@.buffer.len() == size,
            sb@.position == 0,
            sb@.limit == size,
            sb@.capacity == size,
            !sb@.calculate,
    {
        SerializedBuffer {
            buffer: vec![0u8; size],
            position: 0,
            limit: size,
            capacity: size,
            calculated_size_only: false,
        }
    }

    /// An empty buffer; with `calculate` set it only counts the bytes written to it.
    pub fn new(calculate: bool) -> (sb: SerializedBuffer)
        ensures
            sb@ == (BufferView {
                buffer: Seq::<u8>::empty(),
                position: 0,
                limit: 0,
                capacity: 0,
                calculate,
            }),
    {
        SerializedBuffer {
            buffer: Vec::new(),
            position: 0,
            limit: 0,
            capacity: 0,
            calculated_size_only: calculate,
        }
    }

    /// A storing buffer holding a copy of `buff`, with limit and capacity `length`.
    pub fn new_with_buffer(buff: &[u8], length: usize) -> (sb: SerializedBuffer)
        ensures
            sb@ == (BufferView {
                buffer: buff@,
                position: 0,
                limit: length as nat,
                capacity: length as nat,
                calculate: false,
            }),
    {
        SerializedBuffer {
            buffer: vstd::slice::slice_to_vec(buff),
            position: 0,
            limit: length,
            capacity: length,
            calculated_size_only: false,
        }
    }

    /// Moves the position to `pos`, unless the position already lies past the limit.
    pub fn set_position(&mut self, pos: usize)
        ensures
            final(self)@ == if old(self)@.position > old(self)@.limit {
                old(self)@
            } else {
                old(self)@.at(pos as nat)
            },
    {
        if self.position > self.limit {
            return ;
        }
        self.position = pos;
    }

    /// Sets the limit when it does not exceed the capacity, pulling the position back to it.
    pub fn set_limit(&mut self, limit: usize)
        ensures
            final(self)@ == if limit > old(self)@.capacity {
                old(self)@
            } else if old(self)@.position > limit {
                BufferView { position: limit as nat, limit: limit as nat, ..old(self)@ }
            } else {
                BufferView { limit: limit as nat, ..old(self)@ }
            },
    {
        if limit > self.capacity {
            return ;
        }
        if self.position > limit {
            self.position = limit;
        }
        self.limit = limit;
    }

    /// Sets the limit to the position and the position to zero.
    pub fn flip(&mut self)
        ensures
            final(self)@ == (BufferView { limit: old(self)@.position, position: 0, ..old(self)@ }),
    {
        self.limit = self.position;
        self.position = 0;
    }

    /// Sets the limit to the capacity and the position to zero.
    pub fn clear(&mut self)
        ensures
            final(self)@ == (BufferView { limit: old(self)@.capacity, position: 0, ..old(self)@ }),
    {
        self.limit = self.capacity;
        self.position = 0;
    }

    /// The position.
    pub fn position(&self) -> (r: usize)
        ensures
            r as nat == self@.position,
    {
        self.position
    }

    /// The capacity.
    pub fn capacity(&self) -> (r: usize)
        ensures
            r as nat == self@.capacity,
    {
        self.capacity
    }

    /// The whole storage, for direct access.
    pub fn buffer(&mut self) -> (r: &mut [u8])
        ensures
            r@ == old(self)@.buffer,
            final(self)@ == (BufferView { buffer: final(r)@, ..old(self)@ }),
    {
        self.buffer.as_mut_slice()
    }

    /// The limit.
    pub fn limit(&self) -> (r: usize)
        ensures
            r as nat == self@.limit,
    {
        self.limit
    }

    /// Number of bytes between the position and the limit.
    pub fn remaining(&self) -> (r: usize)
        requires
            self@.position <= self@.limit,
        ensures
            r as nat == self@.limit - self@.position,
    {
        self.limit - self.position
    }

    /// Resets the byte count of a size-calculating buffer; a storing buffer is left alone.
    pub fn clear_capacity(&mut self)
        ensures
            old(self)@.calculate ==> final(self)@ == (BufferView { capacity: 0, ..old(self)@ }),
            !old(self)@.calculate ==> final(self)@ == old(self)@,
    {
        if !self.calculated_size_only {
            return ;
        }
        self.capacity = 0;
    }

    /// Sets the position to zero.
    pub fn rewind(&mut self)
        ensures
            final(self)@ == old(self)@.at(0),
    {
        self.position = 0;
    }

    /// Leaves the buffer as it is.
    pub fn compact(&self) {
        if self.position == self.limit {
            return ;
        }
    }

    /// Moves the position forward by `len` when that stays within the limit; a
    /// size-calculating buffer counts `len` more bytes instead.
    pub fn skip(&mut self, len: usize)
        requires
            old(self)@.calculate ==> old(self)@.capacity + len <= usize::MAX,
        ensures
            final(self)@ == if old(self)@.calculate {
                old(self)@.grow(len as nat)
            } else if old(self)@.fits(len as nat) {
                old(self)@.advance(len as nat)
            } else {
                old(self)@
            },
    {
        if !self.calculated_size_only {
            if self.position > self.limit || self.limit - self.position < len {
                return ;
            }
            self.position = self.position + len;
        } else {
            self.capacity = self.capacity + len;
        }
    }

    /// Writes a 32-bit integer, little-endian; a storing buffer must have room for it.
    pub fn write_i32(&mut self, i: i32)
        requires
            !old(self)@.calculate ==> old(self)@.fits(4) && old(self)@.in_bounds(4),
            old(self)@.calculate ==> old(self)@.capacity + 4 <= usize::MAX,
        ensures
            final(self)@ == old(self)@.write(le_u32(i as u32)),
    {
        if !self.calculated_size_only {
            let u = i as u32;
            let p = self.position;
            self.buffer.set(p, u as u8);
            self.buffer.set(p + 1, (u >> 8u32) as u8);
            self.buffer.set(p + 2, (u >> 16u32) as u8);
            self.buffer.set(p + 3, (u >> 24u32) as u8);
            self.position = p + 4;
            assert(self@.buffer =~= crate::pm::serializable::splice(
                old(self)@.buffer,
                p as nat,
                le_u32(i as u32),
            ));
        } else {
            self.capacity = self.capacity + 4;
        }
    }

    /// Reads a 32-bit little-endian integer; the buffer must hold four bytes before the limit.
    pub fn read_i32(&mut self) -> (r: i32)
        requires
            old(self)@.fits(4),
            old(self)@.in_bounds(4),
        ensures
            old(self)@.read_u32_result() == Some(r as u32),
            final(self)@ == old(self)@.advance(4),
    {
        let p = self.position;
        let b0 = self.buffer[p] as u32;
        let b1 = self.buffer[p + 1] as u32;
        let b2 = self.buffer[p + 2] as u32;
        let b3 = self.buffer[p + 3] as u32;
        let w = b0 | (b1 << 8u32) | (b2 << 16u32) | (b3 << 24u32);
        self.position = p + 4;
        assert(((w as i32) as u32) == w) by (bit_vector);
        w as i32
    }
}

/// A message that can be written to and read from a packet buffer.
pub trait Packet {
    fn read_params(&self, stream: &SerializedBuffer, error: bool);

    fn serialize_to_stream(&self, stream: &mut SerializedBuffer);
}

} // verus!
