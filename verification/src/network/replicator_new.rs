use vstd::prelude::*;
use byteorder::ByteOrder;

verus! {

/// The number four bytes stand for, least significant first.
pub open spec fn le_u32_of(b: Seq<u8>) -> int {
    b[0] + b[1] * 0x100 + b[2] * 0x1_0000 + b[3] * 0x100_0000
}

/// The number four bytes stand for, most significant first.
pub open spec fn be_u32_of(b: Seq<u8>) -> int {
    b[0] * 0x100_0000 + b[1] * 0x1_0000 + b[2] * 0x100 + b[3]
}

/// `byteorder::NativeEndian::read_u32`: the number in four bytes, in the byte
/// order of the machine. Claimed of every outcome: it is the little-endian or
/// the big-endian reading, whichever the machine uses.
#[verifier::external_body]
fn read_u32_native(buf: &[u8; 4]) -> (r: u32)
    ensures
        r == le_u32_of(buf@) || r == be_u32_of(buf@),
{
    byteorder::NativeEndian::read_u32(buf)
}

/// Where the reading of one packet stands: the body's length once known, how many
/// length bytes were read, the first byte, and the body once read.
pub enum ReadState {
    ReadingData { len: u32, current_read: u32, buf: Vec<u8>, f_b: u8, len_read: bool },
    Empty,
}

/// The reading of one packet from a stream: a length, then that many bytes.
pub struct ReadPacket {
    pub state: ReadState,
}

/// What the reader needs from the stream next.
#[derive(Copy, Clone, Debug, PartialEq, Eq, Structural)]
pub enum ReadNeed {
    /// The first byte of the length.
    FirstByte,
    /// The three other bytes of a long length.
    LengthRest,
    /// The body, of this many bytes.
    Body(u32),
    /// Nothing: the packet was handed out.
    Finished,
}

/// The body length of a short header: four times the first byte.
pub open spec fn short_len(first: u8) -> int {
    first * 4
}

/// The body length of a long header `0x7f, b0, b1, b2`: four times the 24-bit
/// number after the first byte, read in the machine's byte order.
pub open spec fn long_len_ok(first: u8, rest: Seq<u8>, len: u32) -> bool {
    let word = seq![first, rest[0], rest[1], rest[2]];
    len == (le_u32_of(word) / 0x100) * 4 || len == (be_u32_of(word) / 0x100) * 4
}

/// A reader that has read nothing yet and will hand out its packet in `buf`.
pub fn read_packet(buf: Vec<u8>) -> (r: ReadPacket)
    ensures
        r.need() == ReadNeed::FirstByte,
        r.state matches ReadState::ReadingData { len, current_read, buf: b, f_b, len_read }
            && len == 0 && current_read == 0 && b@ == buf@ && f_b == 0 && !len_read,
{
    ReadPacket {
        state: ReadState::ReadingData { len: 0, current_read: 0, buf, f_b: 0, len_read: false },
    }
}

impl ReadPacket {
    /// What the reader needs next.
    pub open spec fn need(&self) -> ReadNeed {
        match self.state {
            ReadState::ReadingData { len, current_read, len_read, .. } => if len_read {
                ReadNeed::Body(len)
            } else if current_read == 0 {
                ReadNeed::FirstByte
            } else {
                ReadNeed::LengthRest
            },
            ReadState::Empty => ReadNeed::Finished,
        }
    }

    /// What the reader needs next.
    pub fn next_need(&self) -> (r: ReadNeed)
        ensures
            r == self.need(),
    {
        match &self.state {
            ReadState::ReadingData { len, current_read, len_read, .. } => if *len_read {
                ReadNeed::Body(*len)
            } else if *current_read == 0 {
                ReadNeed::FirstByte
            } else {
                ReadNeed::LengthRest
            },
            ReadState::Empty => ReadNeed::Finished,
        }
    }

    /// Takes in the first byte: any byte but `0x7f` is a short header, four times
    /// the body length; `0x7f` starts a long header.
    pub fn on_first_byte(&mut self, b: u8)
        requires
            old(self).need() == ReadNeed::FirstByte,
        ensures
            b != 0x7f ==> final(self).need() == ReadNeed::Body((b * 4) as u32),
            b == 0x7f ==> final(self).need() == ReadNeed::LengthRest,
            final(self).first_byte() == b,
    {
        match &mut self.state {
            ReadState::ReadingData { len, current_read, f_b, len_read, .. } => {
                *current_read = 1;
                *f_b = b;
                if b != 0x7f {
                    *len = (b as u32) * 4;
                    *len_read = true;
                }
            },
            ReadState::Empty => {},
        }
    }

    /// The first byte read.
    pub open spec fn first_byte(&self) -> u8 {
        match self.state {
            ReadState::ReadingData { f_b, .. } => f_b,
            ReadState::Empty => 0,
        }
    }

    /// Takes in the three bytes after a long header's first byte.
    pub fn on_length_rest(&mut self, rest: [u8; 3])
        requires
            old(self).need() == ReadNeed::LengthRest,
        ensures
            (final(self).need() matches ReadNeed::Body(len) && long_len_ok(
                old(self).first_byte(),
                rest@,
                len,
            )),
    {
        match &mut self.state {
            ReadState::ReadingData { len, current_read, f_b, len_read, .. } => {
                let word: [u8; 4] = [*f_b, rest[0], rest[1], rest[2]];
                let msg_len = read_u32_native(&word);
                assert(word@ =~= seq![word@[0], rest@[0], rest@[1], rest@[2]]);
                assert((msg_len >> 8u32) == msg_len / 0x100) by (bit_vector);
                *len = (msg_len >> 8u32) * 4;
                *current_read = 4;
                *len_read = true;
            },
            ReadState::Empty => {},
        }
    }

    /// Takes in the body and hands it out; the reader is then finished.
    pub fn on_body(&mut self, body: Vec<u8>) -> (r: Vec<u8>)
        requires
            (old(self).need() matches ReadNeed::Body(len) && body@.len() == len),
        ensures
            r@ == body@,
            final(self).need() == ReadNeed::Finished,
    {
        self.state = ReadState::Empty;
        body
    }
}

/// A codec that ships bytes as they are: whatever was received is one frame.
pub struct Bytes;

impl Bytes {
    /// Takes every byte received so far as one frame; `None` when nothing came.
    pub fn decode(&mut self, buf: &mut Vec<u8>) -> (r: Option<Vec<u8>>)
        ensures
            r is None <==> old(buf)@.len() == 0,
            r is None ==> final(buf)@ == old(buf)@,
            r matches Some(f) ==> f@ == old(buf)@ && final(buf)@.len() == 0,
    {
        if buf.len() > 0 {
            let mut frame: Vec<u8> = Vec::new();
            std::mem::swap(&mut frame, buf);
            Some(frame)
        } else {
            None
        }
    }

    /// Appends the bytes to send to the output.
    pub fn encode(&mut self, data: Vec<u8>, buf: &mut Vec<u8>)
        ensures
            final(buf)@ == old(buf)@ + data@,
    {
        let mut data = data;
        buf.append(&mut data);
    }
}

} // verus!
