use vstd::prelude::*;

verus! {

/// Longest byte string that is written with its length in one byte.
pub const MAX_SHORT_LENGTH: usize = 252;

/// Byte in place of a length: the bytes follow in chunks.
pub const LONG_LENGTH_INDICATOR: u8 = 254;

/// Byte in place of a length: there is no value.
pub const NULL_LENGTH_INDICATOR: u8 = 255;

/// Most bytes that one chunk of a long byte string holds.
pub const CHUNK_SIZE: usize = 32767;

/// Two bytes, most significant first.
pub open spec fn be16(value: u16) -> Seq<u8> {
    seq![(value / 0x100) as u8, (value % 0x100) as u8]
}

/// Four bytes, most significant first.
pub open spec fn be32(value: u32) -> Seq<u8> {
    seq![
        (value / 0x100_0000) as u8,
        (value / 0x1_0000 % 0x100) as u8,
        (value / 0x100 % 0x100) as u8,
        (value % 0x100) as u8,
    ]
}

/// The compact form of an integer of up to four bytes.
pub open spec fn ub4(value: u32) -> Seq<u8> {
    if value == 0 {
        seq![0u8]
    } else if value <= 0xff {
        seq![1u8, value as u8]
    } else if value <= 0xffff {
        seq![2u8] + be16(value as u16)
    } else {
        seq![4u8] + be32(value)
    }
}

/// The compact form of an integer of up to eight bytes.
pub open spec fn ub8(value: u64) -> Seq<u8> {
    if value <= u32::MAX {
        ub4(value as u32)
    } else {
        seq![8u8] + be32((value / 0x1_0000_0000) as u32) + be32((value % 0x1_0000_0000) as u32)
    }
}

/// `count` zero bytes.
pub open spec fn zero_bytes(count: nat) -> Seq<u8> {
    Seq::new(count, |i: int| 0u8)
}

/// The chunks of a long byte string, each with its length, closed by an empty one.
pub open spec fn chunked(bytes: Seq<u8>) -> Seq<u8>
    decreases bytes.len(),
{
    if bytes.len() == 0 {
        seq![0u8]
    } else {
        let size: int = if bytes.len() < CHUNK_SIZE {
            bytes.len() as int
        } else {
            CHUNK_SIZE as int
        };
        ub4(size as u32) + bytes.take(size) + chunked(bytes.skip(size))
    }
}

/// A byte string with its length.
pub open spec fn with_length(bytes: Seq<u8>) -> Seq<u8> {
    if bytes.len() <= MAX_SHORT_LENGTH {
        seq![bytes.len() as u8] + bytes
    } else {
        seq![LONG_LENGTH_INDICATOR] + chunked(bytes)
    }
}

/// Buffer that a message is written into.
#[derive(Debug)]
pub struct WriteBuffer {
    data: Vec<u8>,
}

impl View for WriteBuffer {
    type V = Seq<u8>;

    closed spec fn view(&self) -> Seq<u8> {
        self.data@
    }
}

impl WriteBuffer {
    /// Create an empty buffer with space for `capacity` bytes
    pub fn with_capacity(capacity: usize) -> (buf: Self)
        ensures
            buf@ == Seq::<u8>::empty(),
    {
        WriteBuffer { data: Vec::with_capacity(capacity) }
    }

    /// Number of bytes written so far
    pub fn len(&self) -> (len: usize)
        ensures
            len == self@.len(),
    {
        self.data.len()
    }

    /// The bytes written so far
    pub fn as_slice(&self) -> (bytes: &[u8])
        ensures
            bytes@ == self@,
    {
        self.data.as_slice()
    }

    /// Write one byte
    pub fn write_u8(&mut self, value: u8)
        ensures
            final(self)@ == old(self)@.push(value),
    {
        self.data.push(value);
    }

    /// Write two bytes, most significant first
    pub fn write_u16_be(&mut self, value: u16)
        ensures
            final(self)@ == old(self)@ + be16(value),
    {
        self.data.push((value / 0x100) as u8);
        self.data.push((value % 0x100) as u8);
        assert(self@ =~= old(self)@ + be16(value));
    }

    /// Write four bytes, most significant first
    pub fn write_u32_be(&mut self, value: u32)
        ensures
            final(self)@ == old(self)@ + be32(value),
    {
        self.data.push((value / 0x100_0000) as u8);
        self.data.push((value / 0x1_0000 % 0x100) as u8);
        self.data.push((value / 0x100 % 0x100) as u8);
        self.data.push((value % 0x100) as u8);
        assert(self@ =~= old(self)@ + be32(value));
    }

    /// Write `count` zero bytes
    pub fn write_zeros(&mut self, count: usize)
        ensures
            final(self)@ == old(self)@ + zero_bytes(count as nat),
    {
        let mut written: usize = 0;
        assert(self@ =~= old(self)@ + zero_bytes(0));
        while written < count
            invariant
                written <= count,
                self@ == old(self)@ + zero_bytes(written as nat),
            decreases count - written,
        {
            self.data.push(0);
            written = written + 1;
            assert(zero_bytes(written as nat) =~= zero_bytes((written - 1) as nat).push(0));
            assert(self@ =~= old(self)@ + zero_bytes(written as nat));
        }
    }

    /// Write bytes as they are
    pub fn write_bytes(&mut self, bytes: &[u8])
        ensures
            final(self)@ == old(self)@ + bytes@,
    {
        self.data.extend_from_slice(bytes);
        assert(self@ =~= old(self)@ + bytes@);
    }

    /// Write an integer in the compact form
    pub fn write_ub4(&mut self, value: u32)
        ensures
            final(self)@ == old(self)@ + ub4(value),
    {
        if value == 0 {
            self.write_u8(0);
        } else if value <= 0xff {
            self.write_u8(1);
            self.write_u8(value as u8);
        } else if value <= 0xffff {
            self.write_u8(2);
            self.write_u16_be(value as u16);
        } else {
            self.write_u8(4);
            self.write_u32_be(value);
        }
        assert(self@ =~= old(self)@ + ub4(value));
    }

    /// Write an integer of up to eight bytes in the compact form
    pub fn write_ub8(&mut self, value: u64)
        ensures
            final(self)@ == old(self)@ + ub8(value),
    {
        if value <= u32::MAX as u64 {
            self.write_ub4(value as u32);
        } else {
            self.write_u8(8);
            self.write_u32_be((value / 0x1_0000_0000) as u32);
            self.write_u32_be((value % 0x1_0000_0000) as u32);
            assert(self@ =~= old(self)@ + ub8(value));
        }
    }

    /// Write a byte string with its length
    pub fn write_bytes_with_length(&mut self, bytes: &[u8])
        ensures
            final(self)@ == old(self)@ + with_length(bytes@),
    {
        let len: usize = bytes.len();
        if len <= MAX_SHORT_LENGTH {
            self.write_u8(len as u8);
            self.write_bytes(bytes);
            assert(self@ =~= old(self)@ + with_length(bytes@));
            return ;
        }
        self.write_u8(LONG_LENGTH_INDICATOR);
        let mut pos: usize = 0;
        let ghost head = old(self)@.push(LONG_LENGTH_INDICATOR);
        assert(bytes@.skip(0) =~= bytes@);
        while pos < len
            invariant
                pos <= len,
                len == bytes@.len(),
                self@ + chunked(bytes@.skip(pos as int)) =~= head + chunked(bytes@),
            decreases len - pos,
        {
            let size: usize = if len - pos < CHUNK_SIZE {
                len - pos
            } else {
                CHUNK_SIZE
            };
            self.write_ub4(size as u32);
            let chunk = vstd::slice::slice_subrange(bytes, pos, pos + size);
            self.write_bytes(chunk);
            assert(bytes@.skip(pos as int).take(size as int) =~= chunk@);
            assert(bytes@.skip(pos as int).skip(size as int) =~= bytes@.skip(pos + size));
            pos = pos + size;
        }
        assert(bytes@.skip(pos as int) =~= Seq::<u8>::empty());
        self.write_ub4(0);
        assert(self@ =~= old(self)@ + with_length(bytes@));
    }

    /// Take the bytes out of the buffer
    pub fn into_inner(self) -> (bytes: Vec<u8>)
        ensures
            bytes@ == self@,
    {
        self.data
    }
}

} // verus!
