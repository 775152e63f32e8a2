use crate::buffer::write::{LONG_LENGTH_INDICATOR, NULL_LENGTH_INDICATOR};
use crate::error::{Error, ReadError, Result};
use vstd::prelude::*;

verus! {

/// What reading from the front of some bytes gives: the value and the bytes behind it.
pub type Reading<T> = core::result::Result<(T, Seq<u8>), ReadError>;

/// The number that bytes stand for, most significant first.
pub open spec fn be_value(bytes: Seq<u8>) -> nat
    decreases bytes.len(),
{
    if bytes.len() == 0 {
        0
    } else {
        be_value(bytes.drop_last()) * 0x100 + bytes.last() as nat
    }
}

/// `count` bytes from the front.
pub open spec fn reading_bytes(bytes: Seq<u8>, count: nat) -> Reading<Seq<u8>> {
    if bytes.len() < count {
        Err(ReadError::Truncated)
    } else {
        Ok((bytes.take(count as int), bytes.skip(count as int)))
    }
}

/// An integer in the compact form, of at most `max` bytes, from the front.
pub open spec fn reading_ub(bytes: Seq<u8>, max: nat) -> Reading<nat> {
    if bytes.len() == 0 {
        Err(ReadError::Truncated)
    } else if bytes[0] > max {
        Err(ReadError::IntegerTooLong)
    } else if bytes.len() < 1 + bytes[0] {
        Err(ReadError::Truncated)
    } else {
        Ok((be_value(bytes.subrange(1, 1 + bytes[0])), bytes.skip(1 + bytes[0])))
    }
}

/// The chunks of a long byte string from the front, put together.
pub open spec fn reading_chunks(bytes: Seq<u8>) -> Reading<Seq<u8>>
    decreases bytes.len(),
{
    match reading_ub(bytes, 4) {
        Err(error) => Err(error),
        Ok((size, rest)) => if size == 0 {
            Ok((Seq::empty(), rest))
        } else if rest.len() < size {
            Err(ReadError::Truncated)
        } else {
            match reading_chunks(rest.skip(size as int)) {
                Err(error) => Err(error),
                Ok((tail, behind)) => Ok((rest.take(size as int) + tail, behind)),
            }
        },
    }
}

/// A byte string with its length from the front; `None` where there is no value.
pub open spec fn reading_with_length(bytes: Seq<u8>) -> Reading<Option<Seq<u8>>> {
    if bytes.len() == 0 {
        Err(ReadError::Truncated)
    } else if bytes[0] == 0 || bytes[0] == NULL_LENGTH_INDICATOR {
        Ok((None, bytes.skip(1)))
    } else if bytes[0] == LONG_LENGTH_INDICATOR {
        match reading_chunks(bytes.skip(1)) {
            Err(error) => Err(error),
            Ok((value, rest)) => Ok((Some(value), rest)),
        }
    } else if bytes.len() < 1 + bytes[0] {
        Err(ReadError::Truncated)
    } else {
        Ok((Some(bytes.subrange(1, 1 + bytes[0])), bytes.skip(1 + bytes[0])))
    }
}

/// At most `2^(8 n)` numbers have `n` bytes.
proof fn lemma_be_value_bound(bytes: Seq<u8>)
    ensures
        bytes.len() <= 2 ==> be_value(bytes) <= u16::MAX,
        bytes.len() <= 4 ==> be_value(bytes) <= u32::MAX,
{
    reveal_with_fuel(be_value, 5);
}

/// Buffer that a message is read from.
///
/// A read that fails leaves the buffer as it was.
#[derive(Debug)]
pub struct ReadBuffer<'a> {
    rest: &'a [u8],
}

impl<'a> View for ReadBuffer<'a> {
    type V = Seq<u8>;

    /// The bytes that were not read yet.
    closed spec fn view(&self) -> Seq<u8> {
        self.rest@
    }
}

impl<'a> ReadBuffer<'a> {
    /// Create a buffer over the given bytes
    pub fn from_slice(bytes: &'a [u8]) -> (buf: Self)
        ensures
            buf@ == bytes@,
    {
        ReadBuffer { rest: bytes }
    }

    /// Whether at least `count` bytes are left
    pub fn has_remaining(&self, count: usize) -> (enough: bool)
        ensures
            enough == (count <= self@.len()),
    {
        count <= self.rest.len()
    }

    /// Take `count` bytes off the front
    fn advance(&mut self, count: usize) -> (bytes: &'a [u8])
        requires
            count <= old(self)@.len(),
        ensures
            bytes@ == old(self)@.take(count as int),
            final(self)@ == old(self)@.skip(count as int),
    {
        let bytes = vstd::slice::slice_subrange(self.rest, 0, count);
        self.rest = vstd::slice::slice_subrange(self.rest, count, self.rest.len());
        assert(bytes@ =~= old(self)@.take(count as int));
        assert(self@ =~= old(self)@.skip(count as int));
        bytes
    }

    /// Skip `count` bytes
    pub fn skip(&mut self, count: usize) -> (result: Result<()>)
        ensures
            match reading_bytes(old(self)@, count as nat) {
                Ok((_, rest)) => result is Ok && final(self)@ == rest,
                Err(error) => result == Err::<(), Error>(Error::Buffer(error)) && final(self)@
                    == old(self)@,
            },
    {
        if self.rest.len() < count {
            return Err(Error::Buffer(ReadError::Truncated));
        }
        let _ = self.advance(count);
        Ok(())
    }

    /// Read `count` bytes
    pub fn read_bytes_vec(&mut self, count: usize) -> (result: Result<Vec<u8>>)
        ensures
            match reading_bytes(old(self)@, count as nat) {
                Ok((bytes, rest)) => result matches Ok(value) && value@ == bytes && final(self)@
                    == rest,
                Err(error) => result == Err::<Vec<u8>, Error>(Error::Buffer(error))
                    && final(self)@ == old(self)@,
            },
    {
        if self.rest.len() < count {
            return Err(Error::Buffer(ReadError::Truncated));
        }
        Ok(vstd::slice::slice_to_vec(self.advance(count)))
    }

    /// Read one byte
    pub fn read_u8(&mut self) -> (result: Result<u8>)
        ensures
            match reading_bytes(old(self)@, 1) {
                Ok((bytes, rest)) => result == Ok::<u8, Error>(bytes[0]) && final(self)@ == rest,
                Err(error) => result == Err::<u8, Error>(Error::Buffer(error)) && final(self)@
                    == old(self)@,
            },
    {
        if self.rest.len() < 1 {
            return Err(Error::Buffer(ReadError::Truncated));
        }
        let bytes = self.advance(1);
        Ok(bytes[0])
    }

    /// Read two bytes, most significant first
    pub fn read_u16_be(&mut self) -> (result: Result<u16>)
        ensures
            match reading_bytes(old(self)@, 2) {
                Ok((bytes, rest)) => result matches Ok(value) && value == be_value(bytes)
                    && final(self)@ == rest,
                Err(error) => result == Err::<u16, Error>(Error::Buffer(error)) && final(self)@
                    == old(self)@,
            },
    {
        if self.rest.len() < 2 {
            return Err(Error::Buffer(ReadError::Truncated));
        }
        let bytes = self.advance(2);
        proof {
            reveal_with_fuel(be_value, 3);
        }
        Ok(bytes[0] as u16 * 0x100 + bytes[1] as u16)
    }

    /// Read an integer in the compact form, of at most `max` bytes
    fn read_ub(&mut self, max: u8) -> (result: Result<u32>)
        requires
            max <= 4,
        ensures
            match reading_ub(old(self)@, max as nat) {
                Ok((value, rest)) => result matches Ok(number) && number == value && final(self)@
                    == rest,
                Err(error) => result == Err::<u32, Error>(Error::Buffer(error)) && final(self)@
                    == old(self)@,
            },
    {
        if self.rest.len() < 1 {
            return Err(Error::Buffer(ReadError::Truncated));
        }
        let size: u8 = self.rest[0];
        if size > max {
            return Err(Error::Buffer(ReadError::IntegerTooLong));
        }
        if self.rest.len() < 1 + size as usize {
            return Err(Error::Buffer(ReadError::Truncated));
        }
        let bytes = self.advance(1 + size as usize);
        let ghost digits = old(self)@.subrange(1, 1 + size);
        let mut value: u32 = 0;
        let mut i: usize = 0;
        assert(digits.take(0) =~= Seq::<u8>::empty());
        while i < size as usize
            invariant
                i <= size <= 4,
                bytes@.len() == 1 + size,
                digits =~= bytes@.skip(1),
                value == be_value(digits.take(i as int)),
            decreases size - i,
        {
            proof {
                lemma_be_value_bound(digits.take(i + 1));
                assert(digits.take(i + 1).drop_last() =~= digits.take(i as int));
            }
            value = value * 0x100 + bytes[i + 1] as u32;
            i = i + 1;
        }
        assert(digits.take(size as int) =~= digits);
        Ok(value)
    }

    /// Read an integer of at most two bytes in the compact form
    pub fn read_ub2(&mut self) -> (result: Result<u16>)
        ensures
            match reading_ub(old(self)@, 2) {
                Ok((value, rest)) => result matches Ok(number) && number == value && final(self)@
                    == rest,
                Err(error) => result == Err::<u16, Error>(Error::Buffer(error)) && final(self)@
                    == old(self)@,
            },
    {
        proof {
            if self@.len() > 0 && self@[0] <= 2 && self@.len() >= 1 + self@[0] {
                lemma_be_value_bound(self@.subrange(1, 1 + self@[0]));
            }
        }
        match self.read_ub(2) {
            Ok(value) => Ok(value as u16),
            Err(error) => Err(error),
        }
    }

    /// Read an integer of at most four bytes in the compact form
    pub fn read_ub4(&mut self) -> (result: Result<u32>)
        ensures
            match reading_ub(old(self)@, 4) {
                Ok((value, rest)) => result matches Ok(number) && number == value && final(self)@
                    == rest,
                Err(error) => result == Err::<u32, Error>(Error::Buffer(error)) && final(self)@
                    == old(self)@,
            },
    {
        self.read_ub(4)
    }

    /// Skip an integer of at most four bytes in the compact form
    pub fn skip_ub4(&mut self) -> (result: Result<()>)
        ensures
            match reading_ub(old(self)@, 4) {
                Ok((_, rest)) => result is Ok && final(self)@ == rest,
                Err(error) => result == Err::<(), Error>(Error::Buffer(error)) && final(self)@
                    == old(self)@,
            },
    {
        match self.read_ub(4) {
            Ok(_) => Ok(()),
            Err(error) => Err(error),
        }
    }

    /// Read the chunks of a long byte string
    fn read_chunks(&mut self) -> (result: Result<Vec<u8>>)
        ensures
            match reading_chunks(old(self)@) {
                Ok((bytes, rest)) => result matches Ok(value) && value@ == bytes && final(self)@
                    == rest,
                Err(error) => result == Err::<Vec<u8>, Error>(Error::Buffer(error)),
            },
    {
        let mut value: Vec<u8> = Vec::new();
        loop
            invariant
                match reading_chunks(self@) {
                    Ok((tail, rest)) => reading_chunks(old(self)@) == Ok::<
                        (Seq<u8>, Seq<u8>),
                        ReadError,
                    >((value@ + tail, rest)),
                    Err(error) => reading_chunks(old(self)@) == Err::<
                        (Seq<u8>, Seq<u8>),
                        ReadError,
                    >(error),
                },
            decreases self@.len(),
        {
            let ghost before = self@;
            let ghost read = value@;
            let size: u32 = match self.read_ub(4) {
                Ok(size) => size,
                Err(error) => {
                    return Err(error);
                },
            };
            if size == 0 {
                assert(value@ + Seq::<u8>::empty() =~= value@);
                return Ok(value);
            }
            if self.rest.len() < size as usize {
                return Err(Error::Buffer(ReadError::Truncated));
            }
            let ghost rest = self@;
            let chunk = self.advance(size as usize);
            value.extend_from_slice(chunk);
            assert(value@ =~= read + rest.take(size as int));
            proof {
                if let Ok((tail, behind)) = reading_chunks(self@) {
                    assert(read + (rest.take(size as int) + tail) =~= value@ + tail);
                }
            }
        }
    }

    /// Read a byte string with its length; `None` where there is no value
    pub fn read_bytes_with_length(&mut self) -> (result: Result<Option<Vec<u8>>>)
        ensures
            match reading_with_length(old(self)@) {
                Ok((value, rest)) => result matches Ok(bytes) && opt_bytes(bytes) == value
                    && final(self)@ == rest,
                Err(error) => result == Err::<Option<Vec<u8>>, Error>(Error::Buffer(error))
                    && final(self)@ == old(self)@,
            },
    {
        if self.rest.len() < 1 {
            return Err(Error::Buffer(ReadError::Truncated));
        }
        let start = self.rest;
        let size: u8 = self.rest[0];
        if size == 0 || size == NULL_LENGTH_INDICATOR {
            let _ = self.advance(1);
            return Ok(None);
        }
        if size == LONG_LENGTH_INDICATOR {
            let _ = self.advance(1);
            return match self.read_chunks() {
                Ok(value) => Ok(Some(value)),
                Err(error) => {
                    self.rest = start;
                    Err(error)
                },
            };
        }
        if self.rest.len() < 1 + size as usize {
            return Err(Error::Buffer(ReadError::Truncated));
        }
        let bytes = self.advance(1 + size as usize);
        let value = vstd::slice::slice_subrange(bytes, 1, bytes.len());
        assert(value@ =~= old(self)@.subrange(1, 1 + size));
        Ok(Some(vstd::slice::slice_to_vec(value)))
    }
}

/// The bytes of a byte string that may be absent.
pub open spec fn opt_bytes(bytes: Option<Vec<u8>>) -> Option<Seq<u8>> {
    match bytes {
        Some(b) => Some(b@),
        None => None,
    }
}

} // verus!
