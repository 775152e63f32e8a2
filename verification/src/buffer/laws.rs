//! What is read is what was written.

use crate::buffer::read::{
    be_value, reading_bytes, reading_chunks, reading_ub, reading_with_length,
};
use crate::buffer::write::{
    be16, be32, chunked, ub4, ub8, with_length, CHUNK_SIZE, LONG_LENGTH_INDICATOR, MAX_SHORT_LENGTH,
};
use crate::error::ReadError;
use vstd::prelude::*;

verus! {

/// The two bytes of a number stand for that number.
pub proof fn be16_reads_back(value: u16)
    ensures
        be_value(be16(value)) == value,
{
    reveal_with_fuel(be_value, 3);
    let bytes = be16(value);
    assert(bytes.drop_last() =~= seq![bytes[0]]);
    assert(seq![bytes[0]].drop_last() =~= Seq::<u8>::empty());
}

/// The four bytes of a number stand for that number.
pub proof fn be32_reads_back(value: u32)
    ensures
        be_value(be32(value)) == value,
{
    reveal_with_fuel(be_value, 5);
    let bytes = be32(value);
    assert(bytes.drop_last() =~= seq![bytes[0], bytes[1], bytes[2]]);
    assert(seq![bytes[0], bytes[1], bytes[2]].drop_last() =~= seq![bytes[0], bytes[1]]);
    assert(seq![bytes[0], bytes[1]].drop_last() =~= seq![bytes[0]]);
    assert(seq![bytes[0]].drop_last() =~= Seq::<u8>::empty());
}

/// Reading an integer in the compact form gives back the number that was written, and leaves what
/// stands behind it.
pub proof fn ub4_reads_back(value: u32, rest: Seq<u8>)
    ensures
        reading_ub(ub4(value) + rest, 4) == Ok::<(nat, Seq<u8>), ReadError>((value as nat, rest)),
{
    let bytes = ub4(value) + rest;
    let size = bytes[0] as int;
    assert(bytes.skip(1 + size) =~= rest);
    if value == 0 {
        assert(bytes.subrange(1, 1) =~= Seq::<u8>::empty());
    } else if value <= 0xff {
        assert(bytes.subrange(1, 2) =~= seq![value as u8]);
        reveal_with_fuel(be_value, 2);
        assert(seq![value as u8].drop_last() =~= Seq::<u8>::empty());
    } else if value <= 0xffff {
        be16_reads_back(value as u16);
        assert(bytes.subrange(1, 3) =~= be16(value as u16));
    } else {
        be32_reads_back(value);
        assert(bytes.subrange(1, 5) =~= be32(value));
    }
}

/// Reading the chunks of a byte string gives back the byte string, and leaves what stands behind.
pub proof fn chunked_reads_back(bytes: Seq<u8>, rest: Seq<u8>)
    ensures
        reading_chunks(chunked(bytes) + rest) == Ok::<(Seq<u8>, Seq<u8>), ReadError>(
            (bytes, rest),
        ),
    decreases bytes.len(),
{
    if bytes.len() == 0 {
        assert(chunked(bytes) =~= ub4(0));
        ub4_reads_back(0, rest);
        assert(bytes =~= Seq::<u8>::empty());
    } else {
        let size: int = if bytes.len() < CHUNK_SIZE {
            bytes.len() as int
        } else {
            CHUNK_SIZE as int
        };
        let behind = bytes.take(size) + chunked(bytes.skip(size)) + rest;
        assert(chunked(bytes) + rest =~= ub4(size as u32) + behind);
        ub4_reads_back(size as u32, behind);
        assert(behind.take(size) =~= bytes.take(size));
        assert(behind.skip(size) =~= chunked(bytes.skip(size)) + rest);
        chunked_reads_back(bytes.skip(size), rest);
        assert(bytes.take(size) + bytes.skip(size) =~= bytes);
    }
}

/// Reading a byte string with its length gives back the byte string that was written, and leaves
/// what stands behind it. An empty byte string reads back as no value.
pub proof fn with_length_reads_back(bytes: Seq<u8>, rest: Seq<u8>)
    ensures
        reading_with_length(with_length(bytes) + rest) == Ok::<
            (Option<Seq<u8>>, Seq<u8>),
            ReadError,
        >(
            (
                if bytes.len() == 0 {
                    None
                } else {
                    Some(bytes)
                },
                rest,
            ),
        ),
{
    let written = with_length(bytes) + rest;
    if bytes.len() <= MAX_SHORT_LENGTH {
        assert(written[0] == bytes.len());
        assert(written.skip(1 + bytes.len() as int) =~= rest);
        assert(written.subrange(1, 1 + bytes.len() as int) =~= bytes);
    } else {
        assert(written[0] == LONG_LENGTH_INDICATOR);
        assert(written.skip(1) =~= chunked(bytes) + rest);
        chunked_reads_back(bytes, rest);
    }
}

/// The compact form of an integer of up to four bytes: the number of bytes, which is none for zero
/// and otherwise one, two or four, whichever is enough, and the bytes, most significant first.
pub proof fn compact_form(value: u32)
    ensures
        value == 0 ==> ub4(value) == seq![0u8],
        0 < value <= 0xff ==> ub4(value) == seq![1u8, value as u8],
        0xff < value <= 0xffff ==> {
            &&& ub4(value).len() == 3
            &&& ub4(value)[0] == 2
            &&& ub4(value)[1] * 0x100 + ub4(value)[2] == value
        },
        0xffff < value ==> {
            &&& ub4(value).len() == 5
            &&& ub4(value)[0] == 4
            &&& ub4(value)[1] * 0x100_0000 + ub4(value)[2] * 0x1_0000 + ub4(value)[3] * 0x100
                + ub4(value)[4] == value
        },
        ub8(value as u64) == ub4(value),
{
}

/// The compact form of an integer that takes eight bytes.
pub proof fn compact_form_of_eight_bytes(value: u64)
    requires
        value > u32::MAX,
    ensures
        ({
            let bytes = ub8(value);
            &&& bytes.len() == 9
            &&& bytes[0] == 8
            &&& bytes[1] * 0x100_0000_0000_0000 + bytes[2] * 0x1_0000_0000_0000 + bytes[3]
                * 0x100_0000_0000 + bytes[4] * 0x1_0000_0000 + bytes[5] * 0x100_0000 + bytes[6]
                * 0x1_0000 + bytes[7] * 0x100 + bytes[8] == value
        }),
{
    let high = (value / 0x1_0000_0000) as u32;
    let low = (value % 0x1_0000_0000) as u32;
    lemma_four_bytes(high);
    lemma_four_bytes(low);
    lemma_nine_bytes(be32(high), be32(low));
    assert(high * 0x1_0000_0000 + low == value);
}

/// Four bytes, most significant first, make the number.
proof fn lemma_four_bytes(value: u32)
    ensures
        be32(value).len() == 4,
        be32(value)[0] * 0x100_0000 + be32(value)[1] * 0x1_0000 + be32(value)[2] * 0x100 + be32(
            value,
        )[3] == value,
{
}

/// Where the bytes of two numbers of four stand behind a byte.
proof fn lemma_nine_bytes(high: Seq<u8>, low: Seq<u8>)
    requires
        high.len() == 4,
        low.len() == 4,
    ensures
        seq![8u8] + high + low == seq![
            8u8,
            high[0],
            high[1],
            high[2],
            high[3],
            low[0],
            low[1],
            low[2],
            low[3],
        ],
{
}

/// A byte string of up to 252 bytes is written behind one byte with its length.
pub proof fn short_form(bytes: Seq<u8>)
    requires
        bytes.len() <= 252,
    ensures
        with_length(bytes).len() == 1 + bytes.len(),
        with_length(bytes)[0] == bytes.len(),
        with_length(bytes).skip(1) == bytes,
{
    assert(with_length(bytes).skip(1) =~= bytes);
}

/// A longer byte string is written behind the byte 254, in chunks of 32767 bytes and a last one of
/// those that are left. Each chunk stands behind its length, and a length of zero behind the last.
pub proof fn long_form(bytes: Seq<u8>)
    requires
        bytes.len() > 0,
    ensures
        bytes.len() > 252 ==> with_length(bytes) == seq![254u8] + chunked(bytes),
        bytes.len() <= 32767 ==> chunked(bytes) == ub4(bytes.len() as u32) + bytes + seq![0u8],
        bytes.len() > 32767 ==> chunked(bytes) == seq![2u8, 0x7fu8, 0xffu8] + bytes.take(32767)
            + chunked(bytes.skip(32767)),
{
    reveal_with_fuel(chunked, 2);
    if bytes.len() <= 32767 {
        let size = bytes.len() as int;
        assert(bytes.take(size) =~= bytes);
        assert(bytes.skip(size) =~= Seq::<u8>::empty());
    } else {
        assert(ub4(32767) =~= seq![2u8, 0x7fu8, 0xffu8]);
    }
}

/// An integer in the compact form is read from as many bytes as its first byte says, most
/// significant first, also from more bytes than it takes.
pub proof fn compact_form_is_read(digits: Seq<u8>, rest: Seq<u8>, max: nat)
    requires
        digits.len() <= max <= 4,
    ensures
        ({
            let value: int = if digits.len() == 0 {
                0
            } else if digits.len() == 1 {
                digits[0] as int
            } else if digits.len() == 2 {
                digits[0] * 0x100 + digits[1]
            } else if digits.len() == 3 {
                digits[0] * 0x1_0000 + digits[1] * 0x100 + digits[2]
            } else {
                digits[0] * 0x100_0000 + digits[1] * 0x1_0000 + digits[2] * 0x100 + digits[3]
            };
            reading_ub(seq![digits.len() as u8] + digits + rest, max) == Ok::<
                (nat, Seq<u8>),
                ReadError,
            >((value as nat, rest))
        }),
{
    let size = digits.len() as int;
    let bytes = seq![digits.len() as u8] + digits + rest;
    assert(bytes[0] == size);
    assert(bytes.subrange(1, 1 + size) =~= digits);
    assert(bytes.skip(1 + size) =~= rest);
    reveal_with_fuel(be_value, 5);
    if size > 0 {
        let three = digits.drop_last();
        if size > 1 {
            let two = three.drop_last();
            if size > 2 {
                let one = two.drop_last();
                if size > 3 {
                    assert(one.drop_last() =~= Seq::<u8>::empty());
                } else {
                    assert(one =~= Seq::<u8>::empty());
                }
            } else {
                assert(two =~= Seq::<u8>::empty());
            }
        } else {
            assert(three =~= Seq::<u8>::empty());
        }
    }
}

/// An integer of more bytes than it may have is refused, and so is one that ends too early.
pub proof fn wrong_compact_form_is_refused(bytes: Seq<u8>, max: nat)
    ensures
        bytes.len() == 0 ==> reading_ub(bytes, max) == Err::<(nat, Seq<u8>), ReadError>(
            ReadError::Truncated,
        ),
        bytes.len() > 0 && bytes[0] > max ==> reading_ub(bytes, max) == Err::<
            (nat, Seq<u8>),
            ReadError,
        >(ReadError::IntegerTooLong),
        bytes.len() > 0 && bytes[0] <= max && bytes[0] > bytes.len() - 1 ==> reading_ub(bytes, max)
            == Err::<(nat, Seq<u8>), ReadError>(ReadError::Truncated),
        bytes.len() > 0 && bytes[0] <= max && bytes[0] <= bytes.len() - 1 ==> reading_ub(
            bytes,
            max,
        ) is Ok,
{
}

/// A byte string is read from behind its length, whatever that is: of up to 253 bytes from behind
/// one byte. The bytes 0 and 255 stand for no value.
pub proof fn byte_string_is_read(value: Seq<u8>, rest: Seq<u8>)
    ensures
        reading_with_length(seq![0u8] + rest) == Ok::<(Option<Seq<u8>>, Seq<u8>), ReadError>(
            (None, rest),
        ),
        reading_with_length(seq![255u8] + rest) == Ok::<(Option<Seq<u8>>, Seq<u8>), ReadError>(
            (None, rest),
        ),
        0 < value.len() <= 253 ==> reading_with_length(seq![value.len() as u8] + value + rest)
            == Ok::<(Option<Seq<u8>>, Seq<u8>), ReadError>((Some(value), rest)),
{
    assert((seq![0u8] + rest).skip(1) =~= rest);
    assert((seq![255u8] + rest).skip(1) =~= rest);
    if 0 < value.len() <= 253 {
        let bytes = seq![value.len() as u8] + value + rest;
        let size = value.len() as int;
        assert(bytes[0] == size);
        assert(bytes.subrange(1, 1 + size) =~= value);
        assert(bytes.skip(1 + size) =~= rest);
    }
}

/// Chunks of whatever sizes, each behind its length, and a length of zero behind them, are read as
/// the byte string that they make together.
pub proof fn chunks_are_joined(chunk: Seq<u8>, behind: Seq<u8>, value: Seq<u8>, rest: Seq<u8>)
    requires
        0 < chunk.len() <= u32::MAX,
        reading_chunks(behind) == Ok::<(Seq<u8>, Seq<u8>), ReadError>((value, rest)),
    ensures
        reading_chunks(ub4(chunk.len() as u32) + chunk + behind) == Ok::<
            (Seq<u8>, Seq<u8>),
            ReadError,
        >((chunk + value, rest)),
        reading_with_length(seq![254u8] + behind) == Ok::<(Option<Seq<u8>>, Seq<u8>), ReadError>(
            (Some(value), rest),
        ),
{
    let tail = chunk + behind;
    assert(ub4(chunk.len() as u32) + chunk + behind =~= ub4(chunk.len() as u32) + tail);
    ub4_reads_back(chunk.len() as u32, tail);
    assert(tail.take(chunk.len() as int) =~= chunk);
    assert(tail.skip(chunk.len() as int) =~= behind);
    assert((seq![254u8] + behind).skip(1) =~= behind);
}

/// Bytes are taken from the front, and what is left stands behind them; where there are too few,
/// nothing is taken.
pub proof fn front_is_taken(front: Seq<u8>, rest: Seq<u8>, count: nat)
    ensures
        reading_bytes(front + rest, front.len()) == Ok::<(Seq<u8>, Seq<u8>), ReadError>(
            (front, rest),
        ),
        count > front.len() ==> reading_bytes(front, count) == Err::<(Seq<u8>, Seq<u8>), ReadError>(
            ReadError::Truncated,
        ),
{
    assert((front + rest).take(front.len() as int) =~= front);
    assert((front + rest).skip(front.len() as int) =~= rest);
}

/// A byte string that ends before its length says is refused.
pub proof fn short_byte_string_is_refused(bytes: Seq<u8>)
    requires
        bytes.len() == 0 || (0 < bytes[0] < 254 && bytes.len() - 1 < bytes[0]),
    ensures
        reading_with_length(bytes) == Err::<(Option<Seq<u8>>, Seq<u8>), ReadError>(
            ReadError::Truncated,
        ),
{
}

/// A chunk that ends before its length says, or whose length takes more than four bytes, is
/// refused, and with it the byte string.
pub proof fn short_chunk_is_refused(size: u32, chunk: Seq<u8>)
    requires
        chunk.len() < size,
    ensures
        reading_chunks(ub4(size) + chunk) == Err::<(Seq<u8>, Seq<u8>), ReadError>(
            ReadError::Truncated,
        ),
        reading_with_length(seq![254u8] + (ub4(size) + chunk)) == Err::<
            (Option<Seq<u8>>, Seq<u8>),
            ReadError,
        >(ReadError::Truncated),
{
    ub4_reads_back(size, chunk);
    assert((seq![254u8] + (ub4(size) + chunk)).skip(1) =~= ub4(size) + chunk);
}

} // verus!
