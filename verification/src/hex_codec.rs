//! Bytes written as hexadecimal digits.

use vstd::prelude::*;
use vstd::utf8::encode_utf8;

verus! {

/// The upper-case hexadecimal digit of a number below 16.
pub open spec fn hex_digit(n: int) -> char {
    if n < 10 {
        ('0' as u32 + n) as char
    } else {
        ('A' as u32 + n - 10) as char
    }
}

/// The text of two upper-case digits for each byte, most significant digit first.
pub open spec fn hex_upper(bytes: Seq<u8>) -> Seq<char> {
    Seq::new(
        bytes.len() * 2,
        |i: int|
            hex_digit(
                if i % 2 == 0 {
                    bytes[i / 2] as int / 16
                } else {
                    bytes[i / 2] as int % 16
                },
            ),
    )
}

/// True of the hexadecimal digits of either case.
pub open spec fn is_hex_digit(c: char) -> bool {
    ('0' <= c && c <= '9') || ('A' <= c && c <= 'F') || ('a' <= c && c <= 'f')
}

/// The number that a hexadecimal digit stands for.
pub open spec fn hex_digit_value(c: char) -> int {
    if '0' <= c && c <= '9' {
        c as u32 - '0' as u32
    } else if 'A' <= c && c <= 'F' {
        c as u32 - 'A' as u32 + 10
    } else {
        c as u32 - 'a' as u32 + 10
    }
}

/// True of the texts that stand for bytes: an even number of hexadecimal digits.
pub open spec fn is_hex(text: Seq<char>) -> bool {
    text.len() % 2 == 0 && forall|i: int| 0 <= i < text.len() ==> is_hex_digit(#[trigger] text[i])
}

/// The bytes that a text of hexadecimal digits stands for.
pub open spec fn hex_bytes(text: Seq<char>) -> Seq<u8> {
    Seq::new(
        text.len() / 2,
        |i: int| (hex_digit_value(text[2 * i]) * 16 + hex_digit_value(text[2 * i + 1])) as u8,
    )
}

/// What is said of a text with an even number of bytes, not all of them hexadecimal digits.
pub uninterp spec fn hex_digit_failure(text: Seq<char>) -> Seq<char>;

/// What is said of a text that does not stand for bytes.
pub open spec fn hex_failure(text: Seq<char>) -> Seq<char> {
    if encode_utf8(text).len() % 2 == 1 {
        "Odd number of digits"@
    } else {
        hex_digit_failure(text)
    }
}

/// Calls `hex::encode_upper`. Claims that the text holds two upper-case digits for each byte.
#[verifier::external_body]
pub(crate) fn encode_upper(data: &[u8]) -> (text: String)
    ensures
        text@ == hex_upper(data@),
{
    hex::encode_upper(data)
}

/// Calls `hex::decode`. Claims that it gives the bytes of a text that is an even number of
/// hexadecimal digits and fails on any other text, and that what it then says (the error, written
/// out with its `Display`) is that the number of digits is odd, of a text with an odd number of
/// bytes, and a function of the text, of any other.
#[verifier::external_body]
pub(crate) fn decode(text: &str) -> (result: core::result::Result<Vec<u8>, String>)
    ensures
        match result {
            Ok(bytes) => is_hex(text@) && bytes@ == hex_bytes(text@),
            Err(said) => !is_hex(text@) && said@ == (if encode_utf8(text@).len() % 2 == 1 {
                "Odd number of digits"@
            } else {
                hex_digit_failure(text@)
            }),
        },
{
    match hex::decode(text) {
        Ok(bytes) => Ok(bytes),
        Err(error) => Err(error.to_string()),
    }
}

/// Decoding what was encoded gives back the bytes.
pub proof fn hex_reads_back(bytes: Seq<u8>)
    ensures
        is_hex(hex_upper(bytes)),
        hex_bytes(hex_upper(bytes)) == bytes,
{
    let text = hex_upper(bytes);
    assert forall|i: int| 0 <= i < text.len() implies is_hex_digit(#[trigger] text[i]) by {
        assert(0 <= i / 2 < bytes.len());
    }
    assert forall|i: int| 0 <= i < bytes.len() implies hex_bytes(text)[i] == bytes[i] by {
        assert((2 * i) / 2 == i && (2 * i) % 2 == 0);
        assert((2 * i + 1) / 2 == i && (2 * i + 1) % 2 == 1);
    }
    assert(hex_bytes(text) =~= bytes);
}

/// Hexadecimal digits are ASCII.
pub proof fn lemma_hex_upper_is_ascii(bytes: Seq<u8>)
    ensures
        vstd::utf8::is_ascii_chars(hex_upper(bytes)),
{
    let text = hex_upper(bytes);
    assert forall|i: int| 0 <= i < text.len() implies '\0' <= #[trigger] text[i] <= '\u{7f}' by {
        assert(0 <= i / 2 < bytes.len());
    }
}

} // verus!
