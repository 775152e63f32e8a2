//! REFUSE message
//!
//! The REFUSE packet is sent by the server when it refuses a connection.
//! This can happen for various reasons such as invalid service name,
//! invalid SID, or listener configuration issues.
//!
//! Packet structure (after 8-byte TNS header):
//! ```text
//! Offset | Size | Description
//! -------+------+------------------
//!      0 |    2 | Reason (unused)
//!      2 |    2 | Data length
//!      4 |    n | Data (error message)
//! ```
//!
//! The data typically contains Oracle error information in the format:
//! `(DESCRIPTION=(ERR=12514)(VSNNUM=...)...)`
//!
//! Common error codes:
//! - 12505: Invalid SID
//! - 12514: Invalid service name

use crate::buffer::read::be_value;
use crate::buffer::ReadBuffer;
use crate::constants::PacketType;
use crate::error::{opt_text, Error, ErrorView, ReadError, Result};
use crate::messages::refuse_error;
use crate::packet::{content, content_slice, Packet};
use crate::text::{
    chars_of, decimal, decimal_reads_back, find, first_occurrence, is_digit, lemma_first_occurrence,
    number_u32, occurs_at, parse_u32, text_from_utf8_lossy, utf8_lossy,
};
use vstd::prelude::*;
use vstd::utf8::{decode_utf8, valid_utf8};

verus! {

/// Parsed REFUSE message from server
#[derive(Debug)]
pub struct RefuseMessage {
    /// The raw error data from the server
    pub data: Option<String>,
    /// Extracted error code (if present)
    pub error_code: Option<u32>,
}

/// The error code in a text: the number between the first `(ERR=` and the first `)` behind it.
pub open spec fn error_code_of(text: Seq<char>) -> Option<u32> {
    match first_occurrence(text, "(ERR="@, 0) {
        None => None,
        Some(at) => {
            let start = (at + "(ERR="@.len()) as nat;
            match first_occurrence(text, ")"@, start) {
                None => None,
                Some(end) => number_u32(text.subrange(start as int, end as int)),
            }
        },
    }
}

/// True of a text in which no `(ERR=` starts before the given place.
pub open spec fn no_code_before(text: Seq<char>, place: nat) -> bool {
    forall|at: int| 0 <= at < place ==> !#[trigger] occurs_at(text, "(ERR="@, at)
}

/// The text that a REFUSE packet carries: none where the length is zero or more than is there.
pub open spec fn refusal_text(payload: Seq<u8>) -> Option<Seq<char>> {
    let length = be_value(payload.subrange(2, 4)) as int;
    if length > 0 && 4 + length <= payload.len() {
        Some(utf8_lossy(payload.subrange(4, 4 + length)))
    } else {
        None
    }
}

/// The error code that a text carries, if there is a text and it carries one.
pub open spec fn code_in(text: Option<Seq<char>>) -> Option<u32> {
    match text {
        Some(chars) => error_code_of(chars),
        None => None,
    }
}

/// The error that a refusal stands for.
pub open spec fn refusal_error(
    data: Option<Seq<char>>,
    error_code: Option<u32>,
    service_or_sid: Option<Seq<char>>,
) -> ErrorView {
    if error_code == Some(refuse_error::INVALID_SERVICE_NAME) {
        ErrorView::InvalidServiceName { service_name: service_or_sid, message: data }
    } else if error_code == Some(refuse_error::INVALID_SID) {
        ErrorView::InvalidSid { sid: service_or_sid, message: data }
    } else {
        ErrorView::ConnectionRefused { error_code, message: data }
    }
}

impl RefuseMessage {
    /// Parse a REFUSE packet from the server
    pub fn parse(packet: &Packet) -> (result: Result<Self>)
        ensures
            match result {
                Ok(message) => {
                    &&& packet.header.packet_type == PacketType::Refuse
                    &&& content(packet.payload).len() >= 4
                    &&& opt_text(message.data) == refusal_text(content(packet.payload))
                    &&& message.error_code == code_in(opt_text(message.data))
                },
                Err(error) => if packet.header.packet_type != PacketType::Refuse {
                    error@ == (ErrorView::UnexpectedPacketType {
                        expected: PacketType::Refuse,
                        actual: packet.header.packet_type,
                    })
                } else {
                    content(packet.payload).len() < 4 && error@ == ErrorView::Buffer(
                        ReadError::Truncated,
                    )
                },
            },
            ({
                let payload = content(packet.payload);
                let length = be_value(payload.subrange(2, 4)) as int;
                packet.header.packet_type == PacketType::Refuse && 0 < length && 4 + length
                    <= payload.len() && valid_utf8(payload.subrange(4, 4 + length)) ==> (
                result matches Ok(message) && opt_text(message.data) == Some(
                    decode_utf8(payload.subrange(4, 4 + length)),
                ))
            }),
            forall|before: Seq<char>, code: u32, behind: Seq<char>|
                result matches Ok(message) && opt_text(message.data) == Some(
                    #[trigger] (before + "(ERR="@ + decimal(code as nat) + ")"@ + behind),
                ) && no_code_before(
                    before + "(ERR="@ + decimal(code as nat) + ")"@ + behind,
                    before.len(),
                ) ==> result->Ok_0.error_code == Some(code),
    {
        if !packet.is_refuse() {
            return Err(
                Error::UnexpectedPacketType {
                    expected: PacketType::Refuse,
                    actual: packet.packet_type(),
                },
            );
        }
        let ghost payload = content(packet.payload);
        let mut buf = ReadBuffer::from_slice(content_slice(&packet.payload));
        // Skip reason bytes
        match buf.skip(2) {
            Ok(_) => {},
            Err(error) => {
                return Err(error);
            },
        }
        // Read data length
        let data_length: usize = match buf.read_u16_be() {
            Ok(length) => length as usize,
            Err(error) => {
                return Err(error);
            },
        };
        assert(payload.skip(2).take(2) =~= payload.subrange(2, 4));
        assert(buf@ =~= payload.skip(4));
        // Read error data if present
        let data = if data_length > 0 && buf.has_remaining(data_length) {
            match buf.read_bytes_vec(data_length) {
                Ok(data_bytes) => {
                    assert(data_bytes@ =~= payload.subrange(4, 4 + data_length));
                    Some(text_from_utf8_lossy(data_bytes.as_slice()))
                },
                Err(error) => {
                    return Err(error);
                },
            }
        } else {
            None
        };
        // Extract error code from the data
        let error_code = match &data {
            Some(text) => Self::extract_error_code(text.as_str()),
            None => None,
        };
        proof {
            assert forall|before: Seq<char>, code: u32, behind: Seq<char>|
                opt_text(data) == Some(
                    #[trigger] (before + "(ERR="@ + decimal(code as nat) + ")"@ + behind),
                ) && no_code_before(
                    before + "(ERR="@ + decimal(code as nat) + ")"@ + behind,
                    before.len(),
                ) implies error_code == Some(code) by {
                error_code_reads_back(before, code, behind);
            }
        }
        Ok(RefuseMessage { data, error_code })
    }

    /// Extract the error code from the error data string
    ///
    /// The data typically contains patterns like "(ERR=12514)"
    pub fn extract_error_code(data: &str) -> (code: Option<u32>)
        ensures
            code == error_code_of(data@),
    {
        let chars = chars_of(data);
        // Look for "(ERR=NNNN)" pattern
        let err_prefix = chars_of("(ERR=");
        let err_end = chars_of(")");
        match find(chars.as_slice(), err_prefix.as_slice(), 0) {
            Some(start_pos) => {
                let num_start: usize = start_pos + err_prefix.len();
                match find(chars.as_slice(), err_end.as_slice(), num_start) {
                    Some(end_pos) => {
                        let number = vstd::slice::slice_subrange(
                            chars.as_slice(),
                            num_start,
                            end_pos,
                        );
                        parse_u32(number)
                    },
                    None => None,
                }
            },
            None => None,
        }
    }

    /// Check if the refusal is due to an invalid service name
    pub fn is_invalid_service_name(&self) -> (invalid: bool)
        ensures
            invalid == (self.error_code == Some(12514u32)),
    {
        match self.error_code {
            Some(code) => code == refuse_error::INVALID_SERVICE_NAME,
            None => false,
        }
    }

    /// Check if the refusal is due to an invalid SID
    pub fn is_invalid_sid(&self) -> (invalid: bool)
        ensures
            invalid == (self.error_code == Some(12505u32)),
    {
        match self.error_code {
            Some(code) => code == refuse_error::INVALID_SID,
            None => false,
        }
    }

    /// Convert the refusal into an appropriate error
    pub fn into_error(self, service_or_sid: Option<&str>) -> (error: Error)
        ensures
            error@ == refusal_error(
                opt_text(self.data),
                self.error_code,
                match service_or_sid {
                    Some(name) => Some(name@),
                    None => None,
                },
            ),
    {
        let name = match service_or_sid {
            Some(name) => Some(name.to_string()),
            None => None,
        };
        if self.is_invalid_service_name() {
            Error::InvalidServiceName { service_name: name, message: self.data }
        } else if self.is_invalid_sid() {
            Error::InvalidSid { sid: name, message: self.data }
        } else {
            Error::ConnectionRefused { error_code: self.error_code, message: self.data }
        }
    }
}

/// A number written between `(ERR=` and `)` is the error code, whatever stands around it, as long
/// as no `(ERR=` starts before it.
pub proof fn error_code_reads_back(before: Seq<char>, code: u32, behind: Seq<char>)
    requires
        forall|at: int|
            0 <= at < before.len() ==> !#[trigger] occurs_at(
                before + "(ERR="@ + decimal(code as nat) + ")"@ + behind,
                "(ERR="@,
                at,
            ),
    ensures
        error_code_of(before + "(ERR="@ + decimal(code as nat) + ")"@ + behind) == Some(code),
{
    let digits = decimal(code as nat);
    let text = before + "(ERR="@ + digits + ")"@ + behind;
    let start = (before.len() + "(ERR="@.len()) as int;
    let end = start + digits.len();
    reveal_strlit("(ERR=");
    reveal_strlit(")");
    decimal_reads_back(code);
    assert(text.subrange(before.len() as int, start) =~= "(ERR="@);
    lemma_first_occurrence(text, "(ERR="@, 0, before.len() as int);
    assert(text.subrange(end, end + 1) =~= ")"@);
    assert forall|at: int| start <= at < end implies !#[trigger] occurs_at(text, ")"@, at) by {
        assert(text[at] == digits[at - start]);
        assert(is_digit(digits[at - start]));
        assert(text.subrange(at, at + 1)[0] == text[at]);
    }
    lemma_first_occurrence(text, ")"@, start as nat, end);
    assert(text.subrange(start, end) =~= digits);
}

/// A refusal is because of the service name, because of the SID, or for another reason, and never
/// for two of these at once.
pub proof fn reasons_are_exclusive(message: RefuseMessage, name: Option<Seq<char>>)
    ensures
        ({
            let error = refusal_error(opt_text(message.data), message.error_code, name);
            &&& error is InvalidServiceName <==> message.error_code == Some(
                refuse_error::INVALID_SERVICE_NAME,
            )
            &&& error is InvalidSid <==> message.error_code == Some(refuse_error::INVALID_SID)
            &&& !(error is InvalidServiceName) && !(error is InvalidSid) ==> error
                == (ErrorView::ConnectionRefused {
                error_code: message.error_code,
                message: opt_text(message.data),
            })
        }),
{
}

} // verus!
