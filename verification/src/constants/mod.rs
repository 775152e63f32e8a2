//! Numbers of the TNS protocol.

pub mod auth_mode;
pub mod connection;
pub mod nsi_flags;
pub mod service_options;
pub mod verifier_type;
pub mod version;

use vstd::prelude::*;

verus! {

/// Size of the header that every packet starts with.
pub const PACKET_HEADER_SIZE: usize = 8;

/// Kinds of packet.
#[derive(Debug, Clone, Copy, PartialEq, Eq, Structural)]
pub enum PacketType {
    /// The client asks for a connection.
    Connect,
    /// The server accepts the connection.
    Accept,
    /// The server refuses the connection.
    Refuse,
    /// The server sends the client to another address.
    Redirect,
    /// Data of either side.
    Data,
    /// The server asks for the last packet again.
    Resend,
    /// A break or reset.
    Marker,
    /// A control message.
    Control,
}

impl PacketType {
    /// The byte that stands for the kind of packet on the wire.
    pub open spec fn spec_code(self) -> u8 {
        match self {
            PacketType::Connect => 1,
            PacketType::Accept => 2,
            PacketType::Refuse => 4,
            PacketType::Redirect => 5,
            PacketType::Data => 6,
            PacketType::Resend => 11,
            PacketType::Marker => 12,
            PacketType::Control => 14,
        }
    }

    /// The byte that stands for the kind of packet on the wire.
    pub fn code(self) -> (code: u8)
        ensures
            code == self.spec_code(),
    {
        match self {
            PacketType::Connect => 1,
            PacketType::Accept => 2,
            PacketType::Refuse => 4,
            PacketType::Redirect => 5,
            PacketType::Data => 6,
            PacketType::Resend => 11,
            PacketType::Marker => 12,
            PacketType::Control => 14,
        }
    }
}

/// Kinds of message inside a data packet.
#[derive(Debug, Clone, Copy, PartialEq, Eq, Structural)]
pub enum MessageType {
    /// A function call of the client.
    Function,
    /// An error that the server reports.
    Error,
}

impl MessageType {
    /// The byte that stands for the kind of message on the wire.
    pub open spec fn spec_code(self) -> u8 {
        match self {
            MessageType::Function => 3,
            MessageType::Error => 4,
        }
    }

    /// The byte that stands for the kind of message on the wire.
    pub fn code(self) -> (code: u8)
        ensures
            code == self.spec_code(),
    {
        match self {
            MessageType::Function => 3,
            MessageType::Error => 4,
        }
    }
}

/// Functions that the client calls.
#[derive(Debug, Clone, Copy, PartialEq, Eq, Structural)]
pub enum FunctionCode {
    /// First phase of authentication.
    AuthPhaseOne,
    /// Second phase of authentication.
    AuthPhaseTwo,
}

impl FunctionCode {
    /// The byte that stands for the function on the wire.
    pub open spec fn spec_code(self) -> u8 {
        match self {
            FunctionCode::AuthPhaseOne => 0x76,
            FunctionCode::AuthPhaseTwo => 0x73,
        }
    }

    /// The byte that stands for the function on the wire.
    pub fn code(self) -> (code: u8)
        ensures
            code == self.spec_code(),
    {
        match self {
            FunctionCode::AuthPhaseOne => 0x76,
            FunctionCode::AuthPhaseTwo => 0x73,
        }
    }
}

/// The bytes that stand for the kinds of packet, of message and of function.
pub proof fn kinds_have_their_bytes()
    ensures
        PacketType::Connect.spec_code() == 1,
        PacketType::Accept.spec_code() == 2,
        PacketType::Refuse.spec_code() == 4,
        PacketType::Redirect.spec_code() == 5,
        PacketType::Data.spec_code() == 6,
        PacketType::Resend.spec_code() == 11,
        PacketType::Marker.spec_code() == 12,
        PacketType::Control.spec_code() == 14,
        MessageType::Function.spec_code() == 3,
        MessageType::Error.spec_code() == 4,
        FunctionCode::AuthPhaseOne.spec_code() == 0x76,
        FunctionCode::AuthPhaseTwo.spec_code() == 0x73,
{
}

} // verus!
