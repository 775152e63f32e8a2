//! Errors of the driver.

use crate::constants::PacketType;
use vstd::prelude::*;

verus! {

/// Why bytes of the server could not be read.
#[derive(Debug, Clone, Copy, PartialEq, Eq, Structural)]
pub enum ReadError {
    /// The data ends before the value does.
    Truncated,
    /// An integer announces more bytes than its kind can have.
    IntegerTooLong,
}

/// Why a cipher could not be applied.
#[derive(Debug, Clone, Copy, PartialEq, Eq, Structural)]
pub enum CryptoError {
    /// The key does not have the length that the cipher needs.
    KeyLength,
    /// The data is not a whole number of cipher blocks.
    DataLength,
}

/// Errors of the driver.
#[derive(Debug)]
pub enum Error {
    /// The two sides do not follow the protocol.
    Protocol(String),
    /// The server did not accept the user, or is not the server it claims to be.
    AuthenticationFailed(String),
    /// The server uses a password verifier that the driver does not know.
    UnsupportedVerifierType(u32),
    /// A packet of another kind than expected arrived.
    UnexpectedPacketType {
        /// The kind of packet that was expected.
        expected: PacketType,
        /// The kind of packet that arrived.
        actual: PacketType,
    },
    /// The listener does not know the service name.
    InvalidServiceName {
        /// The service name that was asked for.
        service_name: Option<String>,
        /// What the listener said.
        message: Option<String>,
    },
    /// The listener does not know the SID.
    InvalidSid {
        /// The SID that was asked for.
        sid: Option<String>,
        /// What the listener said.
        message: Option<String>,
    },
    /// The listener refused the connection for another reason.
    ConnectionRefused {
        /// The error code of the listener, if it gave one.
        error_code: Option<u32>,
        /// What the listener said.
        message: Option<String>,
    },
    /// The driver was used in a way that it does not support.
    Internal(String),
    /// Bytes of the server could not be read.
    Buffer(ReadError),
    /// A cipher could not be applied.
    Crypto(CryptoError),
}

/// Result of an operation of the driver.
pub type Result<T> = core::result::Result<T, Error>;

/// What an [`Error`] says, with its texts as sequences of characters.
pub enum ErrorView {
    /// See [`Error::Protocol`].
    Protocol(Seq<char>),
    /// See [`Error::AuthenticationFailed`].
    AuthenticationFailed(Seq<char>),
    /// See [`Error::UnsupportedVerifierType`].
    UnsupportedVerifierType(u32),
    /// See [`Error::UnexpectedPacketType`].
    UnexpectedPacketType {
        /// The kind of packet that was expected.
        expected: PacketType,
        /// The kind of packet that arrived.
        actual: PacketType,
    },
    /// See [`Error::InvalidServiceName`].
    InvalidServiceName {
        /// The service name that was asked for.
        service_name: Option<Seq<char>>,
        /// What the listener said.
        message: Option<Seq<char>>,
    },
    /// See [`Error::InvalidSid`].
    InvalidSid {
        /// The SID that was asked for.
        sid: Option<Seq<char>>,
        /// What the listener said.
        message: Option<Seq<char>>,
    },
    /// See [`Error::ConnectionRefused`].
    ConnectionRefused {
        /// The error code of the listener, if it gave one.
        error_code: Option<u32>,
        /// What the listener said.
        message: Option<Seq<char>>,
    },
    /// See [`Error::Internal`].
    Internal(Seq<char>),
    /// See [`Error::Buffer`].
    Buffer(ReadError),
    /// See [`Error::Crypto`].
    Crypto(CryptoError),
}

/// The characters of a text that may be absent.
pub open spec fn opt_text(text: Option<String>) -> Option<Seq<char>> {
    match text {
        Some(t) => Some(t@),
        None => None,
    }
}

impl View for Error {
    type V = ErrorView;

    open spec fn view(&self) -> ErrorView {
        match *self {
            Error::Protocol(text) => ErrorView::Protocol(text@),
            Error::AuthenticationFailed(text) => ErrorView::AuthenticationFailed(text@),
            Error::UnsupportedVerifierType(code) => ErrorView::UnsupportedVerifierType(code),
            Error::UnexpectedPacketType { expected, actual } => {
                ErrorView::UnexpectedPacketType { expected, actual }
            },
            Error::InvalidServiceName { service_name, message } => ErrorView::InvalidServiceName {
                service_name: opt_text(service_name),
                message: opt_text(message),
            },
            Error::InvalidSid { sid, message } => ErrorView::InvalidSid {
                sid: opt_text(sid),
                message: opt_text(message),
            },
            Error::ConnectionRefused { error_code, message } => ErrorView::ConnectionRefused {
                error_code,
                message: opt_text(message),
            },
            Error::Internal(text) => ErrorView::Internal(text@),
            Error::Buffer(error) => ErrorView::Buffer(error),
            Error::Crypto(error) => ErrorView::Crypto(error),
        }
    }
}

/// What a result without a value says.
pub open spec fn outcome(result: Result<()>) -> core::result::Result<(), ErrorView> {
    match result {
        Ok(_) => Ok(()),
        Err(error) => Err(error@),
    }
}

} // verus!
