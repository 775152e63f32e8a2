//! Numbers of the connection request.

use vstd::prelude::*;

verus! {

/// Largest connect descriptor that fits in the CONNECT packet itself.
pub const MAX_CONNECT_DATA: u16 = 230;

/// Session data unit that the client asks for by default.
pub const DEFAULT_SDU: u32 = 8192;

/// Transport data unit that the client asks for.
pub const DEFAULT_TDU: u16 = 65535;

/// Protocol characteristics of the client.
pub const PROTOCOL_CHARACTERISTICS: u16 = 0x4f98;

/// Connect flag: check for out-of-band support.
pub const CHECK_OOB: u32 = 0x0000_0001;

} // verus!
