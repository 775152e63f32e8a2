//! Flags of the network session interface.

use vstd::prelude::*;

verus! {

/// The client supports security renegotiation.
pub const SUPPORT_SECURITY_RENEG: u8 = 0x80;

/// Native network encryption is off.
pub const DISABLE_NA: u8 = 0x04;

} // verus!
