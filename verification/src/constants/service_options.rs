//! Service option flags.

use vstd::prelude::*;

verus! {

/// No particular service.
pub const DONT_CARE: u16 = 0x0001;

/// The client can receive attention signals.
pub const CAN_RECV_ATTENTION: u16 = 0x0400;

} // verus!
