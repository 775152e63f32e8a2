//! Flags of the authentication mode.

use vstd::prelude::*;

verus! {

/// Plain logon.
pub const LOGON: u32 = 0x0000_0001;

/// Logon with the SYSDBA privilege.
pub const SYSDBA: u32 = 0x0000_0020;

/// Logon with the SYSOPER privilege.
pub const SYSOPER: u32 = 0x0000_0040;

/// The message carries the password.
pub const WITH_PASSWORD: u32 = 0x0000_0100;

} // verus!
