//! Kinds of password verifier.

use vstd::prelude::*;

verus! {

/// First form of the 11g verifier.
pub const V11G_1: u32 = 0xb152;

/// Second form of the 11g verifier.
pub const V11G_2: u32 = 0x1b25;

/// The 12c verifier.
pub const V12C: u32 = 0x4815;

} // verus!
