//! Protocol versions that the client asks for.

use vstd::prelude::*;

verus! {

/// Version that the client would like.
pub const DESIRED: u16 = 319;

/// Oldest version that the client accepts.
pub const MINIMUM: u16 = 300;

} // verus!
