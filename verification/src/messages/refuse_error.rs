//! Known Oracle listener error codes

use vstd::prelude::*;

verus! {

/// Invalid service name (ORA-12514)
pub const INVALID_SERVICE_NAME: u32 = 12514;

/// Invalid SID (ORA-12505)
pub const INVALID_SID: u32 = 12505;

} // verus!
