//! Capabilities of the two sides of a connection.

use vstd::prelude::*;

verus! {

/// What the two sides of a connection agreed on.
#[derive(Debug, Clone, Copy)]
pub struct Capabilities {
    /// Version of the fields in the messages
    pub ttc_field_version: u8,
}

impl Capabilities {
    /// Create the capabilities that the client starts with
    pub fn new() -> (caps: Self)
        ensures
            caps.ttc_field_version == 24,
    {
        Capabilities { ttc_field_version: 24 }
    }
}

impl Default for Capabilities {
    fn default() -> (caps: Self)
        ensures
            caps.ttc_field_version == 24,
    {
        Capabilities::new()
    }
}

} // verus!
