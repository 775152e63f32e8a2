//! Values of rows and binds.

use vstd::prelude::*;

verus! {

/// A value of a column or a bind
#[derive(Debug, Clone)]
pub enum Value {
    /// No value
    Null,
    /// A whole number
    Integer(i64),
    /// A text
    String(String),
    /// Raw bytes
    Bytes(Vec<u8>),
}

} // verus!
