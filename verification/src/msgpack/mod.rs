//! The MessagePack wire format: marker taxonomy, canonical encodings, the
//! extension codec, the structural validator, and the serializer.

pub mod encode;
pub mod ext;
pub mod laws;
pub mod marker;
pub mod serializer;
pub mod validator;

use vstd::prelude::*;

verus! {

/// Nesting ceiling shared by the validator and the serializer: the recursion
/// counter must never reach this value.
pub const RECURSION_LIMIT: u8 = 255;

} // verus!
