//! The decoder protocol: converting one raw string into one typed value, or
//! a message describing why it cannot be done.

use vstd::prelude::*;

verus! {

/// A type whose values decode from raw string parameters.
///
/// A decoder must behave as a pure function of the raw string alone: two
/// calls on identical input must yield identical results.  The built-in
/// implementations of this crate carry contracts that pin the result down
/// exactly; user implementations are free-form.
pub trait ConfigValueDecoder {
    /// Decodes a raw string value into the target type, or returns a
    /// message describing why the value does not parse.
    fn decode(raw: String) -> Result<Self, String> where Self: Sized;
}

} // verus!
