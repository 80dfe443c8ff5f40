//! The contract between the adaptation layer and the typed values it moves:
//! a type that can be written as JSON and read back.

use vstd::prelude::*;

verus! {

/// A request, response or error type with a JSON form.
///
/// `View::V` is the type's abstract value (for these flat types, the
/// character sequences of its fields), `encode_spec` the JSON text a value
/// serializes to, and `decode_view_spec` the abstract value a JSON text
/// decodes to, if any.  Every implementation proves the round trip: the
/// encoding of a value decodes back to that value.
pub trait JsonCodec: View + Sized {
    /// The JSON text this value serializes to.
    spec fn encode_spec(&self) -> Seq<char>;

    /// The abstract value the text `s` decodes to for this type, if any.
    spec fn decode_view_spec(s: Seq<char>) -> Option<Self::V>;

    /// Serializes the value.
    fn encode_json(&self) -> (r: String)
        ensures
            r@ == self.encode_spec(),
    ;

    /// Parses a value of this type out of `s`.
    fn decode_json(s: &str) -> (r: Option<Self>)
        ensures
            r matches Some(v) ==> Self::decode_view_spec(s@) == Some(v@),
            r is None ==> Self::decode_view_spec(s@) is None,
    ;

    /// Round trip: decoding the encoding of a value yields the value back.
    proof fn lemma_round_trip(&self)
        ensures
            Self::decode_view_spec(self.encode_spec()) == Some(self@),
    ;
}

} // verus!
