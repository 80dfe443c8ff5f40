//! The API types of the greeting handler that takes no input.

use vstd::prelude::*;

use crate::codec::JsonCodec;
use crate::json::decode_field;
use crate::json::encode_one_field;
use crate::json::lemma_one_field_round_trip;
use crate::json::sp_decode_field;
use crate::json::sp_encode_object;

verus! {

/// The successful response.
#[derive(Debug)]
pub struct Response {
    pub message: String,
}

/// The error response.
#[derive(Debug)]
pub struct ErrorResponse {
    pub error: String,
}

impl View for Response {
    type V = Seq<char>;

    open spec fn view(&self) -> Seq<char> {
        self.message@
    }
}

impl JsonCodec for Response {
    open spec fn encode_spec(&self) -> Seq<char> {
        sp_encode_object(seq![("message"@, self.message@)])
    }

    open spec fn decode_view_spec(s: Seq<char>) -> Option<Seq<char>> {
        sp_decode_field(s, "message"@)
    }

    fn encode_json(&self) -> (r: String) {
        encode_one_field("message", self.message.as_str())
    }

    fn decode_json(s: &str) -> (r: Option<Self>) {
        match decode_field(s, "message") {
            Some(v) => Some(Response { message: v }),
            None => None,
        }
    }

    proof fn lemma_round_trip(&self) {
        lemma_one_field_round_trip("message"@, self.message@);
    }
}

impl View for ErrorResponse {
    type V = Seq<char>;

    open spec fn view(&self) -> Seq<char> {
        self.error@
    }
}

impl JsonCodec for ErrorResponse {
    open spec fn encode_spec(&self) -> Seq<char> {
        sp_encode_object(seq![("error"@, self.error@)])
    }

    open spec fn decode_view_spec(s: Seq<char>) -> Option<Seq<char>> {
        sp_decode_field(s, "error"@)
    }

    fn encode_json(&self) -> (r: String) {
        encode_one_field("error", self.error.as_str())
    }

    fn decode_json(s: &str) -> (r: Option<Self>) {
        match decode_field(s, "error") {
            Some(v) => Some(ErrorResponse { error: v }),
            None => None,
        }
    }

    proof fn lemma_round_trip(&self) {
        lemma_one_field_round_trip("error"@, self.error@);
    }
}

} // verus!
