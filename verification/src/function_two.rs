//! The handler invoked directly through the runtime's typed event shape,
//! without the HTTP adaptation layer: it echoes the request message and
//! adds a fixed greeting of its own.

use vstd::prelude::*;

use crate::codec::JsonCodec;
use crate::json::decode_field;
use crate::json::encode_one_field;
use crate::json::encode_two_fields;
use crate::json::lemma_one_field_round_trip;
use crate::json::lemma_two_field_round_trip;
use crate::json::key_count;
use crate::json::lookup_field;
use crate::json::parse_object_str;
use crate::json::sp_decode_field;
use crate::json::sp_key_count;
use crate::json::sp_encode_object;
use crate::json::sp_lookup;
use crate::json::sp_object;

verus! {

/// The request: an optional message; when the field is absent the message
/// defaults to the empty string.
#[derive(Debug)]
pub struct Request {
    pub message: String,
}

/// The response: the request's message echoed back, plus a fixed greeting.
#[derive(Debug)]
pub struct Response {
    pub req_message: String,
    pub my_response: String,
}

impl View for Request {
    type V = Seq<char>;

    open spec fn view(&self) -> Seq<char> {
        self.message@
    }
}

impl JsonCodec for Request {
    open spec fn encode_spec(&self) -> Seq<char> {
        sp_encode_object(seq![("message"@, self.message@)])
    }

    open spec fn decode_view_spec(s: Seq<char>) -> Option<Seq<char>> {
        match sp_object(s) {
            Some(ps) => {
                if sp_key_count(ps, "message"@) == 0 {
                    Some(Seq::<char>::empty())
                } else if sp_key_count(ps, "message"@) == 1 {
                    match sp_lookup(ps, "message"@) {
                        Some(v) => match v {
                            Some(text) => Some(text),
                            None => None,
                        },
                        None => None,
                    }
                } else {
                    None
                }
            },
            None => None,
        }
    }

    fn encode_json(&self) -> (r: String) {
        encode_one_field("message", self.message.as_str())
    }

    fn decode_json(s: &str) -> (r: Option<Self>) {
        match parse_object_str(s) {
            Some(ps) => {
                let n = key_count(&ps, "message");
                if n == 0 {
                    Some(Request { message: String::new() })
                } else if n == 1 {
                    match lookup_field(&ps, "message") {
                        Some(v) => match v {
                            Some(text) => Some(Request { message: text }),
                            None => None,
                        },
                        None => None,
                    }
                } else {
                    None
                }
            },
            None => None,
        }
    }

    proof fn lemma_round_trip(&self) {
        lemma_one_field_round_trip("message"@, self.message@);
        let ps = seq![("message"@, Some(self.message@))];
        assert(ps.skip(1) =~= Seq::<(Seq<char>, Option<Seq<char>>)>::empty());
        assert(sp_key_count(Seq::<(Seq<char>, Option<Seq<char>>)>::empty(), "message"@) == 0);
        assert(sp_key_count(ps, "message"@) == 1);
        assert(sp_lookup(ps, "message"@) == Some(Some(self.message@)));
    }
}

impl View for Response {
    type V = (Seq<char>, Seq<char>);

    open spec fn view(&self) -> (Seq<char>, Seq<char>) {
        (self.req_message@, self.my_response@)
    }
}

impl JsonCodec for Response {
    open spec fn encode_spec(&self) -> Seq<char> {
        sp_encode_object(
            seq![("req_message"@, self.req_message@), ("my_response"@, self.my_response@)],
        )
    }

    open spec fn decode_view_spec(s: Seq<char>) -> Option<(Seq<char>, Seq<char>)> {
        if sp_decode_field(s, "req_message"@) is Some && sp_decode_field(
            s,
            "my_response"@,
        ) is Some {
            Some(
                (
                    sp_decode_field(s, "req_message"@)->Some_0,
                    sp_decode_field(s, "my_response"@)->Some_0,
                ),
            )
        } else {
            None
        }
    }

    fn encode_json(&self) -> (r: String) {
        encode_two_fields(
            "req_message",
            self.req_message.as_str(),
            "my_response",
            self.my_response.as_str(),
        )
    }

    fn decode_json(s: &str) -> (r: Option<Self>) {
        match decode_field(s, "req_message") {
            Some(a) => match decode_field(s, "my_response") {
                Some(b) => Some(Response { req_message: a, my_response: b }),
                None => None,
            },
            None => None,
        }
    }

    proof fn lemma_round_trip(&self) {
        reveal_strlit("req_message");
        reveal_strlit("my_response");
        assert("req_message"@[0] == 'r');
        assert("my_response"@[0] == 'm');
        lemma_two_field_round_trip(
            "req_message"@,
            self.req_message@,
            "my_response"@,
            self.my_response@,
        );
    }
}

/// The controller: echo the request's message and answer with a fixed
/// greeting.
pub fn handler(request: Request) -> (r: Response)
    ensures
        r.req_message@ == request.message@,
        r.my_response@ == "Hello from Function One!"@,
{
    Response {
        req_message: request.message,
        my_response: String::from_str("Hello from Function One!"),
    }
}

} // verus!
