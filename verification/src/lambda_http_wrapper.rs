//! The adaptation layer: decodes an event body as JSON into a typed request,
//! invokes a caller-supplied controller, and encodes the controller's
//! `Result` as an HTTP response.

use vstd::prelude::*;
use vstd::utf8::decode_utf8;
use vstd::utf8::valid_utf8;

use crate::codec::JsonCodec;
use crate::json::encode_one_field;
use crate::json::sp_encode_object;

verus! {

/// The body of one inbound invocation: textual content, binary content, or
/// no content at all.
pub enum Body {
    Text(String),
    Binary(Vec<u8>),
    Empty,
}

/// The outbound response: a status code, the fixed content type, and the
/// JSON body text.
pub struct HttpResponse {
    pub status: u16,
    pub content_type: String,
    pub body: String,
}

/// Whether the body carries no bytes; such a body is never parsed.
pub open spec fn body_is_empty(b: Body) -> bool {
    match b {
        Body::Text(s) => s@.len() == 0,
        Body::Binary(v) => v@.len() == 0,
        Body::Empty => true,
    }
}

/// The characters a body reduces to: textual content as it stands, binary
/// content through UTF-8, which can fail.
pub open spec fn body_chars(b: Body) -> Option<Seq<char>> {
    match b {
        Body::Text(s) => Some(s@),
        Body::Binary(v) => if valid_utf8(v@) {
            Some(decode_utf8(v@))
        } else {
            None
        },
        Body::Empty => Some(Seq::<char>::empty()),
    }
}

/// Every response of this layer carries this content type.
pub open spec fn is_json_response(r: HttpResponse) -> bool {
    r.content_type@ == "application/json"@
}

/// The fixed body sent for a request whose body does not parse as JSON.
pub open spec fn invalid_json_body_text() -> Seq<char> {
    sp_encode_object(seq![("error"@, "Invalid JSON request body"@)])
}

/// The fixed body sent for a request with an empty body where one is needed.
pub open spec fn empty_body_text() -> Seq<char> {
    sp_encode_object(seq![("error"@, "Expected JSON body, got empty body"@)])
}

pub open spec fn is_invalid_json_response(r: HttpResponse) -> bool {
    is_json_response(r) && r.status == 400 && r.body@ == invalid_json_body_text()
}

pub open spec fn is_empty_body_response(r: HttpResponse) -> bool {
    is_json_response(r) && r.status == 400 && r.body@ == empty_body_text()
}

/// Whether `r` is the response encoding the controller result `res`:
/// status 200 with the JSON of the success value, or status 400 with the
/// JSON of the failure value.
pub open spec fn encodes_result<TResp: JsonCodec, TErr: JsonCodec>(
    res: Result<TResp, TErr>,
    r: HttpResponse,
) -> bool {
    is_json_response(r) && match res {
        Ok(v) => r.status == 200 && r.body@ == v.encode_spec(),
        Err(e) => r.status == 400 && r.body@ == e.encode_spec(),
    }
}

fn json_content_type() -> (r: String)
    ensures
        r@ == "application/json"@,
{
    String::from_str("application/json")
}

/// Build a JSON HTTP response with the given status code from an encodable
/// value.
///
/// Serializing a codec value is total, so unlike a serializer that can
/// reject a payload, this constructor has no error path.
pub fn build_json_response<T: JsonCodec>(status: u16, body_data: &T) -> (r: HttpResponse)
    ensures
        r.status == status,
        is_json_response(r),
        r.body@ == body_data.encode_spec(),
{
    HttpResponse {
        status: status,
        content_type: json_content_type(),
        body: body_data.encode_json(),
    }
}

/// Build the fixed status-400 response carrying `{"error": message}`.
pub fn build_error_response(message: &str) -> (r: HttpResponse)
    ensures
        r.status == 400,
        is_json_response(r),
        r.body@ == sp_encode_object(seq![("error"@, message@)]),
{
    HttpResponse {
        status: 400,
        content_type: json_content_type(),
        body: encode_one_field("error", message),
    }
}

/// Convert a controller result into the HTTP response:
/// success gives 200 with the JSON-serialized value, failure gives 400 with
/// the JSON-serialized error.
pub fn result_to_http_response<TResp: JsonCodec, TErr: JsonCodec>(
    result: Result<TResp, TErr>,
) -> (r: HttpResponse)
    ensures
        encodes_result(result, r),
{
    match result {
        Ok(success_val) => build_json_response(200, &success_val),
        Err(error_val) => build_json_response(400, &error_val),
    }
}

/// Relies on `String::from_utf8`: it succeeds exactly on valid UTF-8 input
/// and returns the string those bytes encode.
#[verifier::external_body]
fn string_from_utf8(v: &Vec<u8>) -> (r: Option<String>)
    ensures
        r is Some <==> valid_utf8(v@),
        r matches Some(s) ==> s@ == decode_utf8(v@),
{
    match String::from_utf8(v.clone()) {
        Ok(s) => Some(s),
        Err(_) => None,
    }
}

/// Attempt to parse the event body as JSON into `TReq`.
///
/// Returns `Ok(Some(value))` when the body is non-empty and parses,
/// `Ok(None)` when the body is empty, and `Err(response)` with a prebuilt
/// status-400 response when the body is non-empty but not valid JSON for
/// `TReq`.
pub fn parse_json_body<TReq: JsonCodec>(body: &Body) -> (r: Result<Option<TReq>, HttpResponse>)
    ensures
        body_is_empty(*body) ==> (r matches Ok(o) && o is None),
        !body_is_empty(*body) ==> match body_chars(*body) {
            Some(cs) => match TReq::decode_view_spec(cs) {
                Some(m) => r matches Ok(o) && o matches Some(req) && req@ == m,
                None => r matches Err(resp) && is_invalid_json_response(resp),
            },
            None => r matches Err(resp) && is_invalid_json_response(resp),
        },
{
    match body {
        Body::Empty => Ok(None),
        Body::Text(s) => {
            if s.as_str().is_empty() {
                Ok(None)
            } else {
                match TReq::decode_json(s.as_str()) {
                    Some(v) => Ok(Some(v)),
                    None => Err(build_error_response("Invalid JSON request body")),
                }
            }
        },
        Body::Binary(bytes) => {
            if bytes.len() == 0 {
                Ok(None)
            } else {
                match string_from_utf8(bytes) {
                    Some(s) => match TReq::decode_json(s.as_str()) {
                        Some(v) => Ok(Some(v)),
                        None => Err(build_error_response("Invalid JSON request body")),
                    },
                    None => Err(build_error_response("Invalid JSON request body")),
                }
            }
        },
    }
}

/// Run a controller that takes a typed input against one event body.
///
/// The body is parsed as JSON into a `TReq`; on success the controller is
/// invoked exactly once with the parsed value and its result is encoded as
/// the response.  An empty body short-circuits to the fixed status-400
/// "expected JSON body" response; a non-empty body that does not parse
/// short-circuits to the fixed status-400 "invalid JSON" response.  In
/// neither short-circuit case is the controller invoked.
pub fn lambda_rest_controller<TReq: JsonCodec, TResp: JsonCodec, TErr: JsonCodec, C: Fn(TReq) -> Result<
    TResp,
    TErr,
>>(controller: C, event_body: &Body) -> (r: HttpResponse)
    requires
        forall|req: TReq|
            (body_chars(*event_body) matches Some(cs) && TReq::decode_view_spec(cs) == Some(req@))
                ==> #[trigger] call_requires(controller, (req,)),
    ensures
        is_json_response(r),
        body_is_empty(*event_body) ==> is_empty_body_response(r),
        !body_is_empty(*event_body) && (body_chars(*event_body) is None || TReq::decode_view_spec(
            body_chars(*event_body)->Some_0,
        ) is None) ==> is_invalid_json_response(r),
        (!body_is_empty(*event_body) && body_chars(*event_body) is Some && TReq::decode_view_spec(
            body_chars(*event_body)->Some_0,
        ) is Some) ==> (exists|req: TReq, res: Result<TResp, TErr>|
            req@ == TReq::decode_view_spec(body_chars(*event_body)->Some_0)->Some_0
                && #[trigger] call_ensures(controller, (req,), res) && encodes_result(res, r)),
{
    match parse_json_body::<TReq>(event_body) {
        Ok(Some(parsed_req)) => {
            let ghost req_snapshot = parsed_req;
            let result = controller(parsed_req);
            let response = result_to_http_response(result);
            proof {
                assert(call_ensures(controller, (req_snapshot,), result));
            }
            response
        },
        Ok(None) => build_error_response("Expected JSON body, got empty body"),
        Err(response) => response,
    }
}

/// Run a controller that takes no input against one event; the body is
/// never inspected, and the controller's result is encoded as the response.
pub fn lambda_rest_controller_no_input<TResp: JsonCodec, TErr: JsonCodec, C: Fn() -> Result<
    TResp,
    TErr,
>>(controller: C, _event_body: &Body) -> (r: HttpResponse)
    requires
        call_requires(controller, ()),
    ensures
        is_json_response(r),
        exists|res: Result<TResp, TErr>|
            #[trigger] call_ensures(controller, (), res) && encodes_result(res, r),
{
    let result = controller();
    let response = result_to_http_response(result);
    proof {
        assert(call_ensures(controller, (), result));
    }
    response
}

} // verus!
