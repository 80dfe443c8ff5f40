use lambda_http_wrapper::codec::JsonCodec;
use lambda_http_wrapper::dynamodb::load_config;
use lambda_http_wrapper::function_one_controller::function_one_controller;
use lambda_http_wrapper::function_three_controller::function_three_controller;
use lambda_http_wrapper::controller::handle;
use lambda_http_wrapper::function_two::handler;
use lambda_http_wrapper::json::decode_field;
use lambda_http_wrapper::json::encode_one_field;
use lambda_http_wrapper::json::encode_two_fields;

#[test]
fn encode_one_field_is_canonical_json() {
    let s = encode_one_field("name", "world");
    assert_eq!(s, "{\"name\":\"world\"}");
}

#[test]
fn encode_escapes_special_characters() {
    let s = encode_one_field("message", "a\"b\\c\nd\te\rf");
    assert_eq!(s, "{\"message\":\"a\\\"b\\\\c\\nd\\te\\rf\"}");
}

#[test]
fn encode_two_fields_is_canonical_json() {
    let s = encode_two_fields("req_message", "hi", "my_response", "yo");
    assert_eq!(s, "{\"req_message\":\"hi\",\"my_response\":\"yo\"}");
}

#[test]
fn decode_field_reads_plain_object() {
    assert_eq!(
        decode_field("{\"name\":\"world\"}", "name"),
        Some(String::from("world"))
    );
}

#[test]
fn decode_field_reads_escapes() {
    assert_eq!(
        decode_field("{\"m\":\"a\\\"b\\\\c\\nd\\te\\rf\\/g\"}", "m"),
        Some(String::from("a\"b\\c\nd\te\rf/g"))
    );
}

#[test]
fn decode_field_ignores_other_members_and_order() {
    let text = "{\"other\":\"x\",\"name\":\"world\"}";
    assert_eq!(decode_field(text, "name"), Some(String::from("world")));
    assert_eq!(decode_field(text, "other"), Some(String::from("x")));
    assert_eq!(decode_field(text, "missing"), None);
}

#[test]
fn decode_field_reads_unicode_escapes() {
    assert_eq!(
        decode_field("{\"name\":\"Jos\\u00e9\"}", "name"),
        Some(String::from("Jos\u{e9}"))
    );
    assert_eq!(
        decode_field("{\"name\":\"\\ud83d\\ude00\"}", "name"),
        Some(String::from("\u{1F600}"))
    );
    assert_eq!(decode_field("{\"name\":\"\\ud83d\"}", "name"), None);
    assert_eq!(decode_field("{\"name\":\"\\udc00x\"}", "name"), None);
    assert_eq!(decode_field("{\"name\":\"\\u12g4\"}", "name"), None);
}

#[test]
fn decode_field_reads_backspace_and_formfeed_escapes() {
    assert_eq!(
        decode_field("{\"m\":\"a\\bb\\fc\"}", "m"),
        Some(String::from("a\u{8}b\u{c}c"))
    );
}

#[test]
fn decode_field_rejects_raw_control_characters() {
    assert_eq!(decode_field("{\"name\":\"a\u{1}b\"}", "name"), None);
    assert_eq!(decode_field("{\"name\":\"a\nb\"}", "name"), None);
}

#[test]
fn decode_field_skips_members_of_other_shapes() {
    let text = "{\"count\":12,\"flag\":true,\"nothing\":null,\"list\":[1,\"two\",{\"x\":[]}],\"obj\":{\"a\":{\"b\":\"c\"}},\"name\":\"ok\"}";
    assert_eq!(decode_field(text, "name"), Some(String::from("ok")));
    assert_eq!(decode_field(text, "count"), None);
}

#[test]
fn decode_field_rejects_duplicate_field() {
    assert_eq!(decode_field("{\"name\":\"a\",\"name\":\"b\"}", "name"), None);
    assert_eq!(
        decode_field("{\"x\":1,\"x\":2,\"name\":\"a\"}", "name"),
        Some(String::from("a"))
    );
}

#[test]
fn decode_field_accepts_number_forms() {
    let text = "{\"a\":-0.5e+10,\"b\":0,\"c\":123e2,\"d\":1.25E-3,\"name\":\"a\"}";
    assert_eq!(decode_field(text, "name"), Some(String::from("a")));
}

#[test]
fn decode_field_rejects_malformed_values() {
    assert_eq!(decode_field("{\"n\":01,\"name\":\"a\"}", "name"), None);
    assert_eq!(decode_field("{\"n\":1.,\"name\":\"a\"}", "name"), None);
    assert_eq!(decode_field("{\"n\":+1,\"name\":\"a\"}", "name"), None);
    assert_eq!(decode_field("{\"n\":tru,\"name\":\"a\"}", "name"), None);
    assert_eq!(decode_field("{\"n\":@,\"name\":\"a\"}", "name"), None);
    assert_eq!(decode_field("{\"n\":[1,],\"name\":\"a\"}", "name"), None);
    assert_eq!(decode_field("{\"n\":[1,2,\"name\":\"a\"}", "name"), None);
}

#[test]
fn encode_escapes_control_characters() {
    let s = encode_one_field("m", "a\u{8}b\u{c}c\u{1}d\u{1f}e");
    assert_eq!(s, "{\"m\":\"a\\bb\\fc\\u0001d\\u001fe\"}");
}

#[test]
fn round_trip_control_and_wide_characters() {
    let resp = lambda_http_wrapper::function_one_types::Response {
        message: String::from("ctl\u{1}\u{1f}\u{8}\u{c} Jos\u{e9} \u{1F600}"),
    };
    let back = lambda_http_wrapper::function_one_types::Response::decode_json(&resp.encode_json())
        .expect("round trip");
    assert_eq!(back.message, resp.message);
}

#[test]
fn decode_field_rejects_malformed_text() {
    assert_eq!(decode_field("", "name"), None);
    assert_eq!(decode_field("not-json", "name"), None);
    assert_eq!(decode_field("{\"name\":\"world\"", "name"), None);
    assert_eq!(decode_field("{\"name\":\"world\"} trailing", "name"), None);
    assert_eq!(decode_field("{\"name\":12}", "name"), None);
    assert_eq!(decode_field("{\"name\":\"a\\qb\"}", "name"), None);
}

#[test]
fn round_trip_function_one_types() {
    let req = lambda_http_wrapper::function_one_types::Request {
        name: String::from("wo\"rld\\"),
    };
    let back = lambda_http_wrapper::function_one_types::Request::decode_json(&req.encode_json())
        .expect("round trip");
    assert_eq!(back.name, req.name);

    let resp = lambda_http_wrapper::function_one_types::Response {
        message: String::from("line\nbreak"),
    };
    let back = lambda_http_wrapper::function_one_types::Response::decode_json(&resp.encode_json())
        .expect("round trip");
    assert_eq!(back.message, resp.message);

    let err = lambda_http_wrapper::function_one_types::ErrorResponse {
        error: String::from("tab\there"),
    };
    let back =
        lambda_http_wrapper::function_one_types::ErrorResponse::decode_json(&err.encode_json())
            .expect("round trip");
    assert_eq!(back.error, err.error);
}

#[test]
fn round_trip_function_three_types() {
    let resp = lambda_http_wrapper::function_three_types::Response {
        message: String::from("plain"),
    };
    let back =
        lambda_http_wrapper::function_three_types::Response::decode_json(&resp.encode_json())
            .expect("round trip");
    assert_eq!(back.message, resp.message);

    let err = lambda_http_wrapper::function_three_types::ErrorResponse {
        error: String::from("oops"),
    };
    let back =
        lambda_http_wrapper::function_three_types::ErrorResponse::decode_json(&err.encode_json())
            .expect("round trip");
    assert_eq!(back.error, err.error);
}

#[test]
fn round_trip_function_two_types() {
    let req = lambda_http_wrapper::function_two::Request {
        message: String::from("carriage\rreturn"),
    };
    let back =
        lambda_http_wrapper::function_two::Request::decode_json(&req.encode_json())
            .expect("round trip");
    assert_eq!(back.message, req.message);

    let resp = lambda_http_wrapper::function_two::Response {
        req_message: String::from("in"),
        my_response: String::from("out"),
    };
    let back =
        lambda_http_wrapper::function_two::Response::decode_json(&resp.encode_json())
            .expect("round trip");
    assert_eq!(back.req_message, resp.req_message);
    assert_eq!(back.my_response, resp.my_response);
}

#[test]
fn round_trip_function_four_types() {
    let req = lambda_http_wrapper::types::Request {
        name: String::from("four"),
    };
    let back =
        lambda_http_wrapper::types::Request::decode_json(&req.encode_json()).expect("round trip");
    assert_eq!(back.name, req.name);

    let resp = lambda_http_wrapper::types::Response {
        message: String::from("msg"),
    };
    let back =
        lambda_http_wrapper::types::Response::decode_json(&resp.encode_json()).expect("round trip");
    assert_eq!(back.message, resp.message);

    let err = lambda_http_wrapper::types::ErrorResponse {
        error: String::from("e"),
    };
    let back = lambda_http_wrapper::types::ErrorResponse::decode_json(&err.encode_json())
        .expect("round trip");
    assert_eq!(back.error, err.error);
}

#[test]
fn function_two_request_message_defaults_when_absent() {
    let got = lambda_http_wrapper::function_two::Request::decode_json("{}").expect("empty object");
    assert_eq!(got.message, "");
    let got =
        lambda_http_wrapper::function_two::Request::decode_json("{\"other\":\"x\"}").expect("object");
    assert_eq!(got.message, "");
    assert!(lambda_http_wrapper::function_two::Request::decode_json("not-json").is_none());
}

#[test]
fn function_two_response_needs_both_fields() {
    assert!(
        lambda_http_wrapper::function_two::Response::decode_json("{\"req_message\":\"hi\"}")
            .is_none()
    );
}

#[test]
fn function_one_controller_greets() {
    let out = function_one_controller(lambda_http_wrapper::function_one_types::Request {
        name: String::from("world"),
    })
    .expect("controller never fails");
    assert_eq!(
        out.message,
        "[Function_1] Hello world, this is an AWS Lambda HTTP request using controller wrapper to avoid lots of boilerplate"
    );
}

#[test]
fn function_three_controller_greets() {
    let out = function_three_controller().expect("controller never fails");
    assert_eq!(
        out.message,
        "[Function_3] Hello function_three, this is an AWS Lambda HTTP request using controller wrapper to avoid lots of boilerplate"
    );
}

#[test]
fn function_four_controller_greets() {
    let out = handle(lambda_http_wrapper::types::Request {
        name: String::from("again"),
    })
    .expect("controller never fails");
    assert_eq!(
        out.message,
        "[Function_4] Hello again, this is an AWS Lambda HTTP request using controller wrapper to avoid lots of boilerplate"
    );
}

#[test]
fn function_two_handler_echoes_and_greets() {
    let out = handler(lambda_http_wrapper::function_two::Request {
        message: String::from("ping"),
    });
    assert_eq!(out.req_message, "ping");
    assert_eq!(out.my_response, "Hello from Function One!");
}

#[test]
fn load_config_keeps_endpoint() {
    let c = load_config(Some(String::from("http://localhost:8000")));
    assert_eq!(c.endpoint.as_deref(), Some("http://localhost:8000"));
    let c = load_config(None);
    assert!(c.endpoint.is_none());
}
