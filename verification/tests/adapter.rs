use lambda_http_wrapper::function_one_types::ErrorResponse;
use lambda_http_wrapper::function_one_types::Request;
use lambda_http_wrapper::function_one_types::Response;
use lambda_http_wrapper::lambda_http_wrapper::lambda_rest_controller;
use lambda_http_wrapper::lambda_http_wrapper::lambda_rest_controller_no_input;
use lambda_http_wrapper::lambda_http_wrapper::parse_json_body;
use lambda_http_wrapper::lambda_http_wrapper::result_to_http_response;
use lambda_http_wrapper::lambda_http_wrapper::Body;
use lambda_http_wrapper::lambda_http_wrapper::HttpResponse;

fn greeter(req: Request) -> Result<Response, ErrorResponse> {
    let mut message = String::from("Hello ");
    message.push_str(&req.name);
    Ok(Response { message })
}

fn refuser(_req: Request) -> Result<Response, ErrorResponse> {
    Err(ErrorResponse {
        error: String::from("no"),
    })
}

#[test]
fn with_input_valid_json_gives_200_and_handler_body() {
    let body = Body::Text(String::from("{\"name\":\"world\"}"));
    let resp: HttpResponse = lambda_rest_controller(greeter, &body);
    assert_eq!(resp.status, 200);
    assert_eq!(resp.body, "{\"message\":\"Hello world\"}");
    assert_eq!(resp.content_type, "application/json");
}

#[test]
fn with_input_handler_failure_gives_400_and_error_body() {
    let body = Body::Text(String::from("{\"name\":\"world\"}"));
    let resp = lambda_rest_controller(refuser, &body);
    assert_eq!(resp.status, 400);
    assert_eq!(resp.body, "{\"error\":\"no\"}");
}

#[test]
fn with_input_empty_text_body_gives_400_without_handler() {
    let body = Body::Text(String::new());
    let resp = lambda_rest_controller(
        |_req: Request| -> Result<Response, ErrorResponse> { panic!("handler must not run") },
        &body,
    );
    assert_eq!(resp.status, 400);
    assert_eq!(resp.body, "{\"error\":\"Expected JSON body, got empty body\"}");
}

#[test]
fn with_input_absent_body_gives_400_without_handler() {
    let resp = lambda_rest_controller(
        |_req: Request| -> Result<Response, ErrorResponse> { panic!("handler must not run") },
        &Body::Empty,
    );
    assert_eq!(resp.status, 400);
    assert_eq!(resp.body, "{\"error\":\"Expected JSON body, got empty body\"}");
}

#[test]
fn with_input_empty_binary_body_gives_400_without_handler() {
    let resp = lambda_rest_controller(
        |_req: Request| -> Result<Response, ErrorResponse> { panic!("handler must not run") },
        &Body::Binary(Vec::new()),
    );
    assert_eq!(resp.status, 400);
    assert_eq!(resp.body, "{\"error\":\"Expected JSON body, got empty body\"}");
}

#[test]
fn with_input_not_json_gives_400_without_handler() {
    let body = Body::Text(String::from("not-json"));
    let resp = lambda_rest_controller(
        |_req: Request| -> Result<Response, ErrorResponse> { panic!("handler must not run") },
        &body,
    );
    assert_eq!(resp.status, 400);
    assert_eq!(resp.body, "{\"error\":\"Invalid JSON request body\"}");
}

#[test]
fn with_input_invalid_utf8_binary_gives_400_without_handler() {
    let body = Body::Binary(vec![0xff, 0xfe, 0x01]);
    let resp = lambda_rest_controller(
        |_req: Request| -> Result<Response, ErrorResponse> { panic!("handler must not run") },
        &body,
    );
    assert_eq!(resp.status, 400);
    assert_eq!(resp.body, "{\"error\":\"Invalid JSON request body\"}");
}

#[test]
fn with_input_binary_json_reaches_handler() {
    let body = Body::Binary("{\"name\":\"bytes\"}".as_bytes().to_vec());
    let resp = lambda_rest_controller(greeter, &body);
    assert_eq!(resp.status, 200);
    assert_eq!(resp.body, "{\"message\":\"Hello bytes\"}");
}

#[test]
fn with_input_unicode_escape_reaches_handler() {
    let body = Body::Text(String::from("{\"name\":\"Jos\\u00e9\"}"));
    let resp = lambda_rest_controller(greeter, &body);
    assert_eq!(resp.status, 200);
    assert_eq!(resp.body, "{\"message\":\"Hello Jos\u{e9}\"}");
}

#[test]
fn with_input_duplicate_field_gives_400_without_handler() {
    let body = Body::Text(String::from("{\"name\":\"a\",\"name\":\"b\"}"));
    let resp = lambda_rest_controller(
        |_req: Request| -> Result<Response, ErrorResponse> { panic!("handler must not run") },
        &body,
    );
    assert_eq!(resp.status, 400);
    assert_eq!(resp.body, "{\"error\":\"Invalid JSON request body\"}");
}

#[test]
fn with_input_whitespace_tolerant_decoding() {
    let body = Body::Text(String::from("  { \"name\" : \"spaced\" }  "));
    let resp = lambda_rest_controller(greeter, &body);
    assert_eq!(resp.status, 200);
    assert_eq!(resp.body, "{\"message\":\"Hello spaced\"}");
}

#[test]
fn no_input_adapter_ignores_any_body() {
    let fixed = || -> Result<Response, ErrorResponse> {
        Ok(Response {
            message: String::from("always"),
        })
    };
    let garbage = Body::Binary(vec![0xff, 0x00, 0x99]);
    let resp = lambda_rest_controller_no_input(fixed, &garbage);
    assert_eq!(resp.status, 200);
    assert_eq!(resp.body, "{\"message\":\"always\"}");

    let resp2 = lambda_rest_controller_no_input(fixed, &Body::Empty);
    assert_eq!(resp2.status, 200);
    assert_eq!(resp2.body, "{\"message\":\"always\"}");

    let resp3 = lambda_rest_controller_no_input(fixed, &Body::Text(String::from("not-json")));
    assert_eq!(resp3.status, 200);
    assert_eq!(resp3.body, "{\"message\":\"always\"}");
}

#[test]
fn result_to_http_response_success_is_200_with_json() {
    let resp = result_to_http_response::<Response, ErrorResponse>(Ok(Response {
        message: String::from("fine"),
    }));
    assert_eq!(resp.status, 200);
    assert_eq!(resp.body, "{\"message\":\"fine\"}");
    assert_eq!(resp.content_type, "application/json");
}

#[test]
fn result_to_http_response_failure_is_400_with_json() {
    let resp = result_to_http_response::<Response, ErrorResponse>(Err(ErrorResponse {
        error: String::from("bad"),
    }));
    assert_eq!(resp.status, 400);
    assert_eq!(resp.body, "{\"error\":\"bad\"}");
    assert_eq!(resp.content_type, "application/json");
}

#[test]
fn parse_json_body_empty_is_none() {
    let r: Result<Option<Request>, HttpResponse> = parse_json_body(&Body::Empty);
    assert!(matches!(r, Ok(None)));
    let r2: Result<Option<Request>, HttpResponse> = parse_json_body(&Body::Text(String::new()));
    assert!(matches!(r2, Ok(None)));
}

#[test]
fn parse_json_body_valid_is_decoded_value() {
    let r: Result<Option<Request>, HttpResponse> =
        parse_json_body(&Body::Text(String::from("{\"name\":\"x\"}")));
    match r {
        Ok(Some(req)) => assert_eq!(req.name, "x"),
        _ => panic!("expected a decoded request"),
    }
}

#[test]
fn parse_json_body_invalid_is_prebuilt_400() {
    let r: Result<Option<Request>, HttpResponse> =
        parse_json_body(&Body::Text(String::from("{\"name\":")));
    match r {
        Err(resp) => {
            assert_eq!(resp.status, 400);
            assert_eq!(resp.body, "{\"error\":\"Invalid JSON request body\"}");
        }
        _ => panic!("expected the invalid-JSON response"),
    }
}
