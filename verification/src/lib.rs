//! A verified request/response adaptation layer for JSON-over-HTTP handlers
//! run behind a managed, event-driven runtime.
//!
//! The library decodes an inbound event body as JSON into a typed request,
//! hands it to a caller-supplied handler, and encodes the handler's
//! `Result` as an HTTP response: status 200 with the JSON of the success
//! value, or status 400 with the JSON of the failure value.  An empty or
//! malformed body short-circuits to a fixed status-400 JSON error without
//! reaching the handler.  The runtime wiring itself (the event loop, the
//! process lifecycle) stays outside this crate.

pub mod codec;
pub mod controller;
pub mod dynamodb;
pub mod function_one_controller;
pub mod function_one_types;
pub mod function_three_controller;
pub mod function_three_types;
pub mod function_two;
pub mod json;
pub mod lambda_http_wrapper;
pub mod types;
