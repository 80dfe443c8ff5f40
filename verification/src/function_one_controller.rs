//! The business-logic controller of the greeting handler that takes an
//! input.

use vstd::prelude::*;

use crate::function_one_types::ErrorResponse;
use crate::function_one_types::Request;
use crate::function_one_types::Response;

verus! {

/// Greets the name carried by the request; never fails.
pub fn function_one_controller(req: Request) -> (r: Result<Response, ErrorResponse>)
    ensures
        r matches Ok(resp) && resp.message@ == "[Function_1] Hello "@ + req.name@
            + ", this is an AWS Lambda HTTP request using controller wrapper to avoid lots of boilerplate"@,
{
    let mut message = String::from_str("[Function_1] Hello ");
    message.append(req.name.as_str());
    message.append(
        ", this is an AWS Lambda HTTP request using controller wrapper to avoid lots of boilerplate",
    );
    Ok(Response { message: message })
}

} // verus!
