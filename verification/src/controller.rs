//! The business-logic controller of the second greeting handler that takes
//! an input.

use vstd::prelude::*;

use crate::types::ErrorResponse;
use crate::types::Request;
use crate::types::Response;

verus! {

/// Greets the name carried by the request; never fails.
pub fn handle(req: Request) -> (r: Result<Response, ErrorResponse>)
    ensures
        r matches Ok(resp) && resp.message@ == "[Function_4] Hello "@ + req.name@
            + ", this is an AWS Lambda HTTP request using controller wrapper to avoid lots of boilerplate"@,
{
    let mut message = String::from_str("[Function_4] Hello ");
    message.append(req.name.as_str());
    message.append(
        ", this is an AWS Lambda HTTP request using controller wrapper to avoid lots of boilerplate",
    );
    Ok(Response { message: message })
}

} // verus!
