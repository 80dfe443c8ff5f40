//! The business-logic controller of the greeting handler that takes no
//! input.

use vstd::prelude::*;

use crate::function_three_types::ErrorResponse;
use crate::function_three_types::Response;

verus! {

/// Answers with a fixed greeting; never fails.
pub fn function_three_controller() -> (r: Result<Response, ErrorResponse>)
    ensures
        r matches Ok(resp) && resp.message@
            == "[Function_3] Hello function_three, this is an AWS Lambda HTTP request using controller wrapper to avoid lots of boilerplate"@,
{
    Ok(
        Response {
            message: String::from_str(
                "[Function_3] Hello function_three, this is an AWS Lambda HTTP request using controller wrapper to avoid lots of boilerplate",
            ),
        },
    )
}

} // verus!
