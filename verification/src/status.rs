//! The status-code validator: a `status_code` declared in a
//! `response_error` annotation must name a standard HTTP status — one of
//! the informational, success, redirection, client-error or server-error
//! classes, i.e. a code in `100..=599`.  The check exists purely to catch
//! typos (such as `999`) at generation time, before the generated method
//! could ship a code the HTTP layer cannot represent.

use vstd::prelude::*;

verus! {

/// A standard HTTP status: classes 1xx through 5xx.
pub open spec fn is_recognized_status(code: u16) -> bool {
    100 <= code < 600
}

/// Succeeds exactly on the recognized status codes.
pub fn validate_status_code(code: u16) -> (r: bool)
    ensures
        r == is_recognized_status(code),
{
    100 <= code && code < 600
}

} // verus!
