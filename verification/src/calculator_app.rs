//! The calculator app: a stub that declines every request.

use vstd::prelude::*;

use crate::http_app::HandlerError;
use crate::http_app::HttpApp;
use crate::http_request::HttpRequest;
use crate::http_response::HttpResponse;

verus! {

/// A calculator app; a stub that never claims a request.
pub struct CalculatorApp {}

impl HttpApp for CalculatorApp {
    /// Declines every request, leaving the response untouched.
    fn handle(&mut self, http_request: &HttpRequest, http_response: &mut HttpResponse) -> (r:
        Result<bool, HandlerError>)
        ensures
            r == Ok::<bool, HandlerError>(false),
            *final(http_response) == *old(http_response),
    {
        Ok(false)
    }
}

} // verus!
