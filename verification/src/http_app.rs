//! The handler capability: any component that, offered a request and a
//! mutable response, either fully handles the request or declines it,
//! and may fail with an internal error.

use vstd::prelude::*;

use crate::http_request::HttpRequest;
use crate::http_response::HttpResponse;

verus! {

/// A handler's failure. Such a failure aborts the connection's
/// response; it never crashes the server.
#[derive(Clone, Copy, Debug, PartialEq, Eq, Structural)]
pub enum HandlerError {
    /// An input/output failure inside a handler.
    Io,
    /// A stored task line that does not parse.
    InvalidTaskData,
    /// A query string without the expected parameter.
    InvalidQuery,
    /// A task number outside the stored task list.
    InvalidTaskIndex,
}

/// An app pluggable into the handler chain.
pub trait HttpApp {
    /// Offered the request/response pair; returns whether it fully
    /// handled the request, or fails. A handler may mutate the
    /// response freely but must leave it well-formed.
    fn handle(&mut self, http_request: &HttpRequest, http_response: &mut HttpResponse) -> (r:
        Result<bool, HandlerError>)
        requires
            old(http_response).wf(),
        ensures
            final(http_response).wf(),
    ;

    /// Marks the response a redirect to `target`: status 302 "Found"
    /// with a Location header; the body is left alone.
    fn redirect(&self, http_response: &mut HttpResponse, target: &str)
        requires
            old(http_response).wf(),
        ensures
            final(http_response).wf(),
            final(http_response).code == 302,
            final(http_response).message@ == "Found"@,
            final(http_response).headers.as_map() == old(
                http_response,
            ).headers.as_map().insert("Location"@, target@),
            final(http_response).version == old(http_response).version,
            final(http_response).body == old(http_response).body,
    {
        http_response.set_code(302);
        http_response.set_message("Found");
        http_response.add_header("Location", target);
    }

    /// Appends the contents of a served file to the body; the caller
    /// reads the file and hands its text here.
    fn serve_static(&self, http_response: &mut HttpResponse, data: &str)
        requires
            old(http_response).wf(),
        ensures
            final(http_response).wf(),
            final(http_response).body@ == old(http_response).body@ + data@,
            final(http_response).version == old(http_response).version,
            final(http_response).code == old(http_response).code,
            final(http_response).message == old(http_response).message,
            final(http_response).headers == old(http_response).headers,
    {
        http_response.add_body(data);
    }
}

} // verus!
