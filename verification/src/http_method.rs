//! The method validator: an HTTP verb checked against a fixed,
//! case-sensitive whitelist of nine verbs.

use vstd::prelude::*;

use crate::text::str_eq;

verus! {

/// Errors from turning raw request text into a structured request.
/// An unknown verb is reported apart from a malformed message, so a
/// caller can map the two to different statuses.
#[derive(Clone, Copy, Debug, PartialEq, Eq, Structural)]
pub enum ParseError {
    /// The start line's first token is not a whitelisted HTTP verb.
    InvalidMethod,
    /// The message itself is malformed: an empty stream, a start line
    /// without exactly three tokens, or a header line without a colon.
    MalformedRequest,
}

/// The fixed whitelist of HTTP verbs.
pub open spec fn spec_http_verbs() -> Seq<Seq<char>> {
    seq![
        "GET"@,
        "HEAD"@,
        "POST"@,
        "PUT"@,
        "DELETE"@,
        "CONNECT"@,
        "OPTIONS"@,
        "TRACE"@,
        "PATCH"@,
    ]
}

/// A token is a valid verb iff it equals one of the whitelisted verbs
/// exactly: the test is case-sensitive and does no normalization.
pub open spec fn is_http_verb(s: Seq<char>) -> bool {
    spec_http_verbs().contains(s)
}

/// An HTTP method; its verb is always drawn from the whitelist.
#[derive(Debug)]
pub struct HttpMethod {
    pub verb: String,
}

impl HttpMethod {
    /// Every method built by this module satisfies this invariant.
    pub open spec fn wf(self) -> bool {
        is_http_verb(self.verb@)
    }

    /// Validates a token against the whitelist; succeeds exactly on the
    /// nine whitelisted verbs and stores the token verbatim.
    pub fn new(verb: &str) -> (r: Result<Self, ParseError>)
        ensures
            r is Ok <==> is_http_verb(verb@),
            r matches Ok(m) ==> m.verb@ == verb@ && m.wf(),
            r matches Err(e) ==> e == ParseError::InvalidMethod,
    {
        let found = str_eq(verb, "GET") || str_eq(verb, "HEAD") || str_eq(verb, "POST")
            || str_eq(verb, "PUT") || str_eq(verb, "DELETE") || str_eq(verb, "CONNECT")
            || str_eq(verb, "OPTIONS") || str_eq(verb, "TRACE") || str_eq(verb, "PATCH");
        if found {
            Ok(HttpMethod { verb: verb.to_owned() })
        } else {
            proof {
                assert forall|i: int| 0 <= i < spec_http_verbs().len() implies spec_http_verbs()[i]
                    != verb@ by {
                    if i == 0 {
                        assert(spec_http_verbs()[0] == "GET"@);
                    } else if i == 1 {
                        assert(spec_http_verbs()[1] == "HEAD"@);
                    } else if i == 2 {
                        assert(spec_http_verbs()[2] == "POST"@);
                    } else if i == 3 {
                        assert(spec_http_verbs()[3] == "PUT"@);
                    } else if i == 4 {
                        assert(spec_http_verbs()[4] == "DELETE"@);
                    } else if i == 5 {
                        assert(spec_http_verbs()[5] == "CONNECT"@);
                    } else if i == 6 {
                        assert(spec_http_verbs()[6] == "OPTIONS"@);
                    } else if i == 7 {
                        assert(spec_http_verbs()[7] == "TRACE"@);
                    } else {
                        assert(spec_http_verbs()[8] == "PATCH"@);
                    }
                }
            }
            Err(ParseError::InvalidMethod)
        }
    }

    /// Returns the verb of the method.
    pub fn get_verb(&self) -> (r: &String)
        ensures
            r@ == self.verb@,
    {
        &self.verb
    }
}

} // verus!
