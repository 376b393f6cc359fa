//! The response builder: status line, headers and body accumulated in
//! place, then serialized once to wire text.
//!
//! The wire format is deliberately simple and not RFC 7230 framing: the
//! status line and each header line end in a bare line feed, header
//! order is unspecified, no content length is added, and a non-empty
//! body follows a blank line.

use vstd::prelude::*;
use vstd::string::StringExecFns;

use crate::decimal::dec_str;
use crate::decimal::usize_to_string;
use crate::headers::HeaderMap;

verus! {

/// What a response denotes: plain mathematical values. Header entries
/// keep their order here because serialization reads them in order,
/// but callers must not depend on that order.
pub struct ResponseModel {
    pub version: Seq<char>,
    pub code: nat,
    pub message: Seq<char>,
    pub headers: Seq<(Seq<char>, Seq<char>)>,
    pub body: Seq<char>,
}

/// One serialized header line: `key: value` and a line feed.
pub open spec fn spec_header_line(e: (Seq<char>, Seq<char>)) -> Seq<char> {
    e.0 + seq![':', ' '] + e.1 + seq!['\n']
}

/// The serialized header lines from entry `i` on.
pub open spec fn spec_headers_text_from(hs: Seq<(Seq<char>, Seq<char>)>, i: int) -> Seq<char>
    decreases hs.len() - i,
{
    if 0 <= i < hs.len() {
        spec_header_line(hs[i]) + spec_headers_text_from(hs, i + 1)
    } else {
        Seq::empty()
    }
}

/// The full wire text of a response: status line, header lines, and —
/// only when the body is non-empty — a blank line and the body. The
/// status line and every header line carry their own terminator, so
/// the blank line is one further line feed.
pub open spec fn spec_serialize(r: ResponseModel) -> Seq<char> {
    r.version + seq![' '] + dec_str(r.code) + seq![' '] + r.message + seq!['\n']
        + spec_headers_text_from(r.headers, 0) + (if r.body.len() > 0 {
        seq!['\n'] + r.body
    } else {
        Seq::<char>::empty()
    })
}

/// Two response values that agree on everything but the body.
pub open spec fn spec_same_but_body(a: ResponseModel, b: ResponseModel) -> bool {
    a.version == b.version && a.code == b.code && a.message == b.message && a.headers == b.headers
}

/// An HTTP response under construction.
#[derive(Debug)]
pub struct HttpResponse {
    pub version: String,
    pub code: usize,
    pub message: String,
    pub headers: HeaderMap,
    pub body: String,
}

impl View for HttpResponse {
    type V = ResponseModel;

    open spec fn view(&self) -> ResponseModel {
        ResponseModel {
            version: self.version@,
            code: self.code as nat,
            message: self.message@,
            headers: self.headers@,
            body: self.body@,
        }
    }
}

impl HttpResponse {
    /// The header keys are pairwise distinct.
    pub open spec fn wf(self) -> bool {
        self.headers.wf()
    }

    /// A fresh response: empty version, status 200 "OK", no headers,
    /// empty body.
    pub fn new() -> (r: Self)
        ensures
            r.wf(),
            r@.version == Seq::<char>::empty(),
            r@.code == 200,
            r@.message == "OK"@,
            r@.headers.len() == 0,
            r.headers.as_map() == Map::<Seq<char>, Seq<char>>::empty(),
            r@.body == Seq::<char>::empty(),
    {
        HttpResponse {
            version: String::new(),
            code: 200,
            message: "OK".to_owned(),
            headers: HeaderMap::new(),
            body: String::new(),
        }
    }

    /// Setter for the version.
    pub fn set_version(&mut self, version: &str)
        ensures
            final(self).version@ == version@,
            final(self).code == old(self).code,
            final(self).message == old(self).message,
            final(self).headers == old(self).headers,
            final(self).body == old(self).body,
    {
        self.version = version.to_owned();
    }

    /// Setter for the status code.
    pub fn set_code(&mut self, code: usize)
        ensures
            final(self).code == code,
            final(self).version == old(self).version,
            final(self).message == old(self).message,
            final(self).headers == old(self).headers,
            final(self).body == old(self).body,
    {
        self.code = code;
    }

    /// Setter for the status message.
    pub fn set_message(&mut self, message: &str)
        ensures
            final(self).message@ == message@,
            final(self).version == old(self).version,
            final(self).code == old(self).code,
            final(self).headers == old(self).headers,
            final(self).body == old(self).body,
    {
        self.message = message.to_owned();
    }

    /// Binds a header key to a value, overwriting any earlier value
    /// for the same key.
    pub fn add_header(&mut self, key: &str, value: &str)
        requires
            old(self).wf(),
        ensures
            final(self).wf(),
            final(self).headers.as_map() == old(self).headers.as_map().insert(key@, value@),
            final(self).version == old(self).version,
            final(self).code == old(self).code,
            final(self).message == old(self).message,
            final(self).body == old(self).body,
    {
        self.headers.insert(key, value);
    }

    /// Concatenates `string` onto the body; calls append in order with
    /// no separator.
    pub fn add_body(&mut self, string: &str)
        ensures
            final(self).body@ == old(self).body@ + string@,
            final(self).version == old(self).version,
            final(self).code == old(self).code,
            final(self).message == old(self).message,
            final(self).headers == old(self).headers,
    {
        self.body.append(string);
    }

    /// Serializes the response to its wire text. The result is a
    /// function of the response value alone, so repeated calls yield
    /// identical text.
    pub fn to_string(&self) -> (r: String)
        ensures
            r@ == spec_serialize(self@),
    {
        proof {
            reveal_strlit(" ");
            reveal_strlit("\n");
            reveal_strlit(": ");
            assert(" "@ =~= seq![' ']);
            assert("\n"@ =~= seq!['\n']);
            assert(": "@ =~= seq![':', ' ']);
        }
        let mut s = String::new();
        s.append(self.version.as_str());
        s.append(" ");
        let code_text = usize_to_string(self.code);
        s.append(code_text.as_str());
        s.append(" ");
        s.append(self.message.as_str());
        s.append("\n");
        let ghost start = self@.version + seq![' '] + dec_str(self@.code) + seq![' ']
            + self@.message + seq!['\n'];
        proof {
            assert(s@ =~= start);
        }
        let ghost hs = self.headers@;
        let n = self.headers.entries.len();
        let mut i: usize = 0;
        while i < n
            invariant
                n == hs.len(),
                hs == self.headers@,
                i <= n,
                s@ + spec_headers_text_from(hs, i as int) == start + spec_headers_text_from(
                    hs,
                    0,
                ),
            decreases n - i,
        {
            proof {
                reveal_strlit(": ");
                reveal_strlit("\n");
                assert(": "@ =~= seq![':', ' ']);
                assert("\n"@ =~= seq!['\n']);
            }
            let ghost s_before = s@;
            s.append(self.headers.entries[i].0.as_str());
            s.append(": ");
            s.append(self.headers.entries[i].1.as_str());
            s.append("\n");
            proof {
                assert(hs[i as int] == (self.headers.entries@[i as int].0@,
                self.headers.entries@[i as int].1@));
                assert(spec_headers_text_from(hs, i as int) == spec_header_line(hs[i as int])
                    + spec_headers_text_from(hs, i + 1));
                assert(s@ =~= s_before + self.headers.entries@[i as int].0@ + ": "@
                    + self.headers.entries@[i as int].1@ + "\n"@);
                assert(spec_header_line(hs[i as int]) =~= self.headers.entries@[i as int].0@
                    + ": "@ + self.headers.entries@[i as int].1@ + "\n"@);
                assert(s@ =~= s_before + spec_header_line(hs[i as int]));
                assert(s@ + spec_headers_text_from(hs, i + 1) =~= s_before
                    + spec_headers_text_from(hs, i as int));
            }
            i += 1;
        }
        proof {
            assert(spec_headers_text_from(hs, n as int) == Seq::<char>::empty());
            assert(s@ =~= s@ + Seq::<char>::empty());
            assert(s@ == start + spec_headers_text_from(hs, 0));
        }
        if !self.body.as_str().is_empty() {
            s.append("\n");
            s.append(self.body.as_str());
            proof {
                assert(self.body@.len() > 0);
                assert(s@ =~= spec_serialize(self@));
            }
        } else {
            proof {
                assert(self.body@.len() == 0);
                assert(s@ =~= spec_serialize(self@));
            }
        }
        s
    }
}

/// Serialization is repeatable: it is a function of the response value
/// alone, so two serializations of one response are identical text.
pub proof fn lemma_serialize_repeatable(r: ResponseModel, a: Seq<char>, b: Seq<char>)
    requires
        a == spec_serialize(r),
        b == spec_serialize(r),
    ensures
        a == b,
{
}

} // verus!
