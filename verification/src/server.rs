//! The per-connection control flow that needs no input/output: walking
//! the handler chain in order, the static fallback decision, and the
//! not-found page. The surrounding process reads the request lines,
//! reads files, and writes the serialized response.

use vstd::prelude::*;
use vstd::string::StringExecFns;

use crate::http_app::HandlerError;
use crate::http_app::HttpApp;
use crate::http_request::HttpRequest;
use crate::http_response::HttpResponse;
use crate::http_response::spec_same_but_body;

verus! {

/// The handler the chain picks for a sequence of claim verdicts: the
/// position of the first true verdict, if any.
pub open spec fn spec_first_claim(verdicts: Seq<bool>) -> Option<int>
    decreases verdicts.len(),
{
    if verdicts.len() == 0 {
        None
    } else if verdicts[0] {
        Some(0)
    } else {
        match spec_first_claim(verdicts.drop_first()) {
            None => None,
            Some(i) => Some(i + 1),
        }
    }
}

/// `spec_first_claim` returns the least claiming position, or `None`
/// when nobody claims.
pub proof fn lemma_first_claim(verdicts: Seq<bool>)
    ensures
        match spec_first_claim(verdicts) {
            Some(i) => 0 <= i < verdicts.len() && verdicts[i] && (forall|j: int|
                0 <= j < i ==> !verdicts[j]),
            None => forall|j: int| 0 <= j < verdicts.len() ==> !verdicts[j],
        },
    decreases verdicts.len(),
{
    if verdicts.len() > 0 && !verdicts[0] {
        lemma_first_claim(verdicts.drop_first());
        match spec_first_claim(verdicts.drop_first()) {
            None => {
                assert forall|j: int| 0 <= j < verdicts.len() implies !verdicts[j] by {
                    if j > 0 {
                        assert(verdicts.drop_first()[j - 1] == verdicts[j]);
                    }
                }
            },
            Some(i) => {
                assert(verdicts.drop_first()[i] == verdicts[i + 1]);
                assert forall|j: int| 0 <= j < i + 1 implies !verdicts[j] by {
                    if j > 0 {
                        assert(verdicts.drop_first()[j - 1] == verdicts[j]);
                    }
                }
            },
        }
    }
}

/// First match wins: when exactly one handler would claim the request,
/// the chain picks exactly that handler, wherever in the order it
/// stands.
pub proof fn lemma_single_claimant(verdicts: Seq<bool>, k: int)
    requires
        0 <= k < verdicts.len(),
        verdicts[k],
        forall|j: int| 0 <= j < verdicts.len() && j != k ==> !verdicts[j],
    ensures
        spec_first_claim(verdicts) == Some(k),
{
    lemma_first_claim(verdicts);
    match spec_first_claim(verdicts) {
        None => {
            assert(!verdicts[k]);
        },
        Some(i) => {
            if i < k {
                assert(!verdicts[i]);
            }
            if i > k {
                assert(!verdicts[k]);
            }
        },
    }
}

/// Walks the handler chain in registration order, stopping at the
/// first handler that claims the request. Returns the claiming
/// handler's position (`None` when every handler declines, the error
/// when one fails) together with the recorded verdicts: one entry per
/// handler invoked. Handlers past the last invoked one are never
/// invoked, so they stand untouched; an empty chain always declines.
pub fn dispatch<A: HttpApp>(
    apps: &mut Vec<A>,
    req: &HttpRequest,
    resp: &mut HttpResponse,
) -> (r: (Result<Option<usize>, HandlerError>, Ghost<Seq<bool>>))
    requires
        old(resp).wf(),
    ensures
        final(resp).wf(),
        final(apps)@.len() == old(apps)@.len(),
        old(apps)@.len() == 0 ==> r.0 == Ok::<Option<usize>, HandlerError>(None),
        ({
            let verdicts = r.1@;
            match r.0 {
                Ok(Some(k)) => k < old(apps)@.len() && verdicts.len() == k + 1
                    && verdicts[k as int] && (forall|j: int| 0 <= j < k ==> !verdicts[j])
                    && spec_first_claim(verdicts) == Some(k as int) && (forall|j: int|
                    k < j < old(apps)@.len() ==> final(apps)@[j] == old(apps)@[j]),
                Ok(None) => verdicts.len() == old(apps)@.len() && (forall|j: int|
                    0 <= j < verdicts.len() ==> !verdicts[j]) && spec_first_claim(verdicts)
                    is None,
                Err(_) => verdicts.len() < old(apps)@.len() && (forall|j: int|
                    0 <= j < verdicts.len() ==> !verdicts[j]) && (forall|j: int|
                    verdicts.len() < j < old(apps)@.len() ==> final(apps)@[j] == old(apps)@[j]),
            }
        }),
{
    let n = apps.len();
    let ghost mut verdicts: Seq<bool> = Seq::empty();
    let mut i: usize = 0;
    while i < n
        invariant
            n == apps@.len(),
            apps@.len() == old(apps)@.len(),
            resp.wf(),
            i <= n,
            verdicts.len() == i,
            forall|j: int| 0 <= j < i ==> !verdicts[j],
            forall|j: int| i <= j < n ==> apps@[j] == old(apps)@[j],
        decreases n - i,
    {
        match apps[i].handle(req, resp) {
            Ok(true) => {
                proof {
                    verdicts = verdicts.push(true);
                    lemma_first_claim(verdicts);
                    match spec_first_claim(verdicts) {
                        None => {
                            assert(!verdicts[i as int]);
                        },
                        Some(m) => {
                            if m < i {
                                assert(!verdicts[m]);
                            }
                            if m > i {
                                assert(!verdicts[i as int]);
                            }
                        },
                    }
                }
                return (Ok(Some(i)), Ghost(verdicts));
            },
            Ok(false) => {
                proof {
                    verdicts = verdicts.push(false);
                }
            },
            Err(e) => {
                return (Err(e), Ghost(verdicts));
            },
        }
        i += 1;
    }
    proof {
        lemma_first_claim(verdicts);
        if spec_first_claim(verdicts) is Some {
            let m = spec_first_claim(verdicts)->0;
            assert(!verdicts[m]);
        }
    }
    (Ok(None), Ghost(verdicts))
}

/// The filesystem path a request target maps to: the target
/// concatenated onto the fixed public-root prefix. Traversal segments
/// in the target are not sanitized here — a known gap of this design.
pub fn public_path(target: &str) -> (r: String)
    ensures
        r@ == "./public"@ + target@,
{
    let mut p: String = "./public".to_owned();
    p.append(target);
    p
}

/// Applies the outcome of the public-root file read: with contents in
/// hand the body is extended and the request counts as served (the
/// status stays as it was); with none the response is untouched.
pub fn apply_static(resp: &mut HttpResponse, data: Option<&String>) -> (r: bool)
    requires
        old(resp).wf(),
    ensures
        final(resp).wf(),
        r == (data is Some),
        match data {
            Some(d) => final(resp)@.body == old(resp)@.body + d@ && spec_same_but_body(
                final(resp)@,
                old(resp)@,
            ),
            None => *final(resp) == *old(resp),
        },
{
    match data {
        Some(d) => {
            resp.add_body(d.as_str());
            true
        },
        None => false,
    }
}

/// Serves the fixed not-found page: status 404 "Not Found" with the
/// page's text appended to the body.
pub fn apply_not_found(resp: &mut HttpResponse, page: &str)
    requires
        old(resp).wf(),
    ensures
        final(resp).wf(),
        final(resp).code == 404,
        final(resp).message@ == "Not Found"@,
        final(resp).body@ == old(resp).body@ + page@,
        final(resp).version == old(resp).version,
        final(resp).headers == old(resp).headers,
{
    resp.set_code(404);
    resp.set_message("Not Found");
    resp.add_body(page);
}

/// The whole fallback step once every handler has declined: file
/// contents found under the public root serve as the body with the
/// status kept (200 unless a handler changed it); a missing file
/// cascades to the not-found page with status 404.
pub fn fallback(resp: &mut HttpResponse, public_file: Option<&String>, not_found_page: &str) -> (r:
    bool)
    requires
        old(resp).wf(),
    ensures
        final(resp).wf(),
        r == (public_file is Some),
        match public_file {
            Some(d) => final(resp)@.body == old(resp)@.body + d@ && spec_same_but_body(
                final(resp)@,
                old(resp)@,
            ),
            None => final(resp)@.code == 404 && final(resp)@.message == "Not Found"@
                && final(resp)@.body == old(resp)@.body + not_found_page@
                && final(resp)@.version == old(resp)@.version
                && final(resp)@.headers == old(resp)@.headers,
        },
{
    if apply_static(resp, public_file) {
        true
    } else {
        apply_not_found(resp, not_found_page);
        false
    }
}

/// A fresh response seeded from the triggering request: its version is
/// copied from the request, never chosen independently.
pub fn response_for(req: &HttpRequest) -> (r: HttpResponse)
    ensures
        r.wf(),
        r@.version == req.version@,
        r@.code == 200,
        r@.message == "OK"@,
        r@.headers.len() == 0,
        r.headers.as_map() == Map::<Seq<char>, Seq<char>>::empty(),
        r@.body == Seq::<char>::empty(),
{
    let mut resp = HttpResponse::new();
    resp.set_version(req.get_version().as_str());
    resp
}

/// The response synthesized when parsing fails: status 400 with an
/// empty body. The parse yielded no version, so a fixed one stands.
pub fn bad_request_response() -> (r: HttpResponse)
    ensures
        r.wf(),
        r@.version == "HTTP/1.1"@,
        r@.code == 400,
        r@.message == "Bad Request"@,
        r@.headers.len() == 0,
        r@.body == Seq::<char>::empty(),
{
    let mut resp = HttpResponse::new();
    resp.set_version("HTTP/1.1");
    resp.set_code(400);
    resp.set_message("Bad Request");
    resp
}

} // verus!
