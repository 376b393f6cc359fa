//! The request parser: turns the lines of a request's head (start line
//! and header lines, terminators already stripped) into a structured
//! request.

use vstd::prelude::*;

use crate::headers::HeaderMap;
use crate::http_method::HttpMethod;
use crate::http_method::ParseError;
use crate::http_method::is_http_verb;
use crate::text::spec_find;
use crate::text::spec_split;
use crate::text::split_char;

verus! {

/// What a parsed request denotes: plain mathematical values.
pub struct RequestModel {
    pub method: Seq<char>,
    pub target: Seq<char>,
    pub version: Seq<char>,
    pub headers: Map<Seq<char>, Seq<char>>,
}

/// A header line is acceptable exactly when it holds a colon.
pub open spec fn spec_has_colon(line: Seq<char>) -> bool {
    spec_find(line, ':') is Some
}

/// The key of a header line: everything before the first colon.
pub open spec fn spec_header_key(line: Seq<char>) -> Seq<char> {
    line.subrange(0, spec_find(line, ':')->0)
}

/// The value of a header line: everything after the first colon,
/// verbatim — no whitespace is trimmed.
pub open spec fn spec_header_value(line: Seq<char>) -> Seq<char> {
    line.subrange(spec_find(line, ':')->0 + 1, line.len() as int)
}

/// The headers after folding `lines` into `m` first to last; a later
/// line with the same key overwrites an earlier one.
pub open spec fn spec_fold_headers(m: Map<Seq<char>, Seq<char>>, lines: Seq<Seq<char>>) -> Map<
    Seq<char>,
    Seq<char>,
>
    decreases lines.len(),
{
    if lines.len() == 0 {
        m
    } else {
        spec_fold_headers(
            m.insert(spec_header_key(lines[0]), spec_header_value(lines[0])),
            lines.drop_first(),
        )
    }
}

/// The whole parse, as a function of the lines read: an empty stream is
/// malformed; the start line must split on single spaces into exactly
/// three tokens, with a whitelisted verb first and a non-empty target;
/// every later line must hold a colon.
pub open spec fn spec_parse_request(lines: Seq<Seq<char>>) -> Result<RequestModel, ParseError> {
    if lines.len() == 0 {
        Err(ParseError::MalformedRequest)
    } else {
        let toks = spec_split(lines[0], ' ');
        if toks.len() != 3 {
            Err(ParseError::MalformedRequest)
        } else if !is_http_verb(toks[0]) {
            Err(ParseError::InvalidMethod)
        } else if toks[1].len() == 0 {
            Err(ParseError::MalformedRequest)
        } else if exists|i: int| 1 <= i < lines.len() && !spec_has_colon(#[trigger] lines[i]) {
            Err(ParseError::MalformedRequest)
        } else {
            Ok(
                RequestModel {
                    method: toks[0],
                    target: toks[1],
                    version: toks[2],
                    headers: spec_fold_headers(
                        Map::empty(),
                        lines.subrange(1, lines.len() as int),
                    ),
                },
            )
        }
    }
}

/// A structured request: method, target, protocol version, headers.
/// Beyond the target being non-empty, target and version are stored
/// verbatim, without syntax validation — a documented limitation of
/// this parser.
#[derive(Debug)]
pub struct HttpRequest {
    pub method: HttpMethod,
    pub target: String,
    pub version: String,
    pub headers: HeaderMap,
}

impl View for HttpRequest {
    type V = RequestModel;

    open spec fn view(&self) -> RequestModel {
        RequestModel {
            method: self.method.verb@,
            target: self.target@,
            version: self.version@,
            headers: self.headers.as_map(),
        }
    }
}

impl HttpRequest {
    /// The method is whitelisted, the target is non-empty, and the
    /// header keys are distinct.
    pub open spec fn wf(self) -> bool {
        self.method.wf() && self.target@.len() > 0 && self.headers.wf()
    }

    /// Returns the method of the request.
    pub fn get_method(&self) -> (r: &HttpMethod)
        ensures
            *r == self.method,
    {
        &self.method
    }

    /// Returns the target of the request.
    pub fn get_target(&self) -> (r: &String)
        ensures
            r@ == self.target@,
    {
        &self.target
    }

    /// Returns the protocol version of the request.
    pub fn get_version(&self) -> (r: &String)
        ensures
            r@ == self.version@,
    {
        &self.version
    }

    /// Returns the headers of the request.
    pub fn get_headers(&self) -> (r: &HeaderMap)
        ensures
            *r == self.headers,
    {
        &self.headers
    }

    /// Reads the method, target and version from the start line: it
    /// must split on single spaces into exactly three tokens, stored
    /// verbatim, the first a whitelisted verb and the second — the
    /// target — non-empty.
    pub fn from_first_line(line: &str) -> (r: Result<Self, ParseError>)
        ensures
            r is Ok <==> (spec_split(line@, ' ').len() == 3 && is_http_verb(
                spec_split(line@, ' ')[0],
            ) && spec_split(line@, ' ')[1].len() > 0),
            r matches Ok(req) ==> {
                let toks = spec_split(line@, ' ');
                req.wf() && req@.method == toks[0] && req@.target == toks[1] && req@.version
                    == toks[2] && req@.headers == Map::<Seq<char>, Seq<char>>::empty()
            },
            r matches Err(e) ==> e == (if spec_split(line@, ' ').len() == 3 && !is_http_verb(
                spec_split(line@, ' ')[0],
            ) {
                ParseError::InvalidMethod
            } else {
                ParseError::MalformedRequest
            }),
    {
        let split: Vec<String> = split_char(line, ' ');
        proof {
            assert(forall|i: int|
                0 <= i < split@.len() ==> split.deep_view()[i] == split@[i]@);
        }
        if split.len() != 3 {
            return Err(ParseError::MalformedRequest);
        }
        let method = match HttpMethod::new(split[0].as_str()) {
            Ok(m) => m,
            Err(e) => {
                return Err(e);
            },
        };
        if split[1].as_str().is_empty() {
            return Err(ParseError::MalformedRequest);
        }
        let target = split[1].clone();
        let version = split[2].clone();
        Ok(HttpRequest { method, target, version, headers: HeaderMap::new() })
    }

    /// Adds the header lines `lines[start ..]` in order: each must hold
    /// a colon; the key is the text before the first colon and the
    /// value the text after it, verbatim; a repeated key keeps only the
    /// last value. On the first line without a colon the parse stops
    /// with a malformed-request error, the earlier lines retained.
    pub fn add_headers_from_lines(&mut self, lines: &Vec<String>, start: usize) -> (r: Result<
        (),
        ParseError,
    >)
        requires
            old(self).wf(),
            start <= lines@.len(),
        ensures
            final(self).wf(),
            final(self).method == old(self).method,
            final(self).target == old(self).target,
            final(self).version == old(self).version,
            ({
                let hs = lines.deep_view().subrange(start as int, lines@.len() as int);
                match r {
                    Ok(()) => (forall|i: int| 0 <= i < hs.len() ==> spec_has_colon(#[trigger] hs[i]))
                        && final(self).headers.as_map() == spec_fold_headers(
                        old(self).headers.as_map(),
                        hs,
                    ),
                    Err(e) => {
                        let after = final(self).headers.as_map();
                        e == ParseError::MalformedRequest && (exists|k: int|
                            0 <= k < hs.len() && !spec_has_colon(#[trigger] hs[k]) && (forall|
                                j: int,
                            |
                                0 <= j < k ==> spec_has_colon(#[trigger] hs[j])) && after
                                == spec_fold_headers(
                                old(self).headers.as_map(),
                                hs.subrange(0, k),
                            ))
                    },
                }
            }),
    {
        let ghost hs = lines.deep_view().subrange(start as int, lines@.len() as int);
        let n = lines.len();
        let mut i: usize = start;
        while i < n
            invariant
                old(self).wf(),
                self.wf(),
                start <= i <= n,
                n == lines@.len(),
                hs == lines.deep_view().subrange(start as int, lines@.len() as int),
                self.method == old(self).method,
                self.target == old(self).target,
                self.version == old(self).version,
                forall|j: int| 0 <= j < i - start ==> spec_has_colon(#[trigger] hs[j]),
                self.headers.as_map() == spec_fold_headers(
                    old(self).headers.as_map(),
                    hs.subrange(0, i - start),
                ),
            decreases n - i,
        {
            proof {
                assert(lines.deep_view()[i as int] == lines@[i as int]@);
                assert(hs[i - start] == lines@[i as int]@);
            }
            let line: &String = &lines[i];
            match crate::text::split_once_char(line.as_str(), ':') {
                None => {
                    proof {
                        assert(!spec_has_colon(hs[i - start]));
                        assert(self.headers.as_map() == spec_fold_headers(
                            old(self).headers.as_map(),
                            hs.subrange(0, i - start),
                        ));
                    }
                    return Err(ParseError::MalformedRequest);
                },
                Some((key, value)) => {
                    proof {
                        crate::text::lemma_spec_find(line@, ':');
                    }
                    self.headers.insert(key.as_str(), value.as_str());
                    proof {
                        let prev = hs.subrange(0, i - start);
                        let cur = hs.subrange(0, i + 1 - start);
                        assert(cur.drop_last() =~= prev);
                        assert(cur.last() == hs[i - start]);
                        lemma_fold_headers_snoc(old(self).headers.as_map(), cur);
                        assert(key@ == spec_header_key(hs[i - start]));
                        assert(value@ == spec_header_value(hs[i - start]));
                    }
                    i += 1;
                },
            }
        }
        proof {
            assert(hs.subrange(0, n - start) =~= hs);
        }
        Ok(())
    }

    /// Parses a whole request head: the first line is the start line
    /// and every later line a header line. The outcome is exactly
    /// `spec_parse_request` of the lines; in particular an empty
    /// sequence of lines is a malformed request, never a request value.
    pub fn from_lines(lines: &Vec<String>) -> (r: Result<Self, ParseError>)
        ensures
            r matches Ok(req) ==> req.wf() && spec_parse_request(lines.deep_view()) == Ok::<
                RequestModel,
                ParseError,
            >(req@),
            r matches Err(e) ==> spec_parse_request(lines.deep_view()) == Err::<
                RequestModel,
                ParseError,
            >(e),
    {
        if lines.len() == 0 {
            return Err(ParseError::MalformedRequest);
        }
        proof {
            assert(lines.deep_view()[0] == lines@[0]@);
        }
        let first = &lines[0];
        let mut req = match Self::from_first_line(first.as_str()) {
            Ok(req) => req,
            Err(e) => {
                return Err(e);
            },
        };
        let ghost req_after_first = req;
        match req.add_headers_from_lines(lines, 1) {
            Ok(()) => {
                proof {
                    let dv = lines.deep_view();
                    let hs = dv.subrange(1, dv.len() as int);
                    assert(req.headers.as_map() == spec_fold_headers(
                        req_after_first.headers.as_map(),
                        hs,
                    ));
                    assert forall|i: int| 1 <= i < dv.len() implies spec_has_colon(
                        #[trigger] dv[i],
                    ) by {
                        assert(dv[i] == hs[i - 1]);
                    }
                    assert(req@.headers == spec_fold_headers(
                        Map::<Seq<char>, Seq<char>>::empty(),
                        hs,
                    ));
                    assert(spec_parse_request(dv) == Ok::<RequestModel, ParseError>(req@));
                }
                Ok(req)
            },
            Err(e) => {
                proof {
                    let dv = lines.deep_view();
                    let hs = dv.subrange(1, dv.len() as int);
                    assert(exists|k: int| 1 <= k < dv.len() && !spec_has_colon(#[trigger] dv[k]))
                        by {
                        let k = choose|k: int|
                            0 <= k < hs.len() && !spec_has_colon(#[trigger] hs[k]) && (forall|
                                j: int,
                            |
                                0 <= j < k ==> spec_has_colon(#[trigger] hs[j]));
                        assert(dv[k + 1] == hs[k]);
                    }
                }
                Err(e)
            },
        }
    }
}

/// In a folded header block the last line holding a key decides that
/// key's value: the values of earlier lines with the same key are
/// unobservable in the mapping.
pub proof fn lemma_fold_headers_last_wins(
    m: Map<Seq<char>, Seq<char>>,
    lines: Seq<Seq<char>>,
    i: int,
)
    requires
        0 <= i < lines.len(),
        forall|j: int|
            i < j < lines.len() ==> spec_header_key(#[trigger] lines[j]) != spec_header_key(
                lines[i],
            ),
    ensures
        spec_fold_headers(m, lines).contains_key(spec_header_key(lines[i])),
        spec_fold_headers(m, lines)[spec_header_key(lines[i])] == spec_header_value(lines[i]),
    decreases lines.len(),
{
    lemma_fold_headers_snoc(m, lines);
    if i < lines.len() - 1 {
        assert(forall|j: int|
            0 <= j < lines.drop_last().len() ==> lines.drop_last()[j] == lines[j]);
        lemma_fold_headers_last_wins(m, lines.drop_last(), i);
    }
}

/// An empty byte stream yields no lines, and no lines are a malformed
/// request: parsing never returns a request for an empty stream.
pub proof fn lemma_empty_stream_rejected()
    ensures
        spec_parse_request(Seq::empty()) == Err::<RequestModel, ParseError>(
            ParseError::MalformedRequest,
        ),
{
}

/// Folding one more header line inserts that line's key and value.
pub proof fn lemma_fold_headers_snoc(m: Map<Seq<char>, Seq<char>>, lines: Seq<Seq<char>>)
    requires
        lines.len() > 0,
    ensures
        spec_fold_headers(m, lines) == spec_fold_headers(
            m,
            lines.drop_last(),
        ).insert(spec_header_key(lines.last()), spec_header_value(lines.last())),
    decreases lines.len(),
{
    let m2 = m.insert(spec_header_key(lines[0]), spec_header_value(lines[0]));
    assert(spec_fold_headers(m, lines) == spec_fold_headers(m2, lines.drop_first()));
    if lines.len() == 1 {
        assert(lines.drop_first().len() == 0);
        assert(spec_fold_headers(m2, lines.drop_first()) == m2);
        assert(lines.drop_last().len() == 0);
        assert(spec_fold_headers(m, lines.drop_last()) == m);
        assert(lines.last() == lines[0]);
    } else {
        lemma_fold_headers_snoc(m2, lines.drop_first());
        assert(lines.drop_first().drop_last() =~= lines.drop_last().drop_first());
        assert(lines.drop_first().last() == lines.last());
        assert(lines.drop_last().len() > 0);
        assert(lines.drop_last()[0] == lines[0]);
        assert(spec_fold_headers(m, lines.drop_last()) == spec_fold_headers(
            m2,
            lines.drop_last().drop_first(),
        ));
    }
}

} // verus!
