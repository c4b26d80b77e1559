//! Parsing a request line into method, path and query.
use vstd::prelude::*;
use vstd::string::StringSliceAdditionalSpecFns;
use vstd::utf8::{decode_utf8, encode_utf8_decode_utf8, valid_utf8};
use crate::method::{Method, MethodError, method_of};
use crate::query_string::{QueryString, key_of, lemma_gather_members, parse_query, value_of};
use crate::text::{find_first, first_of, lemma_first_of_range, same_text, split_on};

verus! {

/// Why a buffer is not a request.
#[derive(Clone, Copy, Debug, PartialEq, Eq, Structural)]
pub enum ParseError {
    InvalidRequest,
    InvalidEncoding,
    InvalidProtocol,
    InvalidMethod,
}

impl ParseError {
    /// A fixed human-readable message for each kind.
    pub fn message(&self) -> (r: &str)
        ensures
            r@ == match self {
                ParseError::InvalidRequest => "Invalid Request"@,
                ParseError::InvalidEncoding => "Invalid Encoding"@,
                ParseError::InvalidProtocol => "Invalid Protocol"@,
                ParseError::InvalidMethod => "Invalid Method"@,
            },
    {
        match self {
            ParseError::InvalidRequest => "Invalid Request",
            ParseError::InvalidEncoding => "Invalid Encoding",
            ParseError::InvalidProtocol => "Invalid Protocol",
            ParseError::InvalidMethod => "Invalid Method",
        }
    }
}

impl From<MethodError> for ParseError {
    fn from(e: MethodError) -> (r: ParseError)
        ensures
            r == ParseError::InvalidMethod,
    {
        ParseError::InvalidMethod
    }
}

impl vstd::std_specs::convert::FromSpecImpl<MethodError> for ParseError {
    open spec fn obeys_from_spec() -> bool {
        true
    }

    open spec fn from_spec(e: MethodError) -> ParseError {
        ParseError::InvalidMethod
    }
}

#[derive(Debug)]
/// A parsed request: its method, its path without the query, and the query's parameters.
pub struct Request {
    path: String,
    query_string: Option<QueryString>,
    method: Method,
}

/// What a request holds, as values.
pub struct RequestView {
    pub method: Method,
    pub path: Seq<char>,
    pub query: Option<Map<Seq<char>, Seq<Seq<char>>>>,
}

impl View for Request {
    type V = RequestView;

    closed spec fn view(&self) -> RequestView {
        RequestView {
            method: self.method,
            path: self.path@,
            query: match self.query_string {
                Some(q) => Some(q@),
                None => None,
            },
        }
    }
}

/// The text before the first space or carriage return, and the text after it;
/// none where the text holds neither.
pub open spec fn next_word(s: Seq<char>) -> Option<(Seq<char>, Seq<char>)> {
    let k = first_of(s, ' ', '\r');
    if k < 0 {
        None
    } else {
        Some((s.take(k), s.skip(k + 1)))
    }
}

/// The only protocol token accepted.
pub open spec fn protocol_name() -> Seq<char> {
    seq!['H', 'T', 'T', 'P', '/', '1', '.', '1']
}

/// A path token split at its first `?` into the path and the parsed query after it.
pub open spec fn split_path(p: Seq<char>) -> (Seq<char>, Option<Map<Seq<char>, Seq<Seq<char>>>>) {
    let q = first_of(p, '?', '?');
    if q < 0 {
        (p, None)
    } else {
        (p.take(q), Some(parse_query(p.skip(q + 1))))
    }
}

/// What a request line means: three words (method, path, protocol), the protocol checked
/// first, then the method; the path split at its first `?`.
pub open spec fn parse_text(s: Seq<char>) -> Result<RequestView, ParseError> {
    match next_word(s) {
        None => Err(ParseError::InvalidRequest),
        Some((m, r1)) => match next_word(r1) {
            None => Err(ParseError::InvalidRequest),
            Some((p, r2)) => match next_word(r2) {
                None => Err(ParseError::InvalidRequest),
                Some((proto, _)) => {
                    if proto != protocol_name() {
                        Err(ParseError::InvalidProtocol)
                    } else {
                        match method_of(m) {
                            None => Err(ParseError::InvalidMethod),
                            Some(method) => Ok(
                                RequestView {
                                    method,
                                    path: split_path(p).0,
                                    query: split_path(p).1,
                                },
                            ),
                        }
                    }
                },
            },
        },
    }
}

/// What a buffer means: invalid UTF-8 is `InvalidEncoding`, else its text is parsed.
pub open spec fn parse_bytes(b: Seq<u8>) -> Result<RequestView, ParseError> {
    if !valid_utf8(b) {
        Err(ParseError::InvalidEncoding)
    } else {
        parse_text(decode_utf8(b))
    }
}

/// Relies on `std::str::from_utf8`: it succeeds exactly on valid UTF-8, and the text it
/// gives holds those bytes.
#[verifier::external_body]
fn utf8_text(buf: &[u8]) -> (r: Option<&str>)
    ensures
        match r {
            Some(s) => valid_utf8(buf@) && s.spec_bytes() == buf@,
            None => !valid_utf8(buf@),
        },
{
    std::str::from_utf8(buf).ok()
}

/// Splits off the text before the first space or carriage return.
fn get_next_word(request: &str) -> (r: Option<(&str, &str)>)
    ensures
        match r {
            Some((w, rest)) => next_word(request@) == Some((w@, rest@)),
            None => next_word(request@) is None,
        },
{
    match find_first(request, ' ', '\r') {
        Some(i) => {
            let n = request.unicode_len();
            let w = request.substring_char(0, i);
            let rest = request.substring_char(i + 1, n);
            assert(w@ =~= request@.take(i as int));
            assert(rest@ =~= request@.skip(i + 1));
            Some((w, rest))
        },
        None => None,
    }
}

impl Request {
    /// The path, without the query.
    pub fn path(&self) -> (r: &str)
        ensures
            r@ == self@.path,
    {
        self.path.as_str()
    }

    /// The method.
    pub fn method(&self) -> (r: &Method)
        ensures
            *r == self@.method,
    {
        &self.method
    }

    /// The query's parameters, where the path had a `?`.
    pub fn query_string(&self) -> (r: Option<&QueryString>)
        ensures
            match r {
                Some(q) => self@.query == Some(q@),
                None => self@.query is None,
            },
    {
        match &self.query_string {
            Some(q) => Some(q),
            None => None,
        }
    }

    /// Parses a request line from raw bytes.
    pub fn try_from(buf: &[u8]) -> (r: Result<Request, ParseError>)
        ensures
            match r {
                Ok(req) => parse_bytes(buf@) == Ok::<RequestView, ParseError>(req@),
                Err(e) => parse_bytes(buf@) == Err::<RequestView, ParseError>(e),
            },
    {
        match utf8_text(buf) {
            None => Err(ParseError::InvalidEncoding),
            Some(s) => {
                proof {
                    encode_utf8_decode_utf8(s@);
                }
                Request::from_text(s)
            },
        }
    }

    fn from_text(s: &str) -> (r: Result<Request, ParseError>)
        ensures
            match r {
                Ok(req) => parse_text(s@) == Ok::<RequestView, ParseError>(req@),
                Err(e) => parse_text(s@) == Err::<RequestView, ParseError>(e),
            },
    {
        let (method, rest) = match get_next_word(s) {
            Some(p) => p,
            None => return Err(ParseError::InvalidRequest),
        };
        let (path, rest) = match get_next_word(rest) {
            Some(p) => p,
            None => return Err(ParseError::InvalidRequest),
        };
        let (protocol, _) = match get_next_word(rest) {
            Some(p) => p,
            None => return Err(ParseError::InvalidRequest),
        };
        proof {
            reveal_strlit("HTTP/1.1");
            assert("HTTP/1.1"@ =~= protocol_name());
        }
        if !same_text(protocol, "HTTP/1.1") {
            return Err(ParseError::InvalidProtocol);
        }
        let method = match Method::from_str(method) {
            Ok(m) => m,
            Err(e) => return Err(ParseError::from(e)),
        };
        proof {
            lemma_first_of_range(path@, '?', '?');
        }
        match find_first(path, '?', '?') {
            Some(i) => {
                let n = path.unicode_len();
                let query = QueryString::from(path.substring_char(i + 1, n));
                let head = path.substring_char(0, i).to_owned();
                assert(head@ =~= path@.take(i as int));
                assert(path@.subrange(i + 1, n as int) =~= path@.skip(i + 1));
                Ok(Request { path: head, query_string: Some(query), method })
            },
            None => Ok(Request { path: path.to_owned(), query_string: None, method }),
        }
    }
}

/// A path token with exactly one `?` splits there: the path is the text before it and holds
/// no `?`; path, `?` and query text give back the token; and the query keeps every key and
/// every value written in it, with no key that was not written.
pub proof fn lemma_path_query_round_trip(p: Seq<char>, q: int)
    requires
        0 <= q < p.len(),
        p[q] == '?',
        forall|j: int| 0 <= j < p.len() && j != q ==> p[j] != '?',
    ensures
        split_path(p).0 == p.take(q),
        !split_path(p).0.contains('?'),
        split_path(p).0 + seq!['?'] + p.skip(q + 1) == p,
        split_path(p).1 == Some(parse_query(p.skip(q + 1))),
        forall|i: int|
            0 <= i < split_on(p.skip(q + 1), '&').len() ==> #[trigger] parse_query(
                p.skip(q + 1),
            ).contains_key(key_of(split_on(p.skip(q + 1), '&')[i])) && parse_query(
                p.skip(q + 1),
            )[key_of(split_on(p.skip(q + 1), '&')[i])].contains(
                value_of(split_on(p.skip(q + 1), '&')[i]),
            ),
        forall|k: Seq<char>|
            #[trigger] parse_query(p.skip(q + 1)).contains_key(k) ==> exists|i: int|
                0 <= i < split_on(p.skip(q + 1), '&').len() && #[trigger] key_of(
                    split_on(p.skip(q + 1), '&')[i],
                ) == k,
{
    crate::text::lemma_first_of(p, '?', '?', q);
    lemma_gather_members(split_on(p.skip(q + 1), '&'));
    assert(p.take(q) + seq!['?'] + p.skip(q + 1) =~= p);
    assert(!p.take(q).contains('?')) by {
        if p.take(q).contains('?') {
            let j = choose|j: int| 0 <= j < p.take(q).len() && p.take(q)[j] == '?';
            assert(p[j] == '?');
        }
    }
}

/// Parsing depends on the buffer alone: two parses of the same bytes agree.
pub proof fn lemma_parse_deterministic(
    b: Seq<u8>,
    first: Result<RequestView, ParseError>,
    second: Result<RequestView, ParseError>,
)
    requires
        first == parse_bytes(b),
        second == parse_bytes(b),
    ensures
        first == second,
{
}

} // verus!
