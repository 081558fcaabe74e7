use vstd::prelude::*;
use vstd::utf8::decode_utf8;
use vstd::utf8::valid_utf8;
use vstd::slice::slice_to_vec;
use vstd::string::StringExecFns;
use vstd::string::StringSliceAdditionalSpecFns;
use crate::http::Body;
use crate::http::ByteReader;
use crate::http::line_spec;
use crate::http::lemma_next_newline_bounds;
use crate::http::headers::HTTPHeader;
use crate::http::headers::HeaderMap;
use crate::http::headers::HeaderEntries;
use crate::http::headers::append_spec;
use crate::http::headers::get_spec;
use crate::http::headers::header_name_spec;
use crate::text::parse_usize;
use crate::text::parse_usize_spec;
use crate::text::split_ascii_whitespace;
use crate::text::split_on_pair;
use crate::text::split_pair;
use crate::text::utf8_string;
use crate::text::ws_tokens;

verus! {

#[derive(Debug, Clone, Copy, PartialEq, Eq, Structural, Hash)]
pub enum HTTPMethod {
    GET,
    POST,
}

/// Why a request could not be read; each ends the connection.
#[derive(Debug, Clone, Copy, PartialEq, Eq, Structural)]
pub enum HTTPRequestParseError {
    /// The method token is neither `GET` nor `POST`.
    InvalidMethodError,
    /// The request line is not three tokens of UTF-8 text.
    InvalidStatusLineError,
    /// The target does not start with `/`.
    InvalidPathError,
    /// A header line lacks exactly one `": "` or is not UTF-8 text.
    InvalidHeaderLineError,
    /// `Content-Length` is not a decimal number.
    InvalidContentLengthError,
    /// The stream ended before a line or the body was complete.
    ConnectionAbortedError,
}

/// The method a token names.
pub open spec fn method_spec(t: Seq<u8>) -> Option<HTTPMethod> {
    if t == seq![0x47u8, 0x45u8, 0x54u8] {
        Some(HTTPMethod::GET)
    } else if t == seq![0x50u8, 0x4fu8, 0x53u8, 0x54u8] {
        Some(HTTPMethod::POST)
    } else {
        None
    }
}

pub open spec fn method_name_spec(m: HTTPMethod) -> Seq<char> {
    match m {
        HTTPMethod::GET => "GET"@,
        HTTPMethod::POST => "POST"@,
    }
}

impl HTTPMethod {
    /// The method named by the bytes of a token.
    pub fn from_bytes(t: &[u8]) -> (r: Result<HTTPMethod, HTTPRequestParseError>)
        ensures
            match method_spec(t@) {
                Some(m) => r == Ok::<HTTPMethod, HTTPRequestParseError>(m),
                None => r == Err::<HTTPMethod, HTTPRequestParseError>(
                    HTTPRequestParseError::InvalidMethodError,
                ),
            },
    {
        if t.len() == 3 && t[0] == 0x47u8 && t[1] == 0x45u8 && t[2] == 0x54u8 {
            assert(t@ =~= seq![0x47u8, 0x45u8, 0x54u8]);
            Ok(HTTPMethod::GET)
        } else if t.len() == 4 && t[0] == 0x50u8 && t[1] == 0x4fu8 && t[2] == 0x53u8 && t[3]
            == 0x54u8 {
            assert(t@ =~= seq![0x50u8, 0x4fu8, 0x53u8, 0x54u8]);
            Ok(HTTPMethod::POST)
        } else {
            Err(HTTPRequestParseError::InvalidMethodError)
        }
    }

    /// The method named by `s`: exactly `GET` or `POST`.
    pub fn from_str(s: &str) -> (r: Result<HTTPMethod, HTTPRequestParseError>)
        ensures
            match method_spec(s.spec_bytes()) {
                Some(m) => r == Ok::<HTTPMethod, HTTPRequestParseError>(m),
                None => r == Err::<HTTPMethod, HTTPRequestParseError>(
                    HTTPRequestParseError::InvalidMethodError,
                ),
            },
    {
        HTTPMethod::from_bytes(s.as_bytes())
    }

    /// The method's name as written on the wire.
    pub fn to_string(&self) -> (r: String)
        ensures
            r@ == method_name_spec(*self),
    {
        match self {
            HTTPMethod::GET => "GET".to_owned(),
            HTTPMethod::POST => "POST".to_owned(),
        }
    }
}

/// The method, target and version of a request line, or why it is refused.
pub open spec fn request_line_spec(line: Seq<u8>) -> Result<
    (HTTPMethod, Seq<char>, Seq<char>),
    HTTPRequestParseError,
> {
    let toks = ws_tokens(line);
    if toks.len() == 0 {
        Err(HTTPRequestParseError::InvalidStatusLineError)
    } else if method_spec(toks[0]) is None {
        Err(HTTPRequestParseError::InvalidMethodError)
    } else if toks.len() != 3 || !valid_utf8(toks[1]) || !valid_utf8(toks[2]) {
        Err(HTTPRequestParseError::InvalidStatusLineError)
    } else {
        Ok((method_spec(toks[0]).unwrap(), decode_utf8(toks[1]), decode_utf8(toks[2])))
    }
}

pub open spec fn all_valid_utf8(vs: Seq<Seq<u8>>) -> bool {
    forall|i: int| 0 <= i < vs.len() ==> valid_utf8(#[trigger] vs[i])
}

pub open spec fn decode_all(vs: Seq<Seq<u8>>) -> Seq<Seq<char>> {
    vs.map_values(|v: Seq<u8>| decode_utf8(v))
}

/// The name and values of a header line `Name: v1, v2`, or why it is refused.
pub open spec fn header_line_spec(line: Seq<u8>) -> Result<
    (Seq<char>, Seq<Seq<char>>),
    HTTPRequestParseError,
> {
    let parts = split_pair(line, 0x3au8, 0x20u8);
    if parts.len() != 2 {
        Err(HTTPRequestParseError::InvalidHeaderLineError)
    } else {
        let vals = split_pair(parts[1], 0x2cu8, 0x20u8);
        if !valid_utf8(parts[0]) || !all_valid_utf8(vals) {
            Err(HTTPRequestParseError::InvalidHeaderLineError)
        } else {
            Ok((decode_utf8(parts[0]), decode_all(vals)))
        }
    }
}

/// The header lines from `pos` up to the blank line, added to `acc`, and the
/// position after the blank line.
pub open spec fn headers_spec(s: Seq<u8>, pos: int, acc: HeaderEntries) -> Result<
    (HeaderEntries, int),
    HTTPRequestParseError,
>
    decreases s.len() - pos,
{
    match line_spec(s, pos) {
        None => Err(HTTPRequestParseError::ConnectionAbortedError),
        Some((l, next)) => {
            if l.len() == 0 {
                Ok((acc, next))
            } else {
                match header_line_spec(l) {
                    Err(e) => Err(e),
                    Ok((n, v)) => {
                        if pos < next <= s.len() {
                            headers_spec(s, next, append_spec(acc, n, v))
                        } else {
                            Err(HTTPRequestParseError::ConnectionAbortedError)
                        }
                    },
                }
            }
        },
    }
}

/// The body length that the headers announce: the first `Content-Length`
/// value, or 0 without that header.
pub open spec fn content_length_spec(h: HeaderEntries) -> Result<nat, HTTPRequestParseError> {
    match get_spec(h, "Content-Length"@) {
        None => Ok(0),
        Some(vs) => {
            if vs.len() > 0 && parse_usize_spec(vs[0]) is Some {
                Ok(parse_usize_spec(vs[0]).unwrap() as nat)
            } else {
                Err(HTTPRequestParseError::InvalidContentLengthError)
            }
        },
    }
}

/// A request as read from a byte stream, and where its last byte ends.
pub struct RequestModel {
    pub method: HTTPMethod,
    pub resource: Seq<char>,
    pub version: Seq<char>,
    pub headers: HeaderEntries,
    pub body: Seq<u8>,
    pub head_end: int,
    pub end: int,
}

/// The request that starts at `pos` in `s`: request line, header lines, a
/// blank line, then exactly as many body bytes as `Content-Length` gives.
pub open spec fn parse_request_spec(s: Seq<u8>, pos: int) -> Result<
    RequestModel,
    HTTPRequestParseError,
> {
    match line_spec(s, pos) {
        None => Err(HTTPRequestParseError::ConnectionAbortedError),
        Some((l, p1)) => match request_line_spec(l) {
            Err(e) => Err(e),
            Ok((m, res, ver)) => match headers_spec(s, p1, Seq::empty()) {
                Err(e) => Err(e),
                Ok((h, p2)) => match content_length_spec(h) {
                    Err(e) => Err(e),
                    Ok(n) => {
                        if p2 + n > s.len() {
                            Err(HTTPRequestParseError::ConnectionAbortedError)
                        } else {
                            Ok(
                                RequestModel {
                                    method: m,
                                    resource: res,
                                    version: ver,
                                    headers: h,
                                    body: s.subrange(p2, p2 + n),
                                    head_end: p2,
                                    end: p2 + n,
                                },
                            )
                        }
                    },
                },
            },
        },
    }
}

struct RequestLine {
    http_method: HTTPMethod,
    resource: String,
    http_version: String,
}

#[derive(Debug)]
pub struct Request {
    pub http_version: String,
    pub resource: String,
    pub method: HTTPMethod,
    pub headers: HeaderMap,
    pub body: Body,
}

impl Request {
    /// This request is the one that `m` describes.
    pub open spec fn models(&self, m: RequestModel) -> bool {
        &&& self.method == m.method
        &&& self.resource@ == m.resource
        &&& self.http_version@ == m.version
        &&& self.headers@ == m.headers
        &&& self.body@ == m.body
    }

    /// Reads one request from the front of `stream`, consuming exactly its
    /// bytes on success.
    pub fn new(stream: &mut ByteReader) -> (r: Result<Request, HTTPRequestParseError>)
        requires
            old(stream).wf(),
        ensures
            final(stream).wf(),
            final(stream).data() == old(stream).data(),
            match parse_request_spec(old(stream).data(), old(stream).pos()) {
                Ok(m) => r matches Ok(req) && req.models(m) && req.headers.wf() && final(stream).pos()
                    == m.end,
                Err(e) => r matches Err(e2) && e2 == e,
            },
    {
        let request_line = match Request::read_request_line(stream) {
            Ok(l) => l,
            Err(e) => return Err(e),
        };
        let headers = match Request::read_headers(stream) {
            Ok(h) => h,
            Err(e) => return Err(e),
        };
        let content_length = match Request::content_length(&headers) {
            Ok(n) => n,
            Err(e) => return Err(e),
        };
        let body = match Request::read_body(stream, content_length) {
            Ok(b) => b,
            Err(e) => return Err(e),
        };
        Ok(
            Request {
                http_version: request_line.http_version,
                resource: request_line.resource,
                method: request_line.http_method,
                headers,
                body,
            },
        )
    }

    fn read_request_line(stream: &mut ByteReader) -> (r: Result<RequestLine, HTTPRequestParseError>)
        requires
            old(stream).wf(),
        ensures
            final(stream).wf(),
            final(stream).data() == old(stream).data(),
            match line_spec(old(stream).data(), old(stream).pos()) {
                None => r == Err::<RequestLine, HTTPRequestParseError>(
                    HTTPRequestParseError::ConnectionAbortedError,
                ),
                Some((l, next)) => final(stream).pos() == next && match request_line_spec(l) {
                    Ok((m, res, ver)) => r matches Ok(rl) && rl.http_method == m
                        && rl.resource@ == res && rl.http_version@ == ver,
                    Err(e) => r == Err::<RequestLine, HTTPRequestParseError>(e),
                },
            },
    {
        let line = match stream.read_line() {
            Some(l) => l,
            None => return Err(HTTPRequestParseError::ConnectionAbortedError),
        };
        Request::parse_request_line(line.as_slice())
    }

    fn parse_request_line(line: &[u8]) -> (r: Result<RequestLine, HTTPRequestParseError>)
        ensures
            match request_line_spec(line@) {
                Ok((m, res, ver)) => r matches Ok(rl) && rl.http_method == m && rl.resource@
                    == res && rl.http_version@ == ver,
                Err(e) => r == Err::<RequestLine, HTTPRequestParseError>(e),
            },
    {
        let mut toks = split_ascii_whitespace(line);
        let ghost t = toks.deep_view();
        if toks.len() == 0 {
            return Err(HTTPRequestParseError::InvalidStatusLineError);
        }
        assert(toks[0]@ == t[0]);
        let http_method = match HTTPMethod::from_bytes(toks[0].as_slice()) {
            Ok(m) => m,
            Err(e) => return Err(e),
        };
        if toks.len() != 3 {
            return Err(HTTPRequestParseError::InvalidStatusLineError);
        }
        let version_bytes = toks.pop().unwrap();
        let resource_bytes = toks.pop().unwrap();
        assert(version_bytes@ == t[2]);
        assert(resource_bytes@ == t[1]);
        let resource = match utf8_string(resource_bytes) {
            Some(s) => s,
            None => return Err(HTTPRequestParseError::InvalidStatusLineError),
        };
        let http_version = match utf8_string(version_bytes) {
            Some(s) => s,
            None => return Err(HTTPRequestParseError::InvalidStatusLineError),
        };
        Ok(RequestLine { http_method, resource, http_version })
    }

    fn parse_header_line(line: &[u8]) -> (r: Result<(String, Vec<String>), HTTPRequestParseError>)
        ensures
            match header_line_spec(line@) {
                Ok((n, v)) => r matches Ok(p) && p.0@ == n && p.1.deep_view() == v,
                Err(e) => r == Err::<(String, Vec<String>), HTTPRequestParseError>(e),
            },
    {
        let mut parts = split_on_pair(line, 0x3au8, 0x20u8);
        let ghost p = parts.deep_view();
        if parts.len() != 2 {
            return Err(HTTPRequestParseError::InvalidHeaderLineError);
        }
        let value_bytes = parts.pop().unwrap();
        let name_bytes = parts.pop().unwrap();
        assert(value_bytes@ == p[1]);
        assert(name_bytes@ == p[0]);
        let vals = split_on_pair(value_bytes.as_slice(), 0x2cu8, 0x20u8);
        let ghost vs = vals.deep_view();
        let name = match utf8_string(name_bytes) {
            Some(s) => s,
            None => return Err(HTTPRequestParseError::InvalidHeaderLineError),
        };
        let mut values: Vec<String> = Vec::new();
        let mut j: usize = 0;
        while j < vals.len()
            invariant
                j <= vals@.len(),
                vs == vals.deep_view(),
                p == split_pair(line@, 0x3au8, 0x20u8),
                p.len() == 2,
                vs == split_pair(p[1], 0x2cu8, 0x20u8),
                valid_utf8(p[0]),
                name@ == decode_utf8(p[0]),
                all_valid_utf8(vs.subrange(0, j as int)),
                values.deep_view() == decode_all(vs.subrange(0, j as int)),
            decreases vals@.len() - j,
        {
            let bytes = slice_to_vec(vals[j].as_slice());
            assert(bytes@ == vs[j as int]);
            let v = match utf8_string(bytes) {
                Some(s) => s,
                None => {
                    assert(!all_valid_utf8(vs));
                    assert(header_line_spec(line@) is Err);
                    return Err(HTTPRequestParseError::InvalidHeaderLineError);
                },
            };
            let ghost prev = values.deep_view();
            values.push(v);
            assert(values.deep_view() =~= prev.push(v@));
            assert(vs.subrange(0, j + 1) =~= vs.subrange(0, j as int).push(vs[j as int]));
            assert(decode_all(vs.subrange(0, j + 1)) =~= decode_all(vs.subrange(0, j as int)).push(
                decode_utf8(vs[j as int]),
            ));
            j = j + 1;
        }
        assert(vs.subrange(0, vs.len() as int) =~= vs);
        Ok((name, values))
    }

    fn read_headers(stream: &mut ByteReader) -> (r: Result<HeaderMap, HTTPRequestParseError>)
        requires
            old(stream).wf(),
        ensures
            final(stream).wf(),
            final(stream).data() == old(stream).data(),
            match headers_spec(old(stream).data(), old(stream).pos(), Seq::empty()) {
                Ok((h, next)) => r matches Ok(m) && m@ == h && m.wf() && final(stream).pos() == next,
                Err(e) => r == Err::<HeaderMap, HTTPRequestParseError>(e),
            },
    {
        let ghost s = stream.data();
        let ghost start = stream.pos();
        let mut headers = HeaderMap::new();
        loop
            invariant
                stream.wf(),
                stream.data() == s,
                s == old(stream).data(),
                start == old(stream).pos(),
                headers.wf(),
                headers_spec(s, start, Seq::empty()) == headers_spec(
                    s,
                    stream.pos(),
                    headers@,
                ),
            decreases s.len() - stream.pos(),
        {
            let ghost pos = stream.pos();
            proof {
                lemma_next_newline_bounds(s, pos);
            }
            let header_line = match stream.read_line() {
                Some(l) => l,
                None => return Err(HTTPRequestParseError::ConnectionAbortedError),
            };
            if header_line.len() == 0 {
                return Ok(headers);
            }
            let (name, values) = match Request::parse_header_line(header_line.as_slice()) {
                Ok(p) => p,
                Err(e) => return Err(e),
            };
            headers.append(name, values);
        }
    }

    fn content_length(headers: &HeaderMap) -> (r: Result<usize, HTTPRequestParseError>)
        ensures
            match content_length_spec(headers@) {
                Ok(n) => r == Ok::<usize, HTTPRequestParseError>(n as usize),
                Err(e) => r == Err::<usize, HTTPRequestParseError>(e),
            },
    {
        let name = HTTPHeader::ContentLength.to_string();
        match headers.get(&name) {
            None => Ok(0),
            Some(values) => {
                if values.len() == 0 {
                    return Err(HTTPRequestParseError::InvalidContentLengthError);
                }
                match parse_usize(values[0].as_str()) {
                    Some(n) => Ok(n),
                    None => Err(HTTPRequestParseError::InvalidContentLengthError),
                }
            },
        }
    }

    fn read_body(stream: &mut ByteReader, content_length: usize) -> (r: Result<Body, HTTPRequestParseError>)
        requires
            old(stream).wf(),
        ensures
            final(stream).wf(),
            final(stream).data() == old(stream).data(),
            old(stream).pos() + content_length <= old(stream).data().len() ==> (r matches Ok(b)
                && b@ == old(stream).data().subrange(old(stream).pos(), old(stream).pos() + content_length)
                && final(stream).pos() == old(stream).pos() + content_length),
            old(stream).pos() + content_length > old(stream).data().len() ==> r == Err::<Body, HTTPRequestParseError>(
                HTTPRequestParseError::ConnectionAbortedError,
            ),
    {
        if content_length == 0 {
            let b = Body::default();
            assert(b@ =~= old(stream).data().subrange(old(stream).pos(), old(stream).pos()));
            return Ok(b);
        }
        match stream.read_exact(content_length) {
            Some(content) => Ok(Body::new(content)),
            None => Err(HTTPRequestParseError::ConnectionAbortedError),
        }
    }

    /// A short description: `Path: {resource}, Method: {method}`.
    pub fn to_string(&self) -> (r: String)
        ensures
            r@ == "Path: "@ + self.resource@ + ", Method: "@ + method_name_spec(self.method),
    {
        let method = self.method.to_string();
        "Path: ".to_owned().concat(self.resource.as_str()).concat(", Method: ").concat(
            method.as_str(),
        )
    }

    /// The values of a well-known header, if the request has it.
    pub fn get_known_header_values(&self, header_name: HTTPHeader) -> (r: Option<&Vec<String>>)
        ensures
            match r {
                Some(v) => get_spec(self.headers@, header_name_spec(header_name)) == Some(
                    v.deep_view(),
                ),
                None => get_spec(self.headers@, header_name_spec(header_name)) is None,
            },
    {
        let name = header_name.to_string();
        self.headers.get(&name)
    }
}

} // verus!

verus! {

/// `s1` and `s2` hold the same first `n` bytes.
spec fn agree(s1: Seq<u8>, s2: Seq<u8>, n: int) -> bool {
    &&& 0 <= n <= s1.len()
    &&& n <= s2.len()
    &&& forall|j: int| 0 <= j < n ==> s1[j] == s2[j]
}

proof fn lemma_next_newline_agree(s1: Seq<u8>, s2: Seq<u8>, n: int, i: int)
    requires
        0 <= i,
        agree(s1, s2, n),
        crate::http::next_newline(s1, i) < n,
    ensures
        crate::http::next_newline(s2, i) == crate::http::next_newline(s1, i),
    decreases s1.len() - i,
{
    if i <= s1.len() {
        lemma_next_newline_bounds(s1, i);
    }
    if i < s1.len() {
        assert(s2[i] == s1[i]);
        if s1[i] != 10u8 {
            lemma_next_newline_agree(s1, s2, n, i + 1);
        }
    }
}

proof fn lemma_line_agree(s1: Seq<u8>, s2: Seq<u8>, n: int, pos: int)
    requires
        0 <= pos <= s1.len(),
        agree(s1, s2, n),
        line_spec(s1, pos) matches Some((l, next)) && next <= n,
    ensures
        line_spec(s2, pos) == line_spec(s1, pos),
{
    lemma_next_newline_bounds(s1, pos);
    lemma_next_newline_agree(s1, s2, n, pos);
    let nl = crate::http::next_newline(s1, pos);
    assert(s2.subrange(pos, nl) =~= s1.subrange(pos, nl));
}

proof fn lemma_headers_bounds(s: Seq<u8>, pos: int, acc: HeaderEntries)
    requires
        0 <= pos <= s.len(),
        headers_spec(s, pos, acc) is Ok,
    ensures
        pos < headers_spec(s, pos, acc).unwrap().1 <= s.len(),
        line_spec(s, pos) matches Some((l, next)) && next <= headers_spec(s, pos, acc).unwrap().1,
    decreases s.len() - pos,
{
    lemma_next_newline_bounds(s, pos);
    let (l, next) = line_spec(s, pos).unwrap();
    if l.len() != 0 {
        let (n, v) = header_line_spec(l).unwrap();
        lemma_headers_bounds(s, next, append_spec(acc, n, v));
    }
}

proof fn lemma_headers_agree(s1: Seq<u8>, s2: Seq<u8>, n: int, pos: int, acc: HeaderEntries)
    requires
        0 <= pos <= s1.len(),
        agree(s1, s2, n),
        headers_spec(s1, pos, acc) is Ok,
        headers_spec(s1, pos, acc).unwrap().1 <= n,
    ensures
        headers_spec(s2, pos, acc) == headers_spec(s1, pos, acc),
    decreases s1.len() - pos,
{
    lemma_headers_bounds(s1, pos, acc);
    lemma_line_agree(s1, s2, n, pos);
    let (l, next) = line_spec(s1, pos).unwrap();
    if l.len() != 0 {
        let (nm, v) = header_line_spec(l).unwrap();
        lemma_headers_agree(s1, s2, n, next, append_spec(acc, nm, v));
    }
}

/// Reading a request depends only on its own bytes: any stream that holds
/// the same bytes up to the request's end yields the same request.
proof fn lemma_parse_agree(s1: Seq<u8>, s2: Seq<u8>, pos: int)
    requires
        0 <= pos <= s1.len(),
        parse_request_spec(s1, pos) is Ok,
        agree(s1, s2, parse_request_spec(s1, pos).unwrap().end),
    ensures
        parse_request_spec(s2, pos) == parse_request_spec(s1, pos),
{
    let m = parse_request_spec(s1, pos).unwrap();
    lemma_next_newline_bounds(s1, pos);
    let (l, p1) = line_spec(s1, pos).unwrap();
    lemma_headers_bounds(s1, p1, Seq::empty());
    lemma_line_agree(s1, s2, m.end, pos);
    lemma_headers_agree(s1, s2, m.end, p1, Seq::empty());
    assert(s2.subrange(m.head_end, m.end) =~= s1.subrange(m.head_end, m.end));
}

/// Reading a request never looks past its last body byte: whatever follows
/// it in the stream, the same request is read and the same bytes are
/// consumed, exactly as many body bytes as `Content-Length` announces.
pub proof fn lemma_body_framing(s: Seq<u8>, pos: int, extra: Seq<u8>)
    requires
        0 <= pos <= s.len(),
        parse_request_spec(s, pos) is Ok,
    ensures
        parse_request_spec(s + extra, pos) == parse_request_spec(s, pos),
        ({
            let m = parse_request_spec(s, pos).unwrap();
            &&& content_length_spec(m.headers) == Ok::<nat, HTTPRequestParseError>(m.body.len())
            &&& m.end == m.head_end + m.body.len()
            &&& m.end <= s.len()
            &&& m.body == (s + extra).subrange(m.head_end, m.end)
        }),
{
    let m = parse_request_spec(s, pos).unwrap();
    lemma_next_newline_bounds(s, pos);
    let (l, p1) = line_spec(s, pos).unwrap();
    lemma_headers_bounds(s, p1, Seq::empty());
    lemma_parse_agree(s, s + extra, pos);
    assert(m.body =~= (s + extra).subrange(m.head_end, m.end));
}

/// Without a `Content-Length` header the body is empty, nothing after the
/// blank line is consumed, and the request is complete as soon as the blank
/// line has arrived: the bytes up to it alone yield the same request, so no
/// further byte is waited for.
pub proof fn lemma_no_length_empty_body(s: Seq<u8>, pos: int)
    requires
        0 <= pos <= s.len(),
        parse_request_spec(s, pos) is Ok,
        get_spec(parse_request_spec(s, pos).unwrap().headers, "Content-Length"@) is None,
    ensures
        ({
            let m = parse_request_spec(s, pos).unwrap();
            &&& m.body.len() == 0
            &&& m.end == m.head_end
            &&& parse_request_spec(s.subrange(0, m.head_end), pos) == parse_request_spec(s, pos)
        }),
{
    let m = parse_request_spec(s, pos).unwrap();
    lemma_next_newline_bounds(s, pos);
    let (l, p1) = line_spec(s, pos).unwrap();
    lemma_headers_bounds(s, p1, Seq::empty());
    lemma_body_framing(s, pos, Seq::empty());
    assert(agree(s, s.subrange(0, m.head_end), m.end));
    lemma_parse_agree(s, s.subrange(0, m.head_end), pos);
}

} // verus!
