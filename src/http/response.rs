use vstd::prelude::*;
use vstd::slice::slice_to_vec;
use vstd::string::StringSliceAdditionalSpecFns;
use vstd::utf8::encode_utf8;
use crate::http::Body;
use crate::http::headers::HTTPHeader;
use crate::http::headers::HeaderEntries;
use crate::http::headers::HeaderMap;
use crate::http::headers::header_name_spec;
use crate::http::headers::set_spec;
use crate::text::decimal_chars;
use crate::text::decimal_string;

verus! {

#[derive(Debug, Clone, Copy, PartialEq, Eq, Structural)]
pub enum HTTPStatus {
    OK,
    Created,
    NotFound,
}

pub open spec fn status_text_spec(s: HTTPStatus) -> Seq<char> {
    match s {
        HTTPStatus::OK => "200 OK"@,
        HTTPStatus::Created => "201 Created"@,
        HTTPStatus::NotFound => "404 Not Found"@,
    }
}

impl HTTPStatus {
    /// The code and reason phrase of the status line.
    pub fn to_string(&self) -> (r: &'static str)
        ensures
            r@ == status_text_spec(*self),
    {
        match self {
            HTTPStatus::OK => "200 OK",
            HTTPStatus::Created => "201 Created",
            HTTPStatus::NotFound => "404 Not Found",
        }
    }
}

pub open spec fn crlf() -> Seq<u8> {
    seq![0x0du8, 0x0au8]
}

/// `vs` with `sep` between each two neighbours.
pub open spec fn join_spec(vs: Seq<Seq<u8>>, sep: Seq<u8>) -> Seq<u8>
    decreases vs.len(),
{
    if vs.len() == 0 {
        Seq::empty()
    } else if vs.len() == 1 {
        vs[0]
    } else {
        join_spec(vs.drop_last(), sep) + sep + vs.last()
    }
}

pub open spec fn encode_all(vs: Seq<Seq<char>>) -> Seq<Seq<u8>> {
    vs.map_values(|v: Seq<char>| encode_utf8(v))
}

/// One header line on the wire: `Name: v1, v2` and a line break.
pub open spec fn header_line_bytes(e: (Seq<char>, Seq<Seq<char>>)) -> Seq<u8> {
    encode_utf8(e.0) + seq![0x3au8, 0x20u8] + join_spec(encode_all(e.1), seq![0x2cu8, 0x20u8])
        + crlf()
}

/// All header lines, in the container's order.
pub open spec fn header_lines_spec(m: HeaderEntries) -> Seq<u8>
    decreases m.len(),
{
    if m.len() == 0 {
        Seq::empty()
    } else {
        header_lines_spec(m.drop_last()) + header_line_bytes(m.last())
    }
}

pub open spec fn version_spec(v: Option<Seq<char>>) -> Seq<char> {
    match v {
        Some(x) => x,
        None => "HTTP/1.1"@,
    }
}

/// `{version} {status}` and a line break.
pub open spec fn status_line_bytes(v: Option<Seq<char>>, s: HTTPStatus) -> Seq<u8> {
    encode_utf8(version_spec(v)) + seq![0x20u8] + encode_utf8(status_text_spec(s)) + crlf()
}

/// The wire form of a response: status line, header lines, a blank line,
/// then, only with a body, one more line break and the body's bytes.
pub open spec fn serialize_spec(
    v: Option<Seq<char>>,
    s: HTTPStatus,
    m: HeaderEntries,
    body: Option<Seq<u8>>,
) -> Seq<u8> {
    status_line_bytes(v, s) + header_lines_spec(m) + crlf() + match body {
        Some(b) => crlf() + b,
        None => Seq::empty(),
    }
}

enum HeaderName {
    Known(HTTPHeader),
    Custom(String),
}

#[derive(Debug)]
pub struct Response {
    pub status: HTTPStatus,
    pub headers: HeaderMap,
    pub body: Option<Body>,
    pub http_version: Option<String>,
}

/// What the strings of `v` hold.
pub open spec fn strs_view(v: Vec<&str>) -> Seq<Seq<char>> {
    v.deep_view()
}

impl Response {
    /// The version set on the response, if any.
    pub open spec fn version(&self) -> Option<Seq<char>> {
        match self.http_version {
            Some(v) => Some(v@),
            None => None,
        }
    }

    pub open spec fn body_view(&self) -> Option<Seq<u8>> {
        match self.body {
            Some(b) => Some(b@),
            None => None,
        }
    }

    /// The bytes that `try_into_bytes` produces.
    pub open spec fn wire(&self) -> Seq<u8> {
        serialize_spec(self.version(), self.status, self.headers@, self.body_view())
    }

    /// A response with no headers, no body and no version of its own.
    pub fn new(status: HTTPStatus) -> (r: Self)
        ensures
            r.status == status,
            r.headers@ == Seq::<(Seq<char>, Seq<Seq<char>>)>::empty(),
            r.headers.wf(),
            r.body is None,
            r.version() is None,
    {
        Response { status, headers: HeaderMap::new(), body: None, http_version: None }
    }

    pub fn set_http_version(&mut self, http_version: &str)
        ensures
            final(self).version() == Some(http_version@),
            final(self).status == old(self).status,
            final(self).headers == old(self).headers,
            final(self).body == old(self).body,
    {
        self.http_version = Some(http_version.to_owned())
    }

    /// Stores or replaces the body; the headers are left as they are.
    pub fn set_body(&mut self, body: Body)
        ensures
            final(self).body == Some(body),
            final(self).status == old(self).status,
            final(self).headers == old(self).headers,
            final(self).version() == old(self).version(),
    {
        self.body = Some(body)
    }

    /// Sets a well-known header to `header_values`, replacing what it held.
    pub fn add_known_header(&mut self, header_name: HTTPHeader, header_values: Vec<&str>)
        ensures
            final(self).headers@ == set_spec(
                old(self).headers@,
                header_name_spec(header_name),
                strs_view(header_values),
            ),
            old(self).headers.wf() ==> final(self).headers.wf(),
            final(self).status == old(self).status,
            final(self).body == old(self).body,
            final(self).version() == old(self).version(),
    {
        self.insert_header_values(HeaderName::Known(header_name), header_values);
    }

    /// Sets the header `header_name` to `header_values`, replacing what it held.
    pub fn add_custom_header(&mut self, header_name: String, header_values: Vec<&str>)
        ensures
            final(self).headers@ == set_spec(
                old(self).headers@,
                header_name@,
                strs_view(header_values),
            ),
            old(self).headers.wf() ==> final(self).headers.wf(),
            final(self).status == old(self).status,
            final(self).body == old(self).body,
            final(self).version() == old(self).version(),
    {
        self.insert_header_values(HeaderName::Custom(header_name), header_values);
    }

    fn insert_header_values(&mut self, header_name: HeaderName, header_values: Vec<&str>)
        ensures
            final(self).headers@ == set_spec(
                old(self).headers@,
                match header_name {
                    HeaderName::Known(h) => header_name_spec(h),
                    HeaderName::Custom(s) => s@,
                },
                strs_view(header_values),
            ),
            old(self).headers.wf() ==> final(self).headers.wf(),
            final(self).status == old(self).status,
            final(self).body == old(self).body,
            final(self).version() == old(self).version(),
    {
        let header_name = match header_name {
            HeaderName::Known(header) => header.to_string(),
            HeaderName::Custom(header) => header,
        };
        let mut values: Vec<String> = Vec::new();
        let mut i: usize = 0;
        while i < header_values.len()
            invariant
                i <= header_values@.len(),
                values.deep_view() =~= header_values.deep_view().subrange(0, i as int),
            decreases header_values@.len() - i,
        {
            let ghost prev = values.deep_view();
            values.push(header_values[i].to_owned());
            assert(values.deep_view() =~= prev.push(header_values@[i as int]@));
            i = i + 1;
        }
        assert(header_values.deep_view().subrange(0, header_values@.len() as int)
            =~= header_values.deep_view());
        self.headers.set(header_name, values);
    }

    fn write_line_feed(buffer: &mut Vec<u8>)
        ensures
            final(buffer)@ == old(buffer)@ + crlf(),
    {
        buffer.push(0x0du8);
        buffer.push(0x0au8);
        assert(buffer@ =~= old(buffer)@ + crlf());
    }

    /// With a body, sets `Content-Length` to its length in decimal; without
    /// one, changes nothing.
    pub fn set_content_length_header(&mut self)
        ensures
            match old(self).body {
                None => final(self).headers@ == old(self).headers@,
                Some(b) => final(self).headers@ == set_spec(
                    old(self).headers@,
                    "Content-Length"@,
                    seq![decimal_chars(b@.len())],
                ),
            },
            old(self).headers.wf() ==> final(self).headers.wf(),
            final(self).status == old(self).status,
            final(self).body == old(self).body,
            final(self).version() == old(self).version(),
    {
        match &self.body {
            None => {},
            Some(body) => {
                let len = decimal_string(body.len());
                let name = HTTPHeader::ContentLength.to_string();
                let mut values: Vec<String> = Vec::new();
                values.push(len);
                assert(values.deep_view() =~= seq![decimal_chars(body@.len())]);
                self.headers.set(name, values);
            },
        }
    }

    /// The response in wire form.
    pub fn try_into_bytes(&self) -> (r: Vec<u8>)
        ensures
            r@ == self.wire(),
    {
        let mut buf: Vec<u8> = Vec::new();
        match &self.http_version {
            Some(v) => append_bytes(&mut buf, v.as_str().as_bytes()),
            None => append_bytes(&mut buf, "HTTP/1.1".as_bytes()),
        }
        buf.push(0x20u8);
        append_bytes(&mut buf, self.status.to_string().as_bytes());
        Response::write_line_feed(&mut buf);
        assert(buf@ =~= status_line_bytes(self.version(), self.status));
        let ghost head = buf@;
        let ghost m = self.headers@;
        let n = self.headers.len();
        let mut i: usize = 0;
        while i < n
            invariant
                n == m.len(),
                m == self.headers@,
                i <= n,
                buf@ == head + header_lines_spec(m.subrange(0, i as int)),
            decreases n - i,
        {
            let ghost before = buf@;
            let (name, values) = self.headers.entry(i);
            append_bytes(&mut buf, name.as_str().as_bytes());
            buf.push(0x3au8);
            buf.push(0x20u8);
            let ghost enc = encode_all(values.deep_view());
            let ghost mid = buf@;
            let mut j: usize = 0;
            while j < values.len()
                invariant
                    j <= values@.len(),
                    enc == encode_all(values.deep_view()),
                    buf@ == mid + join_spec(enc.subrange(0, j as int), seq![0x2cu8, 0x20u8]),
                decreases values@.len() - j,
            {
                let ghost pre = buf@;
                assert(enc.subrange(0, j + 1).drop_last() =~= enc.subrange(0, j as int));
                if j > 0 {
                    buf.push(0x2cu8);
                    buf.push(0x20u8);
                }
                append_bytes(&mut buf, values[j].as_str().as_bytes());
                assert(buf@ =~= mid + join_spec(enc.subrange(0, j + 1), seq![0x2cu8, 0x20u8]));
                j = j + 1;
            }
            assert(enc.subrange(0, values@.len() as int) =~= enc);
            Response::write_line_feed(&mut buf);
            assert(m.subrange(0, i + 1).drop_last() =~= m.subrange(0, i as int));
            assert(buf@ =~= head + header_lines_spec(m.subrange(0, i + 1)));
            i = i + 1;
        }
        assert(m.subrange(0, n as int) =~= m);
        Response::write_line_feed(&mut buf);
        match &self.body {
            None => {},
            Some(body) => {
                Response::write_line_feed(&mut buf);
                append_bytes(&mut buf, body.as_bytes());
            },
        }
        assert(buf@ =~= self.wire());
        buf
    }
}

/// The length header is never added on the builder's own: a response whose
/// headers lack `Content-Length` (as after `new` and `set_body`, which leaves
/// the headers alone) renders no header line named `Content-Length`, with or
/// without a body.
pub proof fn lemma_no_implicit_content_length(m: HeaderEntries)
    requires
        crate::http::headers::get_spec(m, "Content-Length"@) is None,
    ensures
        forall|i: int| 0 <= i < m.len() ==> (#[trigger] m[i]).0 != "Content-Length"@,
{
    crate::http::headers::lemma_index_from_bounds(m, "Content-Length"@, 0);
}

fn append_bytes(buf: &mut Vec<u8>, b: &[u8])
    ensures
        final(buf)@ == old(buf)@ + b@,
{
    let mut more = slice_to_vec(b);
    buf.append(&mut more);
}

} // verus!
