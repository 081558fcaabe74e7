use vstd::prelude::*;
use vstd::string::StringExecFns;
use vstd::string::StringSliceAdditionalSpecFns;
use vstd::utf8::encode_utf8;
use crate::config::Config;
use crate::http::Body;
use crate::http::headers::HTTPHeader;
use crate::http::headers::HeaderEntries;
use crate::http::headers::get_spec;
use crate::http::headers::set_spec;
use crate::http::request::Request;
use crate::http::response::HTTPStatus;
use crate::http::response::Response;
use crate::text::after_first;
use crate::text::decimal_chars;
use crate::text::lemma_first_occurrence_unique;
use crate::text::split_once;

verus! {

pub open spec fn no_headers() -> HeaderEntries {
    Seq::empty()
}

/// `Content-Type: text/plain` alone.
pub open spec fn text_plain(m: HeaderEntries) -> HeaderEntries {
    set_spec(m, "Content-Type"@, seq!["text/plain"@])
}

/// `m` with `Content-Length` set to the decimal length of `b`.
pub open spec fn with_length(m: HeaderEntries, b: Seq<u8>) -> HeaderEntries {
    set_spec(m, "Content-Length"@, seq![decimal_chars(b.len())])
}

/// The text after the first `sep` of `s`.
fn text_after(s: &str, sep: &str) -> (r: Option<String>)
    ensures
        match r {
            Some(d) => after_first(s@, sep@) == Some(d@),
            None => after_first(s@, sep@) is None,
        },
{
    match split_once(s, sep) {
        None => None,
        Some((a, b)) => {
            proof {
                let i = a@.len() as int;
                assert(crate::text::first_occurrence(s@, sep@, i));
                let c = choose|c: int| crate::text::first_occurrence(s@, sep@, c);
                lemma_first_occurrence_unique(s@, sep@, i, c);
            }
            Some(b)
        },
    }
}

/// What an echo request asks to have echoed: the path after `/echo/`.
pub fn echo_data(request: &Request) -> (r: Option<String>)
    ensures
        match r {
            Some(d) => after_first(request.resource@, "/echo/"@) == Some(d@),
            None => after_first(request.resource@, "/echo/"@) is None,
        },
{
    text_after(request.resource.as_str(), "/echo/")
}

/// The request lists `gzip` among its accepted encodings.
pub open spec fn accepts_gzip_spec(h: HeaderEntries) -> bool {
    match get_spec(h, "Accept-Encoding"@) {
        Some(vs) => vs.contains("gzip"@),
        None => false,
    }
}

/// Whether the request accepts a gzip-compressed answer.
pub fn wants_gzip(request: &Request) -> (r: bool)
    ensures
        r == accepts_gzip_spec(request.headers@),
{
    match request.get_known_header_values(HTTPHeader::AcceptEncoding) {
        None => false,
        Some(values) => {
            let gzip = "gzip".to_owned();
            let mut i: usize = 0;
            while i < values.len()
                invariant
                    i <= values@.len(),
                    gzip@ == "gzip"@,
                    get_spec(request.headers@, "Accept-Encoding"@) == Some(values.deep_view()),
                    forall|j: int| 0 <= j < i ==> values.deep_view()[j] != "gzip"@,
                decreases values@.len() - i,
            {
                if values[i] == gzip {
                    assert(values.deep_view()[i as int] == "gzip"@);
                    return true;
                }
                i = i + 1;
            }
            assert(!values.deep_view().contains("gzip"@));
            false
        },
    }
}

/// The answer to an echo request. `compressed` is the gzip form of the echoed
/// text when it was asked for and compression succeeded. Without an
/// `Accept-Encoding` header the text itself is the body. When the header
/// lists `gzip`, the body is the compressed text with `Content-Encoding:
/// gzip`, or, when compression failed (`compressed` is `None`), the text
/// itself uncompressed. When the header lists other encodings only, there is
/// no body. `None` when the path has no `/echo/`.
pub fn echo_response(request: &Request, compressed: Option<Vec<u8>>) -> (r: Option<Response>)
    ensures
        match after_first(request.resource@, "/echo/"@) {
            None => r is None,
            Some(d) => r matches Some(resp) && resp.status == HTTPStatus::OK && resp.version()
                is None && match get_spec(request.headers@, "Accept-Encoding"@) {
                None => resp.body_view() == Some(encode_utf8(d)) && resp.headers@ == with_length(
                    text_plain(no_headers()),
                    encode_utf8(d),
                ),
                Some(vs) => if !vs.contains("gzip"@) {
                    resp.body is None && resp.headers@ == text_plain(no_headers())
                } else {
                    match compressed {
                        Some(c) => resp.body_view() == Some(c@) && resp.headers@ == with_length(
                            set_spec(text_plain(no_headers()), "Content-Encoding"@, seq!["gzip"@]),
                            c@,
                        ),
                        None => resp.body_view() == Some(encode_utf8(d)) && resp.headers@
                            == with_length(text_plain(no_headers()), encode_utf8(d)),
                    }
                },
            },
        },
{
    let data = match echo_data(request) {
        Some(d) => d,
        None => return None,
    };
    let mut response = Response::new(HTTPStatus::OK);
    let content_type = vec!["text/plain"];
    assert(content_type.deep_view() =~= seq!["text/plain"@]);
    response.add_known_header(HTTPHeader::ContentType, content_type);
    match request.get_known_header_values(HTTPHeader::AcceptEncoding) {
        None => {
            match Body::from_str(data.as_str()) {
                Ok(body) => response.set_body(body),
                Err(_) => {},
            }
        },
        Some(_) => {
            if wants_gzip(request) {
                match compressed {
                    None => {
                        match Body::from_str(data.as_str()) {
                            Ok(body) => response.set_body(body),
                            Err(_) => {},
                        }
                    },
                    Some(bytes) => {
                        let encoding = vec!["gzip"];
                        assert(encoding.deep_view() =~= seq!["gzip"@]);
                        response.add_known_header(HTTPHeader::ContentEncoding, encoding);
                        response.set_body(Body::new(bytes));
                    },
                }
            }
        },
    }
    response.set_content_length_header();
    Some(response)
}

/// The body of a user-agent answer: the first `User-Agent` value, empty when
/// the header has none.
pub open spec fn user_agent_body(vs: Seq<Seq<char>>) -> Seq<u8> {
    if vs.len() == 0 {
        Seq::empty()
    } else {
        encode_utf8(vs[0])
    }
}

/// Each user-agent answer carries its own request's value and never
/// another's: the body is the UTF-8 form of the request's first
/// `User-Agent` value, so requests with different first values get
/// different bodies.
pub proof fn lemma_user_agent_body_is_own(vs1: Seq<Seq<char>>, vs2: Seq<Seq<char>>)
    requires
        vs1.len() > 0,
        vs2.len() > 0,
    ensures
        user_agent_body(vs1) == encode_utf8(vs1[0]),
        user_agent_body(vs2) == encode_utf8(vs2[0]),
        vs1[0] != vs2[0] ==> user_agent_body(vs1) != user_agent_body(vs2),
{
    vstd::utf8::encode_utf8_decode_utf8(vs1[0]);
    vstd::utf8::encode_utf8_decode_utf8(vs2[0]);
}

/// Echoes the request's own `User-Agent` header, and nothing else of it.
pub fn user_agent_handler(request: &Request, _config: &Config) -> (r: Response)
    ensures
        r.status == HTTPStatus::OK,
        r.version() is None,
        match get_spec(request.headers@, "User-Agent"@) {
            None => r.body is None && r.headers@ == text_plain(no_headers()),
            Some(vs) => r.body_view() == Some(user_agent_body(vs)) && r.headers@ == text_plain(
                with_length(no_headers(), user_agent_body(vs)),
            ),
        },
{
    let mut response = Response::new(HTTPStatus::OK);
    match request.get_known_header_values(HTTPHeader::UserAgent) {
        None => {},
        Some(values) => {
            if values.len() == 0 {
                response.set_body(Body::default());
            } else {
                match Body::from_str(values[0].as_str()) {
                    Ok(body) => response.set_body(body),
                    Err(_) => {},
                }
            }
        },
    }
    response.set_content_length_header();
    let content_type = vec!["text/plain"];
    assert(content_type.deep_view() =~= seq!["text/plain"@]);
    response.add_known_header(HTTPHeader::ContentType, content_type);
    response
}

/// `GET /`: an empty `200 OK`.
pub fn root_handler(_request: &Request, _config: &Config) -> (r: Response)
    ensures
        r.status == HTTPStatus::OK,
        r.headers@ == no_headers(),
        r.body is None,
        r.version() is None,
{
    Response::new(HTTPStatus::OK)
}

/// `GET /index.html`: an empty `404 Not Found`.
pub fn index_handler(_request: &Request, _config: &Config) -> (r: Response)
    ensures
        r.status == HTTPStatus::NotFound,
        r.headers@ == no_headers(),
        r.body is None,
        r.version() is None,
{
    Response::new(HTTPStatus::NotFound)
}

/// Where a file route reads or writes: the files directory, a `/`, and the
/// path after `/files/`. `None` without a files directory or without
/// `/files/` in the path.
pub fn file_path(request: &Request, config: &Config) -> (r: Option<String>)
    ensures
        match (config.files_path, after_first(request.resource@, "/files/"@)) {
            (Some(dir), Some(name)) => r matches Some(p) && p@ == dir@ + "/"@ + name,
            _ => r is None,
        },
{
    match &config.files_path {
        None => None,
        Some(dir) => match text_after(request.resource.as_str(), "/files/") {
            None => None,
            Some(name) => {
                let path = dir.clone().concat("/").concat(name.as_str());
                Some(path)
            },
        },
    }
}

/// The answer to a file read: the content as `application/octet-stream`, or
/// `404 Not Found` when it could not be read.
pub fn file_response(content: Option<String>) -> (r: Response)
    ensures
        r.version() is None,
        match content {
            Some(c) => r.status == HTTPStatus::OK && r.body_view() == Some(encode_utf8(c@))
                && r.headers@ == with_length(
                set_spec(no_headers(), "Content-Type"@, seq!["application/octet-stream"@]),
                encode_utf8(c@),
            ),
            None => r.status == HTTPStatus::NotFound && r.body is None && r.headers@ == no_headers(),
        },
{
    match content {
        None => Response::new(HTTPStatus::NotFound),
        Some(c) => {
            let mut response = Response::new(HTTPStatus::OK);
            let content_type = vec!["application/octet-stream"];
            assert(content_type.deep_view() =~= seq!["application/octet-stream"@]);
            response.add_known_header(HTTPHeader::ContentType, content_type);
            match Body::from_str(c.as_str()) {
                Ok(body) => response.set_body(body),
                Err(_) => {},
            }
            response.set_content_length_header();
            response
        },
    }
}

} // verus!
