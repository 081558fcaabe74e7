use http_server::http::headers::HTTPHeader;
use http_server::http::request::HTTPMethod;
use http_server::http::request::HTTPRequestParseError;
use http_server::http::request::Request;
use http_server::http::ByteReader;
use http_server::request::parse_status_line;

fn parse(text: &[u8]) -> (Result<Request, HTTPRequestParseError>, ByteReader) {
    let mut reader = ByteReader::new(text.to_vec());
    let r = Request::new(&mut reader);
    (r, reader)
}

fn error_of(text: &[u8]) -> HTTPRequestParseError {
    match parse(text).0 {
        Ok(_) => panic!("expected an error"),
        Err(e) => e,
    }
}

#[test]
fn body_is_framed_by_content_length() {
    let head = b"POST /files/a HTTP/1.1\r\nContent-Length: 3\r\n\r\n";
    let mut text = head.to_vec();
    text.extend_from_slice(b"abcXYZ");
    let (r, reader) = parse(&text);
    let req = r.unwrap();
    assert_eq!(req.body.as_bytes(), b"abc");
    assert_eq!(req.body.len(), 3);
    assert_eq!(reader.position(), head.len() + 3);
    assert_eq!(reader.remaining(), b"XYZ");
}

#[test]
fn missing_content_length_gives_empty_body() {
    let text = b"GET /index.html HTTP/1.1\r\nHost: localhost\r\n\r\nleftover";
    let (r, reader) = parse(text);
    let req = r.unwrap();
    assert_eq!(req.body.len(), 0);
    assert_eq!(reader.remaining(), b"leftover");
}

#[test]
fn request_line_fields() {
    let (r, _) = parse(b"GET /echo/abc HTTP/1.1\r\n\r\n");
    let req = r.unwrap();
    assert_eq!(req.method, HTTPMethod::GET);
    assert_eq!(req.resource, "/echo/abc");
    assert_eq!(req.http_version, "HTTP/1.1");
    assert_eq!(req.headers.len(), 0);
}

#[test]
fn lines_without_carriage_return() {
    let (r, _) = parse(b"POST /x HTTP/1.0\nUser-Agent: curl\n\n");
    let req = r.unwrap();
    assert_eq!(req.method, HTTPMethod::POST);
    assert_eq!(req.http_version, "HTTP/1.0");
    let ua = req.get_known_header_values(HTTPHeader::UserAgent).unwrap();
    assert_eq!(ua, &vec!["curl".to_string()]);
}

#[test]
fn header_values_split_and_accumulate() {
    let (r, _) = parse(b"GET / HTTP/1.1\r\nAccept-Encoding: gzip, br\r\nAccept-Encoding: deflate\r\n\r\n");
    let req = r.unwrap();
    let values = req.get_known_header_values(HTTPHeader::AcceptEncoding).unwrap();
    assert_eq!(values, &vec!["gzip".to_string(), "br".to_string(), "deflate".to_string()]);
    assert_eq!(req.headers.len(), 1);
}

#[test]
fn header_names_are_exact() {
    let (r, _) = parse(b"GET / HTTP/1.1\r\nuser-agent: x\r\n\r\n");
    let req = r.unwrap();
    assert!(req.get_known_header_values(HTTPHeader::UserAgent).is_none());
    assert_eq!(req.headers.get(&"user-agent".to_string()).unwrap(), &vec!["x".to_string()]);
}

#[test]
fn unsupported_method_is_refused() {
    assert_eq!(error_of(b"PUT / HTTP/1.1\r\n\r\n"), HTTPRequestParseError::InvalidMethodError);
}

#[test]
fn short_request_line_is_refused() {
    assert_eq!(error_of(b"GET /\r\n\r\n"), HTTPRequestParseError::InvalidStatusLineError);
    assert_eq!(error_of(b"\r\n\r\n"), HTTPRequestParseError::InvalidStatusLineError);
}

#[test]
fn header_line_without_separator_is_refused() {
    assert_eq!(error_of(b"GET / HTTP/1.1\r\nHost localhost\r\n\r\n"), HTTPRequestParseError::InvalidHeaderLineError);
    assert_eq!(error_of(b"GET / HTTP/1.1\r\nA: b: c\r\n\r\n"), HTTPRequestParseError::InvalidHeaderLineError);
}

#[test]
fn non_utf8_header_is_refused() {
    assert_eq!(error_of(b"GET / HTTP/1.1\r\nHost: \xff\xfe\r\n\r\n"), HTTPRequestParseError::InvalidHeaderLineError);
}

#[test]
fn non_numeric_content_length_is_refused() {
    assert_eq!(
        error_of(b"POST / HTTP/1.1\r\nContent-Length: abc\r\n\r\nabc"),
        HTTPRequestParseError::InvalidContentLengthError
    );
    assert_eq!(
        error_of(b"POST / HTTP/1.1\r\nContent-Length: -1\r\n\r\n"),
        HTTPRequestParseError::InvalidContentLengthError
    );
}

#[test]
fn plus_sign_content_length_is_accepted() {
    let (r, _) = parse(b"POST / HTTP/1.1\r\nContent-Length: +2\r\n\r\nhi");
    assert_eq!(r.unwrap().body.as_bytes(), b"hi");
}

#[test]
fn stream_ending_early_aborts() {
    assert_eq!(error_of(b"GET / HTTP/1.1"), HTTPRequestParseError::ConnectionAbortedError);
    assert_eq!(error_of(b"GET / HTTP/1.1\r\nHost: a\r\n"), HTTPRequestParseError::ConnectionAbortedError);
    assert_eq!(
        error_of(b"POST / HTTP/1.1\r\nContent-Length: 5\r\n\r\nab"),
        HTTPRequestParseError::ConnectionAbortedError
    );
}

#[test]
fn method_from_str() {
    assert_eq!(HTTPMethod::from_str("GET"), Ok(HTTPMethod::GET));
    assert_eq!(HTTPMethod::from_str("POST"), Ok(HTTPMethod::POST));
    assert_eq!(HTTPMethod::from_str("get"), Err(HTTPRequestParseError::InvalidMethodError));
    assert_eq!(HTTPMethod::GET.to_string(), "GET");
}

#[test]
fn status_line_parts() {
    let (m, t) = parse_status_line("POST /files/x HTTP/1.1").unwrap();
    assert_eq!(m, http_server::request::HTTPMethod::POST);
    assert_eq!(t.0, "/files/x");
}

#[test]
fn status_line_errors() {
    assert_eq!(parse_status_line("GET").err(), Some(HTTPRequestParseError::InvalidStatusLineError));
    assert_eq!(parse_status_line("GET /x").err(), Some(HTTPRequestParseError::InvalidStatusLineError));
    assert_eq!(parse_status_line("PUT /x HTTP/1.1").err(), Some(HTTPRequestParseError::InvalidMethodError));
    assert_eq!(parse_status_line("GET x HTTP/1.1").err(), Some(HTTPRequestParseError::InvalidPathError));
}

#[test]
fn header_names_on_the_wire() {
    assert_eq!(HTTPHeader::UserAgent.to_string(), "User-Agent");
    assert_eq!(HTTPHeader::AcceptEncoding.to_string(), "Accept-Encoding");
    assert_eq!(HTTPHeader::ContentType.to_string(), "Content-Type");
    assert_eq!(HTTPHeader::ContentLength.to_string(), "Content-Length");
    assert_eq!(HTTPHeader::ContentEncoding.to_string(), "Content-Encoding");
}

#[test]
fn request_description() {
    let (r, _) = parse(b"POST /files/a HTTP/1.1\r\n\r\n");
    assert_eq!(r.unwrap().to_string(), "Path: /files/a, Method: POST");
}
