use http_server::http::headers::HTTPHeader;
use http_server::http::headers::HeaderMap;
use http_server::http::response::HTTPStatus;
use http_server::http::response::Response;
use http_server::http::Body;

#[test]
fn serializes_status_header_and_body() {
    let mut response = Response::new(HTTPStatus::OK);
    response.add_known_header(HTTPHeader::ContentType, vec!["text/plain"]);
    response.set_body(Body::new(b"abc".to_vec()));
    let bytes = response.try_into_bytes();
    assert_eq!(bytes, b"HTTP/1.1 200 OK\r\nContent-Type: text/plain\r\n\r\n\r\nabc".to_vec());
}

#[test]
fn body_without_length_setter_has_no_length_header() {
    let mut response = Response::new(HTTPStatus::OK);
    response.set_body(Body::new(b"hello".to_vec()));
    let bytes = response.try_into_bytes();
    assert_eq!(bytes, b"HTTP/1.1 200 OK\r\n\r\n\r\nhello".to_vec());
    let text = String::from_utf8(bytes).unwrap();
    assert!(!text.contains("Content-Length"));
}

#[test]
fn length_setter_adds_decimal_length() {
    let mut response = Response::new(HTTPStatus::OK);
    response.set_body(Body::new(vec![7u8; 12]));
    response.set_content_length_header();
    let bytes = response.try_into_bytes();
    let mut expected = b"HTTP/1.1 200 OK\r\nContent-Length: 12\r\n\r\n\r\n".to_vec();
    expected.extend_from_slice(&[7u8; 12]);
    assert_eq!(bytes, expected);
}

#[test]
fn length_setter_without_body_does_nothing() {
    let mut response = Response::new(HTTPStatus::Created);
    response.set_content_length_header();
    assert_eq!(response.headers.len(), 0);
    assert_eq!(response.try_into_bytes(), b"HTTP/1.1 201 Created\r\n\r\n".to_vec());
}

#[test]
fn not_found_without_body() {
    let response = Response::new(HTTPStatus::NotFound);
    assert_eq!(response.try_into_bytes(), b"HTTP/1.1 404 Not Found\r\n\r\n".to_vec());
}

#[test]
fn version_override() {
    let mut response = Response::new(HTTPStatus::OK);
    response.set_http_version("HTTP/1.0");
    assert_eq!(response.try_into_bytes(), b"HTTP/1.0 200 OK\r\n\r\n".to_vec());
}

#[test]
fn headers_in_insertion_order_with_joined_values() {
    let mut response = Response::new(HTTPStatus::OK);
    response.add_custom_header("X-B".to_string(), vec!["1", "2"]);
    response.add_known_header(HTTPHeader::ContentEncoding, vec!["gzip"]);
    response.add_custom_header("X-B".to_string(), vec!["3"]);
    assert_eq!(
        response.try_into_bytes(),
        b"HTTP/1.1 200 OK\r\nX-B: 3\r\nContent-Encoding: gzip\r\n\r\n".to_vec()
    );
}

#[test]
fn status_texts() {
    assert_eq!(HTTPStatus::OK.to_string(), "200 OK");
    assert_eq!(HTTPStatus::Created.to_string(), "201 Created");
    assert_eq!(HTTPStatus::NotFound.to_string(), "404 Not Found");
}

#[test]
fn header_map_set_and_append() {
    let mut m = HeaderMap::new();
    m.append("A".to_string(), vec!["1".to_string()]);
    m.append("B".to_string(), vec!["2".to_string()]);
    m.append("A".to_string(), vec!["3".to_string()]);
    assert_eq!(m.len(), 2);
    assert_eq!(m.get(&"A".to_string()).unwrap(), &vec!["1".to_string(), "3".to_string()]);
    m.set("A".to_string(), vec!["9".to_string()]);
    assert_eq!(m.get(&"A".to_string()).unwrap(), &vec!["9".to_string()]);
    let (name, values) = m.entry(0);
    assert_eq!(name, "A");
    assert_eq!(values, &vec!["9".to_string()]);
    assert!(m.get(&"C".to_string()).is_none());
}

#[test]
fn body_from_text() {
    let body = Body::from_str("héllo").ok().unwrap();
    assert_eq!(body.as_bytes(), "héllo".as_bytes());
    assert_eq!(body.len(), 6);
    assert_eq!(Body::default().len(), 0);
}
