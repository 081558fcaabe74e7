use http_server::config::Config;
use http_server::http::headers::HTTPHeader;
use http_server::http::request::HTTPMethod;
use http_server::http::request::Request;
use http_server::http::response::HTTPStatus;
use http_server::http::response::Response;
use http_server::http::ByteReader;
use http_server::route::route_serves;
use http_server::route::Route;
use http_server::route::Router;
use http_server::routes::echo_data;
use http_server::routes::echo_response;
use http_server::routes::file_path;
use http_server::routes::file_response;
use http_server::routes::index_handler;
use http_server::routes::root_handler;
use http_server::routes::user_agent_handler;
use http_server::routes::wants_gzip;
use http_server::server::Server;

type Handler = fn(&Request, &Config) -> Response;

fn request(text: &str) -> Request {
    let mut reader = ByteReader::new(text.as_bytes().to_vec());
    Request::new(&mut reader).ok().unwrap()
}

fn echo_plain(request: &Request, _config: &Config) -> Response {
    echo_response(request, None).unwrap()
}

fn created(_request: &Request, _config: &Config) -> Response {
    Response::new(HTTPStatus::Created)
}

fn router() -> Router<Handler> {
    let mut router: Router<Handler> = Router::new(None);
    router.add_route("/echo", HTTPMethod::GET, echo_plain as Handler);
    router.add_route("/user-agent", HTTPMethod::GET, user_agent_handler as Handler);
    router.add_route("/files", HTTPMethod::POST, created as Handler);
    router.add_route("/", HTTPMethod::GET, root_handler as Handler);
    router
}

fn config() -> Config {
    Config::new("127.0.0.1", 4221, None)
}

#[test]
fn prefix_route_resolves() {
    let r = router();
    assert_eq!(r.resolve(HTTPMethod::GET, "/echo/hello"), Some(0));
    assert_eq!(r.resolve(HTTPMethod::GET, "/unknown"), None);
}

#[test]
fn root_is_exact_only() {
    let r = router();
    assert_eq!(r.resolve(HTTPMethod::GET, "/"), Some(3));
    assert_eq!(r.resolve(HTTPMethod::GET, "/foo"), None);
    assert!(!route_serves("/", HTTPMethod::GET, "/foo", HTTPMethod::GET));
    assert!(route_serves("/", HTTPMethod::GET, "/", HTTPMethod::GET));
}

#[test]
fn method_must_match() {
    let r = router();
    assert_eq!(r.resolve(HTTPMethod::POST, "/echo/x"), None);
    assert_eq!(r.resolve(HTTPMethod::POST, "/files/a"), Some(2));
    assert_eq!(r.resolve(HTTPMethod::GET, "/files/a"), None);
}

#[test]
fn first_registered_route_wins() {
    let mut r: Router<Handler> = Router::new(Some(vec![Route::new(HTTPMethod::GET, "/e", created as Handler)]));
    r.add_route("/echo", HTTPMethod::GET, echo_plain as Handler);
    assert_eq!(r.resolve(HTTPMethod::GET, "/echo/x"), Some(0));
}

#[test]
fn dispatch_uses_handler_and_request_version() {
    let server = Server::new(config(), router());
    let req = request("GET /echo/hi HTTP/1.0\r\n\r\n");
    let response = Server::handle_request(&req, &server.router, &server.config);
    assert_eq!(
        response.try_into_bytes(),
        b"HTTP/1.0 200 OK\r\nContent-Type: text/plain\r\nContent-Length: 2\r\n\r\n\r\nhi".to_vec()
    );
}

#[test]
fn dispatch_without_route_is_not_found() {
    let server = Server::new(config(), router());
    let req = request("GET /nowhere HTTP/1.1\r\n\r\n");
    let response = Server::handle_request(&req, &server.router, &server.config);
    assert_eq!(response.status, HTTPStatus::NotFound);
    assert_eq!(response.try_into_bytes(), b"HTTP/1.1 404 Not Found\r\n\r\n".to_vec());
}

#[test]
fn user_agents_do_not_leak_between_requests() {
    let server = Server::new(config(), router());
    let a = request("GET /user-agent HTTP/1.1\r\nUser-Agent: alpha/1\r\n\r\n");
    let b = request("GET /user-agent HTTP/1.1\r\nUser-Agent: beta/22\r\n\r\n");
    let ra = Server::handle_request(&a, &server.router, &server.config);
    let rb = Server::handle_request(&b, &server.router, &server.config);
    assert_eq!(
        ra.try_into_bytes(),
        b"HTTP/1.1 200 OK\r\nContent-Length: 7\r\nContent-Type: text/plain\r\n\r\n\r\nalpha/1".to_vec()
    );
    assert_eq!(
        rb.try_into_bytes(),
        b"HTTP/1.1 200 OK\r\nContent-Length: 7\r\nContent-Type: text/plain\r\n\r\n\r\nbeta/22".to_vec()
    );
}

#[test]
fn user_agent_missing() {
    let req = request("GET /user-agent HTTP/1.1\r\n\r\n");
    let r = user_agent_handler(&req, &config());
    assert!(r.body.is_none());
    assert_eq!(r.try_into_bytes(), b"HTTP/1.1 200 OK\r\nContent-Type: text/plain\r\n\r\n".to_vec());
}

#[test]
fn echo_without_encoding() {
    let req = request("GET /echo/abc HTTP/1.1\r\n\r\n");
    assert_eq!(echo_data(&req), Some("abc".to_string()));
    assert!(!wants_gzip(&req));
    let r = echo_response(&req, None).unwrap();
    assert_eq!(
        r.try_into_bytes(),
        b"HTTP/1.1 200 OK\r\nContent-Type: text/plain\r\nContent-Length: 3\r\n\r\n\r\nabc".to_vec()
    );
}

#[test]
fn echo_with_gzip() {
    let req = request("GET /echo/abc HTTP/1.1\r\nAccept-Encoding: br, gzip\r\n\r\n");
    assert!(wants_gzip(&req));
    let r = echo_response(&req, Some(vec![1, 2, 3, 4])).unwrap();
    let mut expected =
        b"HTTP/1.1 200 OK\r\nContent-Type: text/plain\r\nContent-Encoding: gzip\r\nContent-Length: 4\r\n\r\n\r\n"
            .to_vec();
    expected.extend_from_slice(&[1, 2, 3, 4]);
    assert_eq!(r.try_into_bytes(), expected);
}

#[test]
fn echo_with_other_encoding_has_no_body() {
    let req = request("GET /echo/abc HTTP/1.1\r\nAccept-Encoding: br\r\n\r\n");
    assert!(!wants_gzip(&req));
    let r = echo_response(&req, None).unwrap();
    assert!(r.body.is_none());
    assert_eq!(r.headers.get(&HTTPHeader::ContentLength.to_string()), None);
}

#[test]
fn echo_needs_echo_segment() {
    let req = request("GET /echo HTTP/1.1\r\n\r\n");
    assert_eq!(echo_data(&req), None);
    assert!(echo_response(&req, None).is_none());
}

#[test]
fn file_paths() {
    let req = request("GET /files/notes.txt HTTP/1.1\r\n\r\n");
    let with_dir = Config::new("127.0.0.1", 4221, Some("/tmp/data".to_string()));
    assert_eq!(file_path(&req, &with_dir), Some("/tmp/data/notes.txt".to_string()));
    assert_eq!(file_path(&req, &config()), None);
    let other = request("GET /file/x HTTP/1.1\r\n\r\n");
    assert_eq!(file_path(&other, &with_dir), None);
}

#[test]
fn file_responses() {
    let found = file_response(Some("hey".to_string()));
    assert_eq!(
        found.try_into_bytes(),
        b"HTTP/1.1 200 OK\r\nContent-Type: application/octet-stream\r\nContent-Length: 3\r\n\r\n\r\nhey".to_vec()
    );
    let missing = file_response(None);
    assert_eq!(missing.try_into_bytes(), b"HTTP/1.1 404 Not Found\r\n\r\n".to_vec());
}

#[test]
fn fixed_handlers() {
    let req = request("GET / HTTP/1.1\r\n\r\n");
    assert_eq!(root_handler(&req, &config()).status, HTTPStatus::OK);
    assert_eq!(index_handler(&req, &config()).status, HTTPStatus::NotFound);
}

#[test]
fn config_fields() {
    let c = Config::new("0.0.0.0", 8080, Some("d".to_string()));
    assert_eq!(c.address, "0.0.0.0");
    assert_eq!(c.port, 8080);
    assert_eq!(c.files_path, Some("d".to_string()));
}

#[test]
fn echo_falls_back_to_plain_text_when_compression_fails() {
    let req = request("GET /echo/abc HTTP/1.1\r\nAccept-Encoding: gzip\r\n\r\n");
    assert!(wants_gzip(&req));
    let r = echo_response(&req, None).unwrap();
    assert_eq!(
        r.try_into_bytes(),
        b"HTTP/1.1 200 OK\r\nContent-Type: text/plain\r\nContent-Length: 3\r\n\r\n\r\nabc".to_vec()
    );
}
