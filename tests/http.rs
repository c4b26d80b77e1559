use http_server::{
    Handler, Method, MethodError, ParseError, QueryString, Request, Response, Server,
    SiteHandler, StatusCode, Value,
};

fn single(q: &QueryString, key: &str) -> String {
    match q.get(key) {
        Some(Value::Single(v)) => v.clone(),
        other => panic!("expected a single value for {:?}, got {:?}", key, other),
    }
}

fn multiple(q: &QueryString, key: &str) -> Vec<String> {
    match q.get(key) {
        Some(Value::Multiple(vs)) => vs.clone(),
        other => panic!("expected several values for {:?}, got {:?}", key, other),
    }
}

fn parse(bytes: &[u8]) -> Result<Request, ParseError> {
    Request::try_from(bytes)
}

fn wire(r: &Response) -> Vec<u8> {
    let mut sink = Vec::new();
    r.send(&mut sink);
    sink
}

#[test]
fn method_parses_every_name() {
    let names = [
        ("GET", Method::GET),
        ("DELETE", Method::DELETE),
        ("PUT", Method::PUT),
        ("POST", Method::POST),
        ("HEAD", Method::HEAD),
        ("CONNECT", Method::CONNECT),
        ("OPTIONS", Method::OPTIONS),
        ("TRACE", Method::TRACE),
        ("PATH", Method::PATH),
    ];
    for (text, m) in names {
        assert_eq!(Method::from_str(text), Ok(m));
    }
}

#[test]
fn method_rejects_other_text() {
    for text in ["", "get", "Get", "FOO", " GET", "GET ", "GETS", "PATCH"] {
        assert_eq!(Method::from_str(text), Err(MethodError));
    }
}

#[test]
fn query_two_keys() {
    let q = QueryString::from("a=1&b=2");
    assert_eq!(single(&q, "a"), "1");
    assert_eq!(single(&q, "b"), "2");
    assert!(q.get("c").is_none());
}

#[test]
fn query_repeated_key_keeps_first_value() {
    let q = QueryString::from("a=1&a=2");
    assert_eq!(multiple(&q, "a"), vec!["1".to_string(), "2".to_string()]);
    assert!(q.get("b").is_none());
}

#[test]
fn query_bare_and_empty_values() {
    let q = QueryString::from("c&d=&e");
    assert_eq!(single(&q, "c"), "");
    assert_eq!(single(&q, "d"), "");
    assert_eq!(single(&q, "e"), "");
}

#[test]
fn query_three_occurrences_in_order() {
    let q = QueryString::from("d=1&x=0&d=2&d=3");
    assert_eq!(multiple(&q, "d"), vec!["1".to_string(), "2".to_string(), "3".to_string()]);
    assert_eq!(single(&q, "x"), "0");
}

#[test]
fn query_empty_input_is_one_empty_key() {
    let q = QueryString::from("");
    assert_eq!(single(&q, ""), "");
}

#[test]
fn query_double_ampersand_repeats_empty_key() {
    let q = QueryString::from("&&");
    assert_eq!(multiple(&q, ""), vec![String::new(), String::new(), String::new()]);
}

#[test]
fn query_value_keeps_later_equals_and_encoding() {
    let q = QueryString::from("a=b=c&n=%20x");
    assert_eq!(single(&q, "a"), "b=c");
    assert_eq!(single(&q, "n"), "%20x");
    assert!(q.get("A").is_none());
}

#[test]
fn parse_root() {
    let r = parse(b"GET / HTTP/1.1\r\n").unwrap();
    assert_eq!(*r.method(), Method::GET);
    assert_eq!(r.path(), "/");
    assert!(r.query_string().is_none());
}

#[test]
fn parse_search_with_query() {
    let r = parse(b"GET /search?user=me HTTP/1.1\r\n").unwrap();
    assert_eq!(r.path(), "/search");
    let q = r.query_string().unwrap();
    assert_eq!(single(q, "user"), "me");
}

#[test]
fn parse_path_query_round_trip() {
    let r = parse(b"POST /a/b?k=v&k=w&z HTTP/1.1\r\n").unwrap();
    assert_eq!(*r.method(), Method::POST);
    assert_eq!(r.path(), "/a/b");
    assert!(!r.path().contains('?'));
    let q = r.query_string().unwrap();
    assert_eq!(multiple(q, "k"), vec!["v".to_string(), "w".to_string()]);
    assert_eq!(single(q, "z"), "");
}

#[test]
fn parse_splits_at_first_question_mark() {
    let r = parse(b"GET /p?a=?b HTTP/1.1\r\n").unwrap();
    assert_eq!(r.path(), "/p");
    assert_eq!(single(r.query_string().unwrap(), "a"), "?b");
}

#[test]
fn parse_empty_query_after_question_mark() {
    let r = parse(b"GET /p? HTTP/1.1\r\n").unwrap();
    assert_eq!(r.path(), "/p");
    assert_eq!(single(r.query_string().unwrap(), ""), "");
}

#[test]
fn parse_wrong_protocol() {
    assert_eq!(parse(b"GET /x HTTP/1.0\r\n").unwrap_err(), ParseError::InvalidProtocol);
}

#[test]
fn parse_protocol_with_trailing_text() {
    assert_eq!(parse(b"GET /x HTTP/1.1x\r\n").unwrap_err(), ParseError::InvalidProtocol);
}

#[test]
fn parse_unknown_method() {
    assert_eq!(parse(b"FOO / HTTP/1.1\r\n").unwrap_err(), ParseError::InvalidMethod);
}

#[test]
fn parse_protocol_checked_before_method() {
    assert_eq!(parse(b"FOO / HTTP/1.0\r\n").unwrap_err(), ParseError::InvalidProtocol);
}

#[test]
fn parse_truncated() {
    assert_eq!(parse(b"GET /").unwrap_err(), ParseError::InvalidRequest);
    assert_eq!(parse(b"").unwrap_err(), ParseError::InvalidRequest);
    assert_eq!(parse(b"GET / HTTP/1.1").unwrap_err(), ParseError::InvalidRequest);
}

#[test]
fn parse_invalid_utf8() {
    assert_eq!(parse(b"GET /\xff HTTP/1.1\r\n").unwrap_err(), ParseError::InvalidEncoding);
}

#[test]
fn parse_non_ascii_path() {
    let r = parse("GET /caf\u{e9}?q=\u{e9}t\u{e9} HTTP/1.1\r\n".as_bytes()).unwrap();
    assert_eq!(r.path(), "/caf\u{e9}");
    assert_eq!(single(r.query_string().unwrap(), "q"), "\u{e9}t\u{e9}");
}

#[test]
fn parse_ignores_what_follows_the_line() {
    let mut buf = b"GET /x HTTP/1.1\r\nHost: a\r\n\r\n".to_vec();
    buf.resize(1024, 0);
    let r = parse(&buf).unwrap();
    assert_eq!(r.path(), "/x");
}

#[test]
fn parse_is_deterministic() {
    let buf = b"GET /s?a=1&a=2&b HTTP/1.1\r\n";
    let r1 = parse(buf).unwrap();
    let r2 = parse(buf).unwrap();
    assert_eq!(r1.method(), r2.method());
    assert_eq!(r1.path(), r2.path());
    let (q1, q2) = (r1.query_string().unwrap(), r2.query_string().unwrap());
    assert_eq!(multiple(q1, "a"), multiple(q2, "a"));
    assert_eq!(single(q1, "b"), single(q2, "b"));
    assert_eq!(parse(b"GET /x HTTP/1.0\r\n").unwrap_err(), parse(b"GET /x HTTP/1.0\r\n").unwrap_err());
}

#[test]
fn parse_error_messages() {
    assert_eq!(ParseError::InvalidRequest.message(), "Invalid Request");
    assert_eq!(ParseError::InvalidEncoding.message(), "Invalid Encoding");
    assert_eq!(ParseError::InvalidProtocol.message(), "Invalid Protocol");
    assert_eq!(ParseError::InvalidMethod.message(), "Invalid Method");
    assert_eq!(ParseError::from(MethodError), ParseError::InvalidMethod);
}

#[test]
fn status_codes() {
    assert_eq!(StatusCode::OK.code(), 200);
    assert_eq!(StatusCode::BadRequest.code(), 400);
    assert_eq!(StatusCode::NotFound.code(), 404);
    assert_eq!(StatusCode::OK.message(), "Ok");
    assert_eq!(StatusCode::BadRequest.message(), "Bad Request");
    assert_eq!(StatusCode::NotFound.message(), "Not Found");
}

#[test]
fn response_with_body() {
    let r = Response::new(StatusCode::OK, Some("hi".to_string()));
    assert_eq!(wire(&r), b"HTTP/1.1 200 Ok\r\n\r\nhi".to_vec());
}

#[test]
fn response_without_body() {
    let r = Response::new(StatusCode::NotFound, None);
    assert_eq!(r.to_text(), "HTTP/1.1 404 Not Found\r\n\r\n");
    let r = Response::new(StatusCode::BadRequest, None);
    assert_eq!(wire(&r), b"HTTP/1.1 400 Bad Request\r\n\r\n".to_vec());
}

#[test]
fn response_appends_to_sink() {
    let r = Response::new(StatusCode::OK, Some("\u{e9}".to_string()));
    let mut sink = b"x".to_vec();
    r.send(&mut sink);
    assert_eq!(sink, "xHTTP/1.1 200 Ok\r\n\r\n\u{e9}".as_bytes().to_vec());
}

struct Echo;

impl Handler for Echo {
    fn handle_request(&mut self, request: &Request) -> Response {
        Response::new(StatusCode::OK, Some(request.path().to_string()))
    }
}

#[test]
fn server_dispatches_to_handler() {
    let server = Server::new("127.0.0.1:8080".to_string());
    assert_eq!(server.address(), "127.0.0.1:8080");
    let mut h = Echo;
    let ok = server.respond(&mut h, b"GET /page?x=1 HTTP/1.1\r\n");
    assert_eq!(ok.to_text(), "HTTP/1.1 200 Ok\r\n\r\n/page");
    let bad = server.respond(&mut h, b"GET /page HTTP/2\r\n");
    assert_eq!(bad.to_text(), "HTTP/1.1 400 Bad Request\r\n\r\n");
}

#[test]
fn site_handler_routes() {
    let site = SiteHandler::new("/srv/public".to_string());
    assert_eq!(site.public_path(), "/srv/public");
    assert_eq!(site.location("a.css"), "/srv/public/a.css");
    let root = parse(b"GET / HTTP/1.1\r\n").unwrap();
    assert_eq!(site.requested_file(&root), Some("index.html".to_string()));
    let page = parse(b"GET /a.css HTTP/1.1\r\n").unwrap();
    assert_eq!(site.requested_file(&page), Some("/a.css".to_string()));
    let post = parse(b"POST / HTTP/1.1\r\n").unwrap();
    assert_eq!(site.requested_file(&post), None);
}

#[test]
fn site_handler_responses() {
    let site = SiteHandler::new("/srv/public".to_string());
    let root = parse(b"GET / HTTP/1.1\r\n").unwrap();
    let page = parse(b"GET /a.css HTTP/1.1\r\n").unwrap();
    let post = parse(b"POST /a.css HTTP/1.1\r\n").unwrap();
    assert_eq!(site.response_for(&root, None).to_text(), "HTTP/1.1 200 Ok\r\n\r\n");
    assert_eq!(site.response_for(&page, Some("body".to_string())).to_text(), "HTTP/1.1 200 Ok\r\n\r\nbody");
    assert_eq!(site.response_for(&page, None).to_text(), "HTTP/1.1 404 Not Found\r\n\r\n");
    assert_eq!(site.response_for(&post, Some("x".to_string())).to_text(), "HTTP/1.1 400 Bad Request\r\n\r\n");
}

#[test]
fn default_bad_request_handler() {
    let mut h = Echo;
    for e in [
        ParseError::InvalidRequest,
        ParseError::InvalidEncoding,
        ParseError::InvalidProtocol,
        ParseError::InvalidMethod,
    ] {
        let r = h.handle_bad_request(&e);
        assert_eq!(wire(&r), b"HTTP/1.1 400 Bad Request\r\n\r\n".to_vec());
    }
}
