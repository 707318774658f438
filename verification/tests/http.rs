use widgets::http::{queue_has_room, CHANNEL_DEPTH};
use widgets::http::request::build_http_request;
use widgets::http::response::{find_body_start, parse_header_lines, parse_http_response};
use widgets::http::{
    channel_full_response, parse_url, response_from_outcome, HttpError, HttpRequestData,
    RequestId, RequestIds,
};

fn request(method: &str, url: &str, body: &str, headers: Vec<(&str, &str)>) -> HttpRequestData {
    HttpRequestData {
        method: method.to_string(),
        url: url.to_string(),
        body: body.to_string(),
        headers: headers.into_iter().map(|(a, b)| (a.to_string(), b.to_string())).collect(),
    }
}

#[test]
fn parse_url_https_default_port() {
    let p = parse_url("https://api.example.com/v1/data?x=1").ok().unwrap();
    assert!(p.is_https);
    assert_eq!(p.host, "api.example.com");
    assert_eq!(p.port, 443);
    assert_eq!(p.path, "/v1/data?x=1");
}

#[test]
fn parse_url_http_with_port_and_no_path() {
    let p = parse_url("http://10.0.0.2:8080").ok().unwrap();
    assert!(!p.is_https);
    assert_eq!(p.host, "10.0.0.2");
    assert_eq!(p.port, 8080);
    assert_eq!(p.path, "/");
    let q = parse_url("http://host/").ok().unwrap();
    assert_eq!(q.port, 80);
    assert_eq!(q.path, "/");
}

#[test]
fn parse_url_errors() {
    assert!(matches!(parse_url("ftp://host/"), Err(HttpError::UnsupportedScheme)));
    assert!(matches!(parse_url("host/path"), Err(HttpError::UnsupportedScheme)));
    assert!(matches!(parse_url("http://host:99999/"), Err(HttpError::InvalidPort)));
    assert!(matches!(parse_url("http://host:/"), Err(HttpError::InvalidPort)));
    assert!(matches!(parse_url("http://host:-1/"), Err(HttpError::InvalidPort)));
    // u16 parsing accepts a leading plus sign.
    assert_eq!(parse_url("http://host:+81/").ok().unwrap().port, 81);
}

#[test]
fn http_error_messages() {
    assert_eq!(HttpError::UnsupportedScheme.message(), "unsupported scheme");
    assert_eq!(HttpError::InvalidPort.message(), "invalid port");
    assert_eq!(HttpError::TlsHandshakeFailed.message(), "TLS handshake failed");
    assert_eq!(HttpError::ChannelFull.message(), "request queue full");
}

#[test]
fn request_without_body() {
    let req = request("GET", "http://h/p", "", vec![("Accept", "text/plain")]);
    let p = parse_url(&req.url).ok().unwrap();
    assert_eq!(
        build_http_request(&p, &req),
        "GET /p HTTP/1.0\r\nHost: h\r\nConnection: close\r\nAccept: text/plain\r\n\r\n"
    );
}

#[test]
fn request_with_body_gets_content_length() {
    let req = request("POST", "http://h/p", "héllo", vec![]);
    let p = parse_url(&req.url).ok().unwrap();
    assert_eq!(
        build_http_request(&p, &req),
        "POST /p HTTP/1.0\r\nHost: h\r\nConnection: close\r\nContent-Length: 6\r\n\r\nhéllo"
    );
}

#[test]
fn request_keeps_callers_content_length() {
    let req = request("PUT", "http://h/p", "abc", vec![("content-LENGTH", "3")]);
    let p = parse_url(&req.url).ok().unwrap();
    assert_eq!(
        build_http_request(&p, &req),
        "PUT /p HTTP/1.0\r\nHost: h\r\nConnection: close\r\ncontent-LENGTH: 3\r\n\r\nabc"
    );
}

#[test]
fn response_headers_and_body() {
    let raw = b"HTTP/1.0 200 OK\r\nContent-Type: text/plain\r\nX-Empty:\r\nno colon line\r\n\r\nbody\r\n\r\nmore";
    assert_eq!(find_body_start(raw), 70);
    let (headers, body) = parse_http_response(raw);
    assert_eq!(
        headers,
        vec![
            ("Content-Type".to_string(), "text/plain".to_string()),
            ("X-Empty".to_string(), "".to_string()),
        ]
    );
    assert_eq!(body, "body\r\n\r\nmore");
}

#[test]
fn response_without_blank_line_is_all_body() {
    let raw = b"HTTP/1.0 200 OK\r\nA: b";
    assert_eq!(find_body_start(raw), 0);
    let (headers, body) = parse_http_response(raw);
    assert!(headers.is_empty());
    assert_eq!(body, "HTTP/1.0 200 OK\r\nA: b");
}

#[test]
fn response_invalid_utf8() {
    let raw = b"HTTP/1.0 200 OK\r\nA: \xff\r\n\r\nok\xffok";
    let (headers, body) = parse_http_response(raw);
    assert!(headers.is_empty());
    assert_eq!(body, "ok\u{fffd}ok");
}

#[test]
fn header_lines_are_trimmed() {
    let h = parse_header_lines("status\n  Name :  value  \r\nOther: a:b\n");
    assert_eq!(
        h,
        vec![("Name".to_string(), "value".to_string()), ("Other".to_string(), "a:b".to_string())]
    );
    assert!(parse_header_lines("only status").is_empty());
}

#[test]
fn outcome_becomes_response() {
    let ok = response_from_outcome(RequestId(3), Ok((vec![("a".to_string(), "b".to_string())], "x".to_string())));
    assert_eq!(ok.request_id, RequestId(3));
    assert_eq!(ok.body.as_deref(), Some("x"));
    assert!(ok.error.is_none());
    let err = response_from_outcome(RequestId(4), Err(HttpError::ConnectFailed));
    assert!(err.headers.is_none() && err.body.is_none());
    assert_eq!(err.error, Some(HttpError::ConnectFailed));
    let full = channel_full_response(RequestId(5));
    assert_eq!(full.error, Some(HttpError::ChannelFull));
}

#[test]
fn request_ids_count_from_one() {
    let mut ids = RequestIds::new();
    assert_eq!(ids.next(), RequestId(1));
    assert_eq!(ids.next(), RequestId(2));
}

#[test]
fn url_parts_round_trip() {
    for (https, host, port, path) in [(false, "example.org", 8080u16, "/a/b"), (true, "h", 0, "/"), (true, "x.y", 65535, "/q?x=1")] {
        let url = format!("{}://{}:{}{}", if https { "https" } else { "http" }, host, port, path);
        let p = parse_url(&url).ok().unwrap();
        assert_eq!((p.is_https, p.host, p.port, p.path), (https, host, port, path));
    }
}

#[test]
fn request_queue_holds_four() {
    assert_eq!(CHANNEL_DEPTH, 4);
    assert!(queue_has_room(0));
    assert!(queue_has_room(3));
    assert!(!queue_has_room(4));
}
