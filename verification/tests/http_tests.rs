//! URL decoding, forms, escaping, responses and request parsing.

use rdplatform::http::{
    html_escape, http_response, is_head_end, parse_form, parse_request, percent_decode_bytes,
    read_headers, redirect, redirect_with_cookie, url_decode, HttpRequest,
};

#[test]
fn url_decode_basic() {
    assert_eq!(url_decode("a%20b"), "a b");
    assert_eq!(url_decode("a+b"), "a b");
    assert_eq!(url_decode("%E8%AF%BE%E7%A8%8B"), "课程");
}

#[test]
fn url_decode_keeps_bad_escapes() {
    // A `%` without two hex digits after it stays as it is.
    assert_eq!(url_decode("100%"), "100%");
    assert_eq!(url_decode("%zz"), "%zz");
    assert_eq!(url_decode("%4"), "%4");
    assert_eq!(url_decode("%41"), "A");
    assert_eq!(url_decode("%41x"), "Ax");
    // Bytes that are not UTF-8 become U+FFFD.
    assert_eq!(url_decode("%FFxx"), "\u{FFFD}xx");
    // Only two hex digits make an escape; a sign is not a digit.
    assert_eq!(url_decode("%+1"), "% 1");
    assert_eq!(url_decode("%-1x"), "%-1x");
    // A `%` whose next bytes are part of a character stays as it is.
    assert_eq!(url_decode("%1é"), "%1é");
    assert_eq!(url_decode("%课程"), "%课程");
    // Text without `%` and `+` comes back as it is.
    assert_eq!(url_decode("课程-abc"), "课程-abc");
}

#[test]
fn percent_decode_of_bytes() {
    assert_eq!(percent_decode_bytes(b"a+b%2Cc"), b"a b,c".to_vec());
    assert_eq!(percent_decode_bytes(b"plain"), b"plain".to_vec());
}

#[test]
fn parse_form_basic() {
    let fields = parse_form("username=pm1&password=pm123");
    assert_eq!(fields[0].0, "username");
    assert_eq!(fields[0].1, "pm1");
}

#[test]
fn parse_form_edge_cases() {
    let fields = parse_form("a=1&&b&c=x%3Dy=z&");
    assert_eq!(
        fields,
        vec![
            ("a".to_string(), "1".to_string()),
            ("b".to_string(), String::new()),
            ("c".to_string(), "x=y=z".to_string()),
        ]
    );
    assert!(parse_form("").is_empty());
}

#[test]
fn html_escape_works() {
    assert_eq!(html_escape("<script>"), "&lt;script&gt;");
}

#[test]
fn html_escape_all_special_characters() {
    assert_eq!(html_escape("a&b\"c'd<e>"), "a&amp;b&quot;c&#39;d&lt;e&gt;");
    assert_eq!(html_escape("中文"), "中文");
}

#[test]
fn response_headers_correct() {
    let resp = http_response(200, "text/html; charset=utf-8", "你好");
    assert!(resp.starts_with("HTTP/1.1 200 OK"));
    assert!(resp.contains("Content-Length: 6"));
    assert!(resp.contains("Cache-Control: no-store"));
}

#[test]
fn response_exact_text_and_reasons() {
    assert_eq!(
        http_response(404, "text/plain", "x"),
        "HTTP/1.1 404 Not Found\r\nContent-Type: text/plain\r\nContent-Length: 1\r\nCache-Control: no-store\r\nPragma: no-cache\r\nExpires: 0\r\nConnection: close\r\n\r\nx"
    );
    assert!(http_response(302, "t", "").starts_with("HTTP/1.1 302 Found\r\n"));
    assert!(http_response(400, "t", "").starts_with("HTTP/1.1 400 Bad Request\r\n"));
    assert!(http_response(403, "t", "").starts_with("HTTP/1.1 403 Forbidden\r\n"));
    assert!(http_response(500, "t", "").starts_with("HTTP/1.1 500 Internal Server Error\r\n"));
    assert!(http_response(201, "t", "").starts_with("HTTP/1.1 201 Internal Server Error\r\n"));
}

#[test]
fn redirect_format() {
    let r = redirect("/login");
    assert!(r.starts_with("HTTP/1.1 302 Found"));
    assert!(r.contains("Location: /login"));
}

#[test]
fn redirect_with_cookie_format() {
    assert_eq!(
        redirect_with_cookie("/", "token=abc"),
        "HTTP/1.1 302 Found\r\nLocation: /\r\nSet-Cookie: token=abc; Path=/\r\nContent-Length: 0\r\nConnection: close\r\n\r\n"
    );
}

#[test]
fn request_param_prefers_query() {
    let req = HttpRequest {
        method: "GET".into(),
        path: "/x".into(),
        query: vec![("a".into(), "1".into())],
        body: vec![("a".into(), "2".into())],
        cookie: String::new(),
    };
    assert_eq!(req.param("a"), Some("1".to_string()));
}

#[test]
fn request_param_falls_back_to_body() {
    let req = HttpRequest {
        method: "POST".into(),
        path: "/x".into(),
        query: vec![("a".into(), "1".into())],
        body: vec![("b".into(), "2".into()), ("b".into(), "3".into())],
        cookie: String::new(),
    };
    assert_eq!(req.param("b"), Some("2".to_string()));
    assert_eq!(req.param("c"), None);
}

fn lines(ls: &[&str]) -> Vec<String> {
    ls.iter().map(|l| l.to_string()).collect()
}

#[test]
fn head_end_and_headers() {
    assert!(is_head_end("\r\n"));
    assert!(is_head_end(""));
    assert!(!is_head_end("Host: x\r\n"));
    let hs = lines(&["content-LENGTH: 12\r\n", "Cookie:  token=t1 \r\n", "X: y\r\n", "\r\n", "Cookie: late\r\n"]);
    assert_eq!(read_headers(&hs), (12, "token=t1".to_string()));
    assert_eq!(read_headers(&lines(&["Content-Length: abc\r\n"])), (0, String::new()));
}

#[test]
fn parse_get_request_with_query() {
    let hs = lines(&["Host: x\r\n", "Cookie: token=abc\r\n", "\r\n"]);
    let req = parse_request("GET /tasks?a=1&b=%E8%AF%BE HTTP/1.1\r\n", &hs, b"").unwrap();
    assert_eq!(req.method, "GET");
    assert_eq!(req.path, "/tasks");
    assert_eq!(
        req.query,
        vec![("a".to_string(), "1".to_string()), ("b".to_string(), "课".to_string())]
    );
    assert!(req.body.is_empty());
    assert_eq!(req.cookie, "token=abc");
}

#[test]
fn parse_post_request_with_body() {
    let body = b"username=pm1&password=pm123";
    let hs = lines(&["Content-Length: 27\r\n", "\r\n"]);
    let req = parse_request("POST /login HTTP/1.1\r\n", &hs, body).unwrap();
    assert_eq!(req.method, "POST");
    assert_eq!(req.path, "/login");
    assert!(req.query.is_empty());
    assert_eq!(req.param("username"), Some("pm1".to_string()));
    assert_eq!(req.param("password"), Some("pm123".to_string()));
    assert_eq!(req.cookie, "");
}

#[test]
fn parse_request_rejects_incomplete_lines() {
    let none: Vec<String> = Vec::new();
    assert!(parse_request("", &none, b"").is_none());
    assert!(parse_request("   \r\n", &none, b"").is_none());
    assert!(parse_request("GET\r\n", &none, b"").is_none());
}

#[test]
fn parse_request_keeps_escapes_inside_characters() {
    let none: Vec<String> = Vec::new();
    let req = parse_request("GET /x?a=%课程&b=%41%42 HTTP/1.1\r\n", &none, b"").unwrap();
    assert_eq!(
        req.query,
        vec![("a".to_string(), "%课程".to_string()), ("b".to_string(), "AB".to_string())]
    );
}
