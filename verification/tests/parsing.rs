use rusttp::parser::parse_request;
use rusttp::Method;

#[test]
fn parse_simple_get() {
    let raw = b"GET /test HTTP/1.1\r\nHost: x\r\n\r\n";
    let req = parse_request(raw).expect("well-formed request must parse");
    assert_eq!(req.method, Method::GET);
    assert_eq!(req.path, b"/test".to_vec());
    assert_eq!(req.headers, vec![b"Host: x".to_vec()]);
    assert!(req.body.is_none());
}

#[test]
fn parse_rejects_single_token_request_line() {
    assert!(parse_request(b"GET\r\nHost: x\r\n\r\n").is_none());
}

#[test]
fn parse_rejects_empty_input() {
    assert!(parse_request(b"").is_none());
}

#[test]
fn parse_rejects_blank_first_line() {
    assert!(parse_request(b"\r\nGET / HTTP/1.1\r\n\r\n").is_none());
}

#[test]
fn parse_method_tokens() {
    let cases: Vec<(&[u8], Method)> = vec![
        (b"GET / HTTP/1.1\r\n\r\n", Method::GET),
        (b"POST / HTTP/1.1\r\n\r\n", Method::POST),
        (b"PUT / HTTP/1.1\r\n\r\n", Method::PUT),
        (b"DELETE / HTTP/1.1\r\n\r\n", Method::DELETE),
        (b"OPTIONS / HTTP/1.1\r\n\r\n", Method::OPTIONS),
        (b"PATCH / HTTP/1.1\r\n\r\n", Method::UNKNOWN),
        (b"get / HTTP/1.1\r\n\r\n", Method::UNKNOWN),
    ];
    for (raw, m) in cases {
        let req = parse_request(raw).expect("two tokens are present");
        assert_eq!(req.method, m);
        assert_eq!(req.path, b"/".to_vec());
    }
}

#[test]
fn parse_post_keeps_leftover_as_body() {
    let req = parse_request(b"POST /p HTTP/1.1\r\nHost: x\r\n\r\nhello").unwrap();
    assert_eq!(req.method, Method::POST);
    assert_eq!(req.body, Some(b"hello".to_vec()));
}

#[test]
fn parse_get_leftover_is_not_a_body() {
    let req = parse_request(b"GET /p HTTP/1.1\r\n\r\nleftover").unwrap();
    assert!(req.body.is_none());
}

#[test]
fn parse_post_without_leftover_has_no_body() {
    let req = parse_request(b"POST /p HTTP/1.1\r\n\r\n").unwrap();
    assert!(req.body.is_none());
}

#[test]
fn parse_headers_collected_until_end_without_blank_line() {
    let req = parse_request(b"GET / HTTP/1.1\r\nA: 1\r\nB: 2").unwrap();
    assert_eq!(req.headers, vec![b"A: 1".to_vec(), b"B: 2".to_vec()]);
    assert!(req.body.is_none());
}

#[test]
fn parse_accepts_bare_newlines() {
    let req = parse_request(b"GET /x HTTP/1.1\nHost: y\n\n").unwrap();
    assert_eq!(req.path, b"/x".to_vec());
    assert_eq!(req.headers, vec![b"Host: y".to_vec()]);
}

#[test]
fn parse_double_space_gives_empty_path_token() {
    let req = parse_request(b"GET  /x HTTP/1.1\r\n\r\n").unwrap();
    assert_eq!(req.method, Method::GET);
    assert_eq!(req.path, Vec::<u8>::new());
}

#[test]
fn parse_path_runs_to_line_end_without_version() {
    let req = parse_request(b"GET /only\r\n\r\n").unwrap();
    assert_eq!(req.path, b"/only".to_vec());
}
