use rusttp::{ContentType, Response, Status};

fn headers_contain(headers: &Vec<Vec<u8>>, line: &[u8]) -> bool {
    headers.iter().any(|h| h.as_slice() == line)
}

#[test]
fn content_length_matches_content() {
    let r = Response::new(b"Hello, World!".to_vec()).build();
    assert!(headers_contain(&r.headers, b"Content-Length: 13"));
    assert_eq!(r.content, b"Hello, World!".to_vec());
}

#[test]
fn content_length_zero_for_empty_content() {
    let r = Response::new(Vec::new()).build();
    assert!(headers_contain(&r.headers, b"Content-Length: 0"));
}

#[test]
fn mime_table_fixed() {
    let cases: Vec<(ContentType, &[u8])> = vec![
        (ContentType::Text, b"Content-Type: text/plain"),
        (ContentType::Html, b"Content-Type: text/html"),
        (ContentType::Css, b"Content-Type: text/css"),
        (ContentType::Js, b"Content-Type: text/javascript"),
        (ContentType::Json, b"Content-Type: application/json"),
    ];
    for (ct, line) in cases {
        let r = Response::new(b"x".to_vec()).set_content_type(ct).build();
        assert!(headers_contain(&r.headers, line));
    }
}

#[test]
fn unset_content_type_defaults_to_text_plain() {
    let r = Response::new(b"x".to_vec()).build();
    assert!(headers_contain(&r.headers, b"Content-Type: text/plain"));
    assert_eq!(r.content_type, b"text/plain".to_vec());
}

#[test]
fn header_block_order() {
    let r = Response::new(b"abc".to_vec())
        .add_header(b"X-One: 1".to_vec())
        .add_header(b"X-Two: 2".to_vec())
        .build();
    assert_eq!(r.headers.len(), 5);
    assert_eq!(r.headers[0], b"HTTP/1.1 200 OK".to_vec());
    assert_eq!(r.headers[1], b"X-One: 1".to_vec());
    assert_eq!(r.headers[2], b"X-Two: 2".to_vec());
    assert_eq!(r.headers[3], b"Content-Type: text/plain".to_vec());
    assert_eq!(r.headers[4], b"Content-Length: 3".to_vec());
}

#[test]
fn status_line_strings() {
    let cases: Vec<(Status, &[u8])> = vec![
        (Status::OK, b"HTTP/1.1 200 OK"),
        (Status::NotFound, b"HTTP/1.1 404 Not Found"),
        (Status::BadRequest, b"HTTP/1.1 400 Bad Request"),
        (Status::InternalServerError, b"HTTP/1.1 500 Internal Server Error"),
        (Status::NotImplemented, b"HTTP/1.1 501 Not Implemented"),
    ];
    for (st, line) in cases {
        let r = Response::new(Vec::new()).set_status_code(st).build();
        assert_eq!(r.headers[0], line.to_vec());
        assert_eq!(r.status_code, st);
    }
}

#[test]
fn send_serializes_exactly() {
    let r = Response::new(b"hi".to_vec()).build();
    let out = r.send();
    let expected: &[u8] = b"HTTP/1.1 200 OK\r\nContent-Type: text/plain\r\nContent-Length: 2\r\n\r\nhi";
    assert_eq!(out, expected.to_vec());
}

#[test]
fn build_is_idempotent() {
    let make = || {
        Response::new(b"same content".to_vec())
            .set_content_type(ContentType::Json)
            .set_status_code(Status::OK)
            .add_header(b"X-Marker: yes".to_vec())
            .build()
            .send()
    };
    let first = make();
    let second = make();
    assert_eq!(first, second);
}

#[test]
fn large_content_length_rendered_in_decimal() {
    let content = vec![0x61u8; 2048];
    let r = Response::new(content).build();
    assert!(r.headers.iter().any(|h| h.as_slice() == b"Content-Length: 2048"));
}
