use rusttp::{build, not_found, ContentType, Method, Request, Response, ServerBuilder};

type GetHandler = fn() -> Response;
type PostHandler = fn(Request) -> Response;

fn greet() -> Response {
    Response::new(b"Hello, World!".to_vec()).set_content_type(ContentType::Html).build()
}

fn first() -> Response {
    Response::new(b"first".to_vec()).build()
}

fn second() -> Response {
    Response::new(b"second".to_vec()).build()
}

fn echo(req: Request) -> Response {
    let content = req.body.unwrap_or_default();
    Response::new(content).build()
}

fn request(method: Method, path: &[u8]) -> Request {
    Request { method, path: path.to_vec(), headers: Vec::new(), body: None }
}

fn router() -> ServerBuilder<GetHandler, PostHandler> {
    build::<GetHandler, PostHandler>(String::from("127.0.0.1:8000"))
}

#[test]
fn dispatch_round_trip() {
    let b = router().get(b"/greet".to_vec(), greet);
    let resp = b.route(request(Method::GET, b"/greet"));
    assert!(resp.headers.iter().any(|h| h.as_slice() == b"Content-Type: text/html"));
    let out = resp.send();
    assert!(out.ends_with(b"Hello, World!"));
}

#[test]
fn dispatch_miss_yields_not_found() {
    let b = router().get(b"/greet".to_vec(), greet);
    let resp = b.route(request(Method::GET, b"/missing"));
    assert_eq!(resp.headers[0], b"HTTP/1.1 404 Not Found".to_vec());
    assert!(resp.content.is_empty());
}

#[test]
fn method_isolation() {
    let b = router().post(b"/post".to_vec(), echo);
    let resp = b.route(request(Method::GET, b"/post"));
    assert_eq!(resp.headers[0], b"HTTP/1.1 404 Not Found".to_vec());
    assert!(resp.content.is_empty());
}

#[test]
fn post_handler_receives_the_request() {
    let b = router().post(b"/post".to_vec(), echo);
    let mut req = request(Method::POST, b"/post");
    req.body = Some(b"payload".to_vec());
    let resp = b.route(req);
    assert_eq!(resp.content, b"payload".to_vec());
}

#[test]
fn unsupported_methods_yield_not_found() {
    let b = router().get(b"/".to_vec(), greet).post(b"/".to_vec(), echo);
    for m in vec![Method::PUT, Method::DELETE, Method::OPTIONS, Method::UNKNOWN] {
        let resp = b.route(request(m, b"/"));
        assert_eq!(resp.headers[0], b"HTTP/1.1 404 Not Found".to_vec());
    }
}

#[test]
fn last_registration_wins() {
    let b = router().get(b"/a".to_vec(), first).get(b"/a".to_vec(), second);
    let resp = b.route(request(Method::GET, b"/a"));
    assert_eq!(resp.content, b"second".to_vec());
}

#[test]
fn not_found_response_shape() {
    let r = not_found();
    assert_eq!(r.headers.len(), 3);
    assert_eq!(r.headers[0], b"HTTP/1.1 404 Not Found".to_vec());
    assert_eq!(r.headers[1], b"Content-Type: text/plain".to_vec());
    assert_eq!(r.headers[2], b"Content-Length: 0".to_vec());
    assert!(r.content.is_empty());
}

#[test]
fn parse_then_route_round_trip() {
    let b = router().get(b"/greet".to_vec(), greet);
    let req = rusttp::parser::parse_request(b"GET /greet HTTP/1.1\r\nHost: x\r\n\r\n").unwrap();
    let resp = b.route(req);
    let out = resp.send();
    assert!(out.starts_with(b"HTTP/1.1 200 OK\r\n"));
    assert!(out.ends_with(b"\r\n\r\nHello, World!"));
}
