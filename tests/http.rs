use std::collections::HashMap;

use http_server::bytes::{parse_decimal, push_decimal, trimmed};
use http_server::reader::{read_step, ReadStep};
use http_server::request::{parse_request_line, Method, Request, RequestError};
use http_server::response::{ContentType, Response, Status};
use http_server::router::{
    dispatch, file_create_response, file_read_response, route, Action, Route,
};

fn request(raw: &[u8]) -> Request {
    match read_step(raw, false) {
        ReadStep::Complete(r) => r,
        ReadStep::NeedMore => panic!("request incomplete"),
        ReadStep::Failed(e) => panic!("request failed: {:?}", e),
    }
}

fn respond(raw: &[u8]) -> Response {
    match dispatch(&request(raw)) {
        Action::Respond(r) => r,
        _ => panic!("expected a response"),
    }
}

fn wire(raw: &[u8]) -> Vec<u8> {
    respond(raw).to_bytes()
}

// A file store standing in for the serving root.
fn serve(store: &mut HashMap<Vec<u8>, Vec<u8>>, raw: &[u8]) -> Response {
    match dispatch(&request(raw)) {
        Action::Respond(r) => r,
        Action::ReadFile(name) => file_read_response(store.get(&name).cloned()),
        Action::WriteFile(name, contents) => {
            store.insert(name, contents);
            file_create_response(true)
        }
        Action::Close => panic!("connection closed"),
    }
}

#[test]
fn echo_single_segment() {
    assert_eq!(
        wire(b"GET /echo/abc HTTP/1.1\r\nHost: localhost\r\n\r\n"),
        b"HTTP/1.1 200 OK\r\nContent-Type: text/plain\r\nContent-Length: 3\r\n\r\nabc".to_vec()
    );
}

#[test]
fn echo_longer_text_length() {
    let r = respond(b"GET /echo/hello-world-0123456789 HTTP/1.1\r\n\r\n");
    assert_eq!(r.status, Status::Success);
    assert_eq!(r.content_type, Some(ContentType::TextPlain));
    assert_eq!(r.body, b"hello-world-0123456789".to_vec());
    let bytes = r.to_bytes();
    let text = String::from_utf8(bytes).unwrap();
    assert!(text.contains("Content-Length: 22\r\n"));
}

#[test]
fn echo_multi_segment() {
    let r = respond(b"GET /echo/a/b/c HTTP/1.1\r\n\r\n");
    assert_eq!(r.body, b"a/b/c".to_vec());
}

#[test]
fn echo_empty() {
    let r = respond(b"GET /echo/ HTTP/1.1\r\n\r\n");
    assert_eq!(r.body, Vec::<u8>::new());
    assert_eq!(
        r.to_bytes(),
        b"HTTP/1.1 200 OK\r\nContent-Type: text/plain\r\nContent-Length: 0\r\n\r\n".to_vec()
    );
    let r = respond(b"GET /echo HTTP/1.1\r\n\r\n");
    assert_eq!(r.body, Vec::<u8>::new());
}

#[test]
fn echo_keeps_percent_encoding() {
    let r = respond(b"GET /echo/a%20b HTTP/1.1\r\n\r\n");
    assert_eq!(r.body, b"a%20b".to_vec());
}

#[test]
fn root_is_ok() {
    assert_eq!(wire(b"GET / HTTP/1.1\r\n\r\n"), b"HTTP/1.1 200 OK\r\n\r\n".to_vec());
    assert_eq!(
        wire(b"GET / HTTP/1.1\r\nHost: x\r\nUser-Agent: y\r\nAccept: */*\r\n\r\n"),
        b"HTTP/1.1 200 OK\r\n\r\n".to_vec()
    );
}

#[test]
fn post_root_is_not_found() {
    assert_eq!(respond(b"POST / HTTP/1.1\r\n\r\n").status, Status::NotFound);
}

#[test]
fn user_agent_reflected() {
    assert_eq!(
        wire(b"GET /user-agent HTTP/1.1\r\nHost: localhost\r\nUser-Agent: test-client/1.0\r\n\r\n"),
        b"HTTP/1.1 200 OK\r\nContent-Type: text/plain\r\nContent-Length: 15\r\n\r\ntest-client/1.0"
            .to_vec()
    );
}

#[test]
fn user_agent_name_ignores_case() {
    let r = respond(b"GET /user-agent HTTP/1.1\r\nuser-agent:   curl/8.0  \r\n\r\n");
    assert_eq!(r.body, b"curl/8.0".to_vec());
}

#[test]
fn user_agent_absent_closes() {
    let req = request(b"GET /user-agent HTTP/1.1\r\nHost: x\r\n\r\n");
    assert!(matches!(dispatch(&req), Action::Close));
}

#[test]
fn file_write_then_read() {
    let mut store = HashMap::new();
    let created = serve(
        &mut store,
        b"POST /files/foo.txt HTTP/1.1\r\nContent-Length: 5\r\n\r\nhello",
    );
    assert_eq!(created.to_bytes(), b"HTTP/1.1 201 Created\r\n\r\n".to_vec());
    let read = serve(&mut store, b"GET /files/foo.txt HTTP/1.1\r\n\r\n");
    assert_eq!(read.status, Status::Success);
    assert_eq!(read.content_type, Some(ContentType::OctetStream));
    assert_eq!(read.body, b"hello".to_vec());
    assert_eq!(
        read.to_bytes(),
        b"HTTP/1.1 200 OK\r\nContent-Type: application/octet-stream\r\nContent-Length: 5\r\n\r\nhello"
            .to_vec()
    );
    serve(&mut store, b"POST /files/foo.txt HTTP/1.1\r\nContent-Length: 3\r\n\r\nbye");
    let again = serve(&mut store, b"GET /files/foo.txt HTTP/1.1\r\n\r\n");
    assert_eq!(again.body, b"bye".to_vec());
}

#[test]
fn file_missing_is_not_found() {
    let req = request(b"GET /files/doesnotexist HTTP/1.1\r\n\r\n");
    match dispatch(&req) {
        Action::ReadFile(name) => assert_eq!(name, b"doesnotexist".to_vec()),
        _ => panic!("expected a file read"),
    }
    assert_eq!(
        file_read_response(None).to_bytes(),
        b"HTTP/1.1 404 Not Found\r\n\r\n".to_vec()
    );
}

#[test]
fn file_create_without_root_is_not_found() {
    assert_eq!(file_create_response(false).status, Status::NotFound);
    assert_eq!(file_create_response(true).status, Status::Created);
}

#[test]
fn file_name_outside_root_is_not_found() {
    assert_eq!(respond(b"GET /files/.. HTTP/1.1\r\n\r\n").status, Status::NotFound);
    assert_eq!(respond(b"GET /files/. HTTP/1.1\r\n\r\n").status, Status::NotFound);
    assert_eq!(respond(b"GET /files/ HTTP/1.1\r\n\r\n").status, Status::NotFound);
    assert_eq!(respond(b"GET /files HTTP/1.1\r\n\r\n").status, Status::NotFound);
    assert_eq!(respond(b"POST /files/.. HTTP/1.1\r\n\r\n").status, Status::NotFound);
}

#[test]
fn file_name_is_next_segment() {
    assert!(matches!(route(Method::Get, b"/files/a/b"), Route::ReadFile(n) if n == b"a".to_vec()));
    assert!(matches!(route(Method::Post, b"/files/x.bin"), Route::CreateFile(n) if n == b"x.bin".to_vec()));
}

#[test]
fn unknown_path_is_not_found() {
    assert_eq!(
        wire(b"GET /unknown/path HTTP/1.1\r\n\r\n"),
        b"HTTP/1.1 404 Not Found\r\n\r\n".to_vec()
    );
}

#[test]
fn wrong_method_is_not_found() {
    assert_eq!(respond(b"POST /echo/abc HTTP/1.1\r\n\r\n").status, Status::NotFound);
    assert_eq!(respond(b"DELETE /files/a HTTP/1.1\r\n\r\n").status, Status::NotFound);
    assert_eq!(respond(b"get /echo/abc HTTP/1.1\r\n\r\n").status, Status::NotFound);
}

#[test]
fn short_body_fails_at_close() {
    let raw = b"POST /files/a HTTP/1.1\r\nContent-Length: 10\r\n\r\nhello";
    assert!(matches!(read_step(raw, false), ReadStep::NeedMore));
    assert!(matches!(read_step(raw, true), ReadStep::Failed(RequestError::ReadError)));
}

#[test]
fn body_read_exactly() {
    let req = request(b"POST /files/a HTTP/1.1\r\ncontent-length: 3\r\n\r\nabcdef");
    assert_eq!(req.body, b"abc".to_vec());
    assert_eq!(req.method, Method::Post);
    assert_eq!(req.path, b"/files/a".to_vec());
    assert_eq!(req.headers, vec![b"content-length: 3".to_vec()]);
    assert_eq!(req.header(b"Content-Length"), Some(b"3".to_vec()));
    assert_eq!(req.header(b"Host"), None);
}

#[test]
fn body_without_length_is_empty() {
    let req = request(b"POST /files/a HTTP/1.1\r\nHost: x\r\n\r\nabc");
    assert_eq!(req.body, Vec::<u8>::new());
    let req = request(b"POST /files/a HTTP/1.1\r\nContent-Length: x1\r\n\r\nabc");
    assert_eq!(req.body, Vec::<u8>::new());
}

#[test]
fn head_needs_more() {
    assert!(matches!(read_step(b"", false), ReadStep::NeedMore));
    assert!(matches!(read_step(b"GET / HTTP/1.1\r\nHost: x\r\n", false), ReadStep::NeedMore));
    assert!(matches!(read_step(b"GET / HTTP/1.1\r\n", true), ReadStep::Failed(RequestError::ReadError)));
    assert!(matches!(read_step(b"", true), ReadStep::Failed(RequestError::ReadError)));
}

#[test]
fn bare_line_feeds_accepted() {
    let req = request(b"GET /echo/x HTTP/1.1\nHost: y\n\n");
    assert_eq!(req.path, b"/echo/x".to_vec());
    assert_eq!(req.headers, vec![b"Host: y".to_vec()]);
}

#[test]
fn malformed_request_line() {
    assert!(matches!(
        read_step(b"GET\r\n\r\n", true),
        ReadStep::Failed(RequestError::MalformedRequestLine)
    ));
    assert!(matches!(
        read_step(b"\r\n", false),
        ReadStep::Failed(RequestError::MalformedRequestLine)
    ));
    assert!(matches!(parse_request_line(b"  "), Err(RequestError::MalformedRequestLine)));
}

#[test]
fn request_line_tokens() {
    match parse_request_line(b"  POST\t/files/x   HTTP/1.1") {
        Ok((m, p)) => {
            assert_eq!(m, Method::Post);
            assert_eq!(p, b"/files/x".to_vec());
        }
        Err(e) => panic!("{:?}", e),
    }
    match parse_request_line(b"PUT /a") {
        Ok((m, p)) => {
            assert_eq!(m, Method::Other);
            assert_eq!(p, b"/a".to_vec());
        }
        Err(e) => panic!("{:?}", e),
    }
}

#[test]
fn decimal_parse() {
    assert_eq!(parse_decimal(b"0"), Some(0));
    assert_eq!(parse_decimal(b"12345"), Some(12345));
    assert_eq!(parse_decimal(b""), None);
    assert_eq!(parse_decimal(b"12a"), None);
    assert_eq!(parse_decimal(b"-1"), None);
    assert_eq!(parse_decimal(b"99999999999999999999999999"), None);
}

#[test]
fn decimal_print() {
    for (n, s) in [(0usize, "0"), (7, "7"), (10, "10"), (12345, "12345")] {
        let mut out = b"x".to_vec();
        push_decimal(n, &mut out);
        assert_eq!(out, format!("x{}", s).into_bytes());
    }
}

#[test]
fn trimming() {
    assert_eq!(trimmed(b"  a b \t", 0, 7), b"a b".to_vec());
    assert_eq!(trimmed(b"xx   ", 2, 5), Vec::<u8>::new());
    assert_eq!(trimmed(b"abc", 1, 2), b"b".to_vec());
}

#[test]
fn response_with_body_and_no_type() {
    let r = Response { status: Status::Success, content_type: None, body: b"ab".to_vec() };
    assert_eq!(r.to_bytes(), b"HTTP/1.1 200 OK\r\nContent-Length: 2\r\n\r\nab".to_vec());
    assert_eq!(Response::empty(Status::Created).to_bytes(), b"HTTP/1.1 201 Created\r\n\r\n".to_vec());
}
