use server_threadpool::request::route;
use server_threadpool::request::Request;

fn buffer_with(line: &[u8]) -> Vec<u8> {
    let mut buf = vec![0u8; 1024];
    buf[..line.len()].copy_from_slice(line);
    buf
}

#[test]
fn routes_root_request() {
    let buf = buffer_with(b"GET / HTTP/1.1\r\nHost: localhost\r\n\r\n");
    assert_eq!(route(&buf), Request::Root);
}

#[test]
fn routes_sleep_request() {
    let buf = buffer_with(b"GET /sleep HTTP/1.1\r\nHost: localhost\r\n\r\n");
    assert_eq!(route(&buf), Request::Sleep);
}

#[test]
fn routes_unknown_path_to_not_found() {
    let buf = buffer_with(b"GET /missing HTTP/1.1\r\n");
    assert_eq!(route(&buf), Request::NotFound);
}

#[test]
fn routes_other_method_to_not_found() {
    let buf = buffer_with(b"POST / HTTP/1.1\r\n");
    assert_eq!(route(&buf), Request::NotFound);
}

#[test]
fn routes_empty_buffer_to_not_found() {
    assert_eq!(route(&[]), Request::NotFound);
}

#[test]
fn routes_truncated_line_to_not_found() {
    assert_eq!(route(b"GET / HTTP"), Request::NotFound);
}

#[test]
fn recognized_requests_are_served() {
    assert_eq!(Request::Root.status_line(), "HTTP/1.1 200 OK");
    assert_eq!(Request::Root.filename(), "index.html");
    assert_eq!(Request::Sleep.status_line(), "HTTP/1.1 200 OK");
    assert_eq!(Request::Sleep.filename(), "index.html");
}

#[test]
fn unknown_request_gets_not_found_page() {
    assert_eq!(Request::NotFound.status_line(), "HTTP/1.1 404 NOT FOUND");
    assert_eq!(Request::NotFound.filename(), "404.html");
}

#[test]
fn only_sleep_request_delays() {
    assert_eq!(Request::Sleep.delay_seconds(), 5);
    assert_eq!(Request::Root.delay_seconds(), 0);
    assert_eq!(Request::NotFound.delay_seconds(), 0);
}
