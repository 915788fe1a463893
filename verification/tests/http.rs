use iot_sensors::http::{http_request, status_line};

#[test]
fn request_is_framed() {
    let body = "{\"payload\":{\"light\":5}}";
    let r = http_request("/api/data", "example.com", body);
    assert_eq!(
        r.as_str(),
        "POST /api/data HTTP/1.1\r\nHost: example.com\r\nContent-Type: application/json\r\nContent-Length: 23\r\nConnection: close\r\n\r\n{\"payload\":{\"light\":5}}"
    );
}

#[test]
fn content_length_counts_bytes() {
    let r = http_request("/", "h", "é");
    assert!(r.as_str().contains("Content-Length: 2\r\n"));
    assert!(r.as_str().ends_with("\r\n\r\né"));
}

#[test]
fn request_with_empty_body() {
    let r = http_request("/p", "h", "");
    assert_eq!(
        r.as_str(),
        "POST /p HTTP/1.1\r\nHost: h\r\nContent-Type: application/json\r\nContent-Length: 0\r\nConnection: close\r\n\r\n"
    );
}

#[test]
fn overlong_path_stops_request_after_method() {
    let path = "a".repeat(600);
    let r = http_request(&path, "example.com", "{}");
    assert_eq!(r.as_str(), "POST ");
}

#[test]
fn overlong_body_is_left_out_whole() {
    let body = "b".repeat(450);
    let r = http_request("/x", "h", &body);
    assert_eq!(
        r.as_str(),
        "POST /x HTTP/1.1\r\nHost: h\r\nContent-Type: application/json\r\nContent-Length: 450\r\nConnection: close\r\n\r\n"
    );
}

#[test]
fn request_that_fills_buffer_exactly() {
    let head = "POST /x HTTP/1.1\r\nHost: h\r\nContent-Type: application/json\r\nContent-Length: 411\r\nConnection: close\r\n\r\n";
    let body = "c".repeat(512 - head.len());
    assert_eq!(body.len(), 411);
    let r = http_request("/x", "h", &body);
    assert_eq!(r.len(), 512);
    assert!(r.as_str().starts_with(head));
}

#[test]
fn status_line_is_first_line() {
    assert_eq!(
        status_line(b"HTTP/1.1 200 OK\r\nContent-Length: 0\r\n\r\n"),
        "HTTP/1.1 200 OK"
    );
    assert_eq!(status_line(b"HTTP/1.1 404 Not Found\nX: y"), "HTTP/1.1 404 Not Found");
}

#[test]
fn status_line_without_line_end() {
    assert_eq!(status_line(b"HTTP/1.1 20"), "HTTP/1.1 20");
    assert_eq!(status_line(b"a\r"), "a\r");
}

#[test]
fn status_line_of_empty_first_line() {
    assert_eq!(status_line(b"\n"), "");
    assert_eq!(status_line(b"\r\nrest"), "");
}

#[test]
fn status_line_of_nothing_or_garbage() {
    assert_eq!(status_line(b""), "?");
    assert_eq!(status_line(&[0x48, 0xff, 0x0a]), "?");
}

#[test]
fn status_line_keeps_multibyte_text() {
    assert_eq!(status_line("Grüße\r\nx".as_bytes()), "Grüße");
}
