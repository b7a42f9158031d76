use rust_lang_book::server::{response, route, starts_with, Route};

#[test]
fn request_for_the_root_gets_the_greeting() {
    let request = b"GET / HTTP/1.1\r\nHost: localhost:7878\r\nAccept: */*\r\n\r\n";
    assert_eq!(route(request), Route::Hello);
    assert_eq!(Route::Hello.status_line(), "HTTP/1.1 200 OK");
    assert_eq!(Route::Hello.file_name(), "hello.html");
    assert_eq!(Route::Hello.delay_seconds(), 0);
}

#[test]
fn request_for_sleep_gets_the_greeting_after_five_seconds() {
    let request = b"GET /sleep HTTP/1.1\r\nHost: localhost:7878\r\n\r\n";
    assert_eq!(route(request), Route::SlowHello);
    assert_eq!(Route::SlowHello.status_line(), "HTTP/1.1 200 OK");
    assert_eq!(Route::SlowHello.file_name(), "hello.html");
    assert_eq!(Route::SlowHello.delay_seconds(), 5);
}

#[test]
fn any_other_request_is_not_found() {
    assert_eq!(route(b"GET /other HTTP/1.1\r\n\r\n"), Route::NotFound);
    assert_eq!(route(b"POST / HTTP/1.1\r\n\r\n"), Route::NotFound);
    assert_eq!(route(b"GET / HTTP/1.0\r\n\r\n"), Route::NotFound);
    assert_eq!(route(b"GET / HTTP/1.1"), Route::NotFound);
    assert_eq!(route(b" GET / HTTP/1.1\r\n"), Route::NotFound);
    assert_eq!(route(b""), Route::NotFound);
    assert_eq!(Route::NotFound.status_line(), "HTTP/1.1 404 NOT FOUND");
    assert_eq!(Route::NotFound.file_name(), "404.html");
    assert_eq!(Route::NotFound.delay_seconds(), 0);
}

#[test]
fn request_is_routed_from_a_zero_padded_buffer() {
    let mut buffer = [0u8; 1024];
    let request = b"GET / HTTP/1.1\r\nUser-Agent: curl/7.64.1\r\n\r\n";
    buffer[..request.len()].copy_from_slice(request);
    assert_eq!(route(&buffer), Route::Hello);
    assert_eq!(route(&[0u8; 1024]), Route::NotFound);
}

#[test]
fn prefix_test_is_exact() {
    assert!(starts_with(b"abc", b""));
    assert!(starts_with(b"abc", b"ab"));
    assert!(starts_with(b"abc", b"abc"));
    assert!(!starts_with(b"abc", b"abcd"));
    assert!(!starts_with(b"abc", b"b"));
    assert!(!starts_with(b"", b"a"));
}

#[test]
fn response_frames_the_contents_with_their_length() {
    assert_eq!(
        response("HTTP/1.1 200 OK", "<html>hi</html>"),
        "HTTP/1.1 200 OK\r\nContent-Length: 15\r\n\r\n<html>hi</html>"
    );
    assert_eq!(
        response("HTTP/1.1 404 NOT FOUND", ""),
        "HTTP/1.1 404 NOT FOUND\r\nContent-Length: 0\r\n\r\n"
    );
}

#[test]
fn response_counts_bytes_not_characters() {
    assert_eq!(
        response("HTTP/1.1 200 OK", "h\u{e9}llo"),
        "HTTP/1.1 200 OK\r\nContent-Length: 6\r\n\r\nh\u{e9}llo"
    );
}
