use ksud::http::{parse_http_request, HttpError, HttpRequest, ReadStep, RequestReader, MAX_HEAD};

/// Hands the chunks in until the request is read or given up.
fn feed(chunks: &[&[u8]]) -> Option<Result<HttpRequest, HttpError>> {
    let mut reader = RequestReader::new();
    for chunk in chunks {
        match parse_http_request(reader, chunk) {
            ReadStep::More(next) => reader = next,
            ReadStep::Done(r) => return Some(r),
        }
    }
    None
}

fn read(bytes: &[u8]) -> HttpRequest {
    match feed(&[bytes]) {
        Some(Ok(request)) => request,
        _ => panic!("no request"),
    }
}

fn failure(chunks: &[&[u8]]) -> HttpError {
    match feed(chunks) {
        Some(Err(e)) => e,
        _ => panic!("no error"),
    }
}

fn header(request: &HttpRequest, name: &str) -> Option<String> {
    request.headers.get(name).cloned()
}

#[test]
fn a_request_is_read() {
    let request = read(
        b"PATCH /api/v1/features/sulog?x=1 HTTP/1.1\r\nHost: localhost\r\nContent-Type: \
          application/json\r\nContent-Length: 11\r\n\r\n{\"value\":1}",
    );
    assert_eq!(request.method, "PATCH");
    assert_eq!(request.path, "/api/v1/features/sulog?x=1");
    assert_eq!(header(&request, "host"), Some("localhost".to_string()));
    assert_eq!(header(&request, "content-type"), Some("application/json".to_string()));
    assert_eq!(header(&request, "content-length"), Some("11".to_string()));
    assert_eq!(header(&request, "Host"), None);
    assert_eq!(request.body, b"{\"value\":1}");
}

#[test]
fn header_names_ignore_case_and_space() {
    let request = read(b"GET / HTTP/1.1\r\n  AuthoriZation \t: \t Bearer x y \r\n\r\n");
    assert_eq!(header(&request, "authorization"), Some("Bearer x y".to_string()));
}

#[test]
fn a_later_header_replaces_an_earlier_one() {
    let request = read(b"GET / HTTP/1.1\r\nA: 1\r\na: 2\r\nno colon here\r\nb:\r\nc: x:y\r\n\r\n");
    assert_eq!(header(&request, "a"), Some("2".to_string()));
    assert_eq!(header(&request, "b"), Some(String::new()));
    assert_eq!(header(&request, "c"), Some("x:y".to_string()));
    assert_eq!(header(&request, "no colon here"), None);
}

#[test]
fn headers_may_hold_any_utf8() {
    let request = read("GET /häß HTTP/1.1\r\nX: \u{1f600}\r\n\r\n".as_bytes());
    assert_eq!(request.path, "/häß");
    assert_eq!(header(&request, "x"), Some("\u{1f600}".to_string()));
}

#[test]
fn a_body_ends_where_announced() {
    let request = read(b"POST /x HTTP/1.1\r\nContent-Length: 3\r\n\r\nabcdef");
    assert_eq!(request.body, b"abc");
}

#[test]
fn no_length_means_no_body() {
    for head in ["", "Content-Length: x\r\n", "Content-Length: -1\r\n", "Content-Length: 3 4\r\n"] {
        let text = format!("POST /x HTTP/1.1\r\n{}\r\nabc", head);
        assert_eq!(read(text.as_bytes()).body, b"");
    }
    assert_eq!(read(b"POST /x HTTP/1.1\r\nContent-Length: +2\r\n\r\nabc").body, b"ab");
}

#[test]
fn a_request_may_come_in_pieces() {
    let text = b"POST /x HTTP/1.1\r\nContent-Length: 4\r\n\r\nabcd";
    for size in 1..text.len() {
        let chunks: Vec<&[u8]> = text.chunks(size).collect();
        match feed(&chunks) {
            Some(Ok(request)) => {
                assert_eq!(request.method, "POST");
                assert_eq!(request.path, "/x");
                assert_eq!(request.body, b"abcd");
            }
            _ => panic!("no request"),
        }
        assert!(feed(&chunks[..chunks.len() - 1]).is_none());
    }
}

#[test]
fn an_early_end_is_an_error() {
    assert_eq!(failure(&[b""]), HttpError::ClosedBeforeRequest);
    assert_eq!(failure(&[b"GET / HTTP/1.1\r\n", b""]), HttpError::ClosedBeforeRequest);
    assert_eq!(
        failure(&[b"POST / HTTP/1.1\r\nContent-Length: 2\r\n\r\na", b""]),
        HttpError::ClosedBeforeBody
    );
}

#[test]
fn pieces_before_the_close_make_no_difference() {
    let texts: [&[u8]; 4] = [
        b"POST /x HTTP/1.1\r\nContent-Length: 4\r\n\r\nabcd",
        b"POST /x HTTP/1.1\r\nContent-Length: 5\r\n\r\nabcd",
        b"POST /x HTTP/1.1\r\nContent-Length",
        b"POST\r\n\r\nmore",
    ];
    for text in texts {
        let result = |size: usize| {
            let mut chunks: Vec<&[u8]> = text.chunks(size).collect();
            chunks.push(b"");
            feed(&chunks).unwrap().map(|r| (r.method, r.path, r.body))
        };
        for size in 1..text.len() {
            assert_eq!(result(size), result(text.len()));
        }
    }
}

#[test]
fn endless_headers_are_an_error() {
    let long = vec![b'a'; MAX_HEAD];
    assert!(feed(&[&long]).is_none());
    assert_eq!(failure(&[&long, b"a"]), HttpError::HeadersTooLarge);
    let mut whole = b"GET / HTTP/1.1\r\nX: ".to_vec();
    whole.extend_from_slice(&long);
    whole.extend_from_slice(b"\r\n\r\n");
    assert_eq!(header(&read(&whole), "x").map(|v| v.len()), Some(MAX_HEAD));
}

#[test]
fn headers_that_are_not_utf8_are_an_error() {
    assert_eq!(failure(&[b"GET /\xff HTTP/1.1\r\n\r\n"]), HttpError::InvalidHeaders);
}

#[test]
fn a_request_line_without_a_path_is_an_error() {
    assert_eq!(failure(&[b"\r\n\r\n"]), HttpError::MissingMethod);
    assert_eq!(failure(&[b"  \r\nHost: x\r\n\r\n"]), HttpError::MissingMethod);
    assert_eq!(failure(&[b"GET\r\n\r\n"]), HttpError::MissingPath);
}

#[test]
fn a_body_has_a_limit() {
    assert_eq!(
        failure(&[b"POST / HTTP/1.1\r\nContent-Length: 2097153\r\n\r\n"]),
        HttpError::BodyTooLarge
    );
    assert!(feed(&[b"POST / HTTP/1.1\r\nContent-Length: 2097152\r\n\r\n"]).is_none());
}

#[test]
fn errors_have_messages() {
    let expected = [
        (HttpError::ClosedBeforeRequest, "connection closed before request"),
        (HttpError::HeadersTooLarge, "request headers too large"),
        (HttpError::InvalidHeaders, "invalid request headers"),
        (HttpError::MissingMethod, "missing method"),
        (HttpError::MissingPath, "missing path"),
        (HttpError::BodyTooLarge, "request body too large"),
        (HttpError::ClosedBeforeBody, "connection closed before body"),
    ];
    for (e, text) in expected {
        assert_eq!(e.message(), text);
    }
}
