use bytes::BytesMut;
use http_proxy::http_parser::parse_http_request;
use http_proxy::http_parser::request_from_raw;
use http_proxy::http_parser::ParseFault;
use http_proxy::http_parser::RawHead;
use http_proxy::http_parser::MAX_HEADERS;

fn head_with_headers(count: usize) -> Vec<u8> {
    let mut head = b"GET / HTTP/1.1\r\n".to_vec();
    for i in 0..count {
        head.extend_from_slice(format!("X-{}: {}\r\n", i, i).as_bytes());
    }
    head.extend_from_slice(b"\r\n");
    head
}

#[test]
fn complete_head_is_taken_off_the_buffer() {
    let mut buffer = BytesMut::from(&b"GET /x HTTP/1.1\r\nHost: a\r\n\r\nbody"[..]);
    let request = parse_http_request(&mut buffer).unwrap().unwrap();
    assert_eq!(request.method, "GET");
    assert_eq!(request.path, "/x");
    assert_eq!(request.version, 1);
    assert_eq!(request.headers, vec![("Host".to_string(), "a".to_string())]);
    assert_eq!(&buffer[..], b"body");
}

#[test]
fn complete_head_without_body_empties_the_buffer() {
    let mut buffer = BytesMut::from(&b"POST /submit HTTP/1.0\r\n\r\n"[..]);
    let request = parse_http_request(&mut buffer).unwrap().unwrap();
    assert_eq!(request.method, "POST");
    assert_eq!(request.path, "/submit");
    assert_eq!(request.version, 0);
    assert!(request.headers.is_empty());
    assert!(buffer.is_empty());
}

#[test]
fn prefix_of_a_head_is_incomplete_and_left_alone() {
    let mut buffer = BytesMut::from(&b"GET /x HTTP/1.1\r\nHost: a\r\n"[..]);
    assert_eq!(parse_http_request(&mut buffer), Ok(None));
    assert_eq!(&buffer[..], b"GET /x HTTP/1.1\r\nHost: a\r\n");
}

#[test]
fn every_proper_prefix_of_a_head_is_incomplete() {
    let head = b"GET /x HTTP/1.1\r\nHost: a\r\nAccept: */*\r\n\r\n";
    for cut in 0..head.len() {
        let mut buffer = BytesMut::from(&head[..cut]);
        assert_eq!(parse_http_request(&mut buffer), Ok(None), "cut at {}", cut);
        assert_eq!(&buffer[..], &head[..cut]);
    }
}

#[test]
fn empty_buffer_is_incomplete() {
    let mut buffer = BytesMut::new();
    assert_eq!(parse_http_request(&mut buffer), Ok(None));
    assert!(buffer.is_empty());
}

#[test]
fn garbage_is_malformed() {
    let mut buffer = BytesMut::from(&b"not a request\r\n\r\n"[..]);
    assert_eq!(parse_http_request(&mut buffer), Err(ParseFault::Version));
    assert_eq!(&buffer[..], b"not a request\r\n\r\n");
}

#[test]
fn missing_version_is_malformed() {
    let mut buffer = BytesMut::from(&b"GET /x\r\nHost: a\r\n\r\n"[..]);
    assert_eq!(parse_http_request(&mut buffer), Err(ParseFault::Token));
}

#[test]
fn each_fault_is_told_apart() {
    let cases: Vec<(&[u8], ParseFault)> = vec![
        (b"GET / HTTP/1.1\r\nBad Name: v\r\n\r\n", ParseFault::HeaderName),
        (b"GET / HTTP/1.1\r\nName: a\x00b\r\n\r\n", ParseFault::HeaderValue),
        (b"GET / HTTP/1.1\rX", ParseFault::NewLine),
        (b"G\x01T / HTTP/1.1\r\n\r\n", ParseFault::Token),
        (b"GET / HTTP/2.0\r\n\r\n", ParseFault::Version),
    ];
    for (bytes, fault) in cases {
        let mut buffer = BytesMut::from(bytes);
        assert_eq!(parse_http_request(&mut buffer), Err(fault));
        assert_eq!(&buffer[..], bytes);
    }
}

#[test]
fn as_many_headers_as_slots_are_all_kept() {
    let head = head_with_headers(MAX_HEADERS);
    let mut buffer = BytesMut::from(&head[..]);
    let request = parse_http_request(&mut buffer).unwrap().unwrap();
    assert_eq!(request.headers.len(), 16);
    for (i, (name, value)) in request.headers.iter().enumerate() {
        assert_eq!(name, &format!("X-{}", i));
        assert_eq!(value, &format!("{}", i));
    }
    assert!(buffer.is_empty());
}

#[test]
fn one_header_too_many_is_malformed_not_truncated() {
    let head = head_with_headers(MAX_HEADERS + 1);
    let mut buffer = BytesMut::from(&head[..]);
    assert_eq!(parse_http_request(&mut buffer), Err(ParseFault::TooManyHeaders));
    assert_eq!(&buffer[..], &head[..]);
}

#[test]
fn header_order_and_duplicates_are_kept() {
    let mut buffer = BytesMut::from(
        &b"GET / HTTP/1.1\r\nb: 1\r\na: 2\r\nb: 3\r\nA: 4\r\n\r\n"[..],
    );
    let request = parse_http_request(&mut buffer).unwrap().unwrap();
    let expected: Vec<(String, String)> = vec![
        ("b".to_string(), "1".to_string()),
        ("a".to_string(), "2".to_string()),
        ("b".to_string(), "3".to_string()),
        ("A".to_string(), "4".to_string()),
    ];
    assert_eq!(request.headers, expected);
}

#[test]
fn header_value_that_is_not_utf8_is_replaced() {
    let mut buffer = BytesMut::from(&b"GET / HTTP/1.1\r\nName: a\xffb\r\n\r\n"[..]);
    let request = parse_http_request(&mut buffer).unwrap().unwrap();
    assert_eq!(request.headers, vec![("Name".to_string(), "a\u{fffd}b".to_string())]);
}

#[test]
fn header_value_that_is_utf8_is_kept() {
    let mut buffer = BytesMut::from("GET / HTTP/1.1\r\nName: d\u{e9}j\u{e0}\r\n\r\n".as_bytes());
    let request = parse_http_request(&mut buffer).unwrap().unwrap();
    assert_eq!(request.headers, vec![("Name".to_string(), "d\u{e9}j\u{e0}".to_string())]);
}

#[test]
fn path_is_not_normalised() {
    let mut buffer = BytesMut::from(&b"GET /a/../b%20c?q=1 HTTP/1.1\r\n\r\n"[..]);
    let request = parse_http_request(&mut buffer).unwrap().unwrap();
    assert_eq!(request.path, "/a/../b%20c?q=1");
}

#[test]
fn only_the_first_head_is_consumed() {
    let mut buffer = BytesMut::from(
        &b"GET /1 HTTP/1.1\r\n\r\nGET /2 HTTP/1.1\r\n\r\n"[..],
    );
    let first = parse_http_request(&mut buffer).unwrap().unwrap();
    assert_eq!(first.path, "/1");
    assert_eq!(&buffer[..], b"GET /2 HTTP/1.1\r\n\r\n");
    let second = parse_http_request(&mut buffer).unwrap().unwrap();
    assert_eq!(second.path, "/2");
    assert!(buffer.is_empty());
}

#[test]
fn parsing_again_after_more_bytes_gives_the_same_request() {
    let whole = b"GET /x HTTP/1.1\r\nHost: a\r\n\r\n";
    let mut at_once = BytesMut::from(&whole[..]);
    let expected = parse_http_request(&mut at_once).unwrap().unwrap();
    let mut buffer = BytesMut::new();
    let mut found = None;
    for byte in whole.iter() {
        assert!(found.is_none());
        buffer.extend_from_slice(&[*byte]);
        found = parse_http_request(&mut buffer).unwrap();
    }
    assert_eq!(found, Some(expected));
    assert!(buffer.is_empty());
}

#[test]
fn raw_head_headers_stop_at_the_first_unfilled_slot() {
    let raw = RawHead {
        consumed: 0,
        method: Some("GET".to_string()),
        path: Some("/".to_string()),
        version: Some(1),
        slots: vec![
            ("A".to_string(), b"1".to_vec()),
            ("B".to_string(), b"2".to_vec()),
            (String::new(), Vec::new()),
            ("C".to_string(), b"3".to_vec()),
        ],
    };
    let request = request_from_raw(raw);
    let expected: Vec<(String, String)> =
        vec![("A".to_string(), "1".to_string()), ("B".to_string(), "2".to_string())];
    assert_eq!(request.headers, expected);
}

#[test]
fn raw_head_without_parts_gives_empty_parts() {
    let raw = RawHead { consumed: 7, method: None, path: None, version: None, slots: Vec::new() };
    let request = request_from_raw(raw);
    assert_eq!(request.method, "");
    assert_eq!(request.path, "");
    assert_eq!(request.version, 0);
    assert!(request.headers.is_empty());
}

#[test]
fn raw_head_with_all_slots_filled_keeps_all() {
    let raw = RawHead {
        consumed: 0,
        method: Some("PUT".to_string()),
        path: Some("/p".to_string()),
        version: Some(0),
        slots: vec![("A".to_string(), b"\xf0\x28".to_vec()), ("B".to_string(), Vec::new())],
    };
    let request = request_from_raw(raw);
    assert_eq!(request.method, "PUT");
    assert_eq!(request.path, "/p");
    assert_eq!(request.version, 0);
    let expected: Vec<(String, String)> =
        vec![("A".to_string(), "\u{fffd}(".to_string()), ("B".to_string(), String::new())];
    assert_eq!(request.headers, expected);
}

#[test]
fn faults_have_their_words() {
    assert_eq!(ParseFault::HeaderName.description(), "invalid header name");
    assert_eq!(ParseFault::HeaderValue.description(), "invalid header value");
    assert_eq!(ParseFault::NewLine.description(), "invalid new line");
    assert_eq!(ParseFault::Status.description(), "invalid response status");
    assert_eq!(ParseFault::Token.description(), "invalid token");
    assert_eq!(ParseFault::TooManyHeaders.description(), "too many headers");
    assert_eq!(ParseFault::Version.description(), "invalid HTTP version");
}
