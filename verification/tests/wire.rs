use http_proxy::http_parser::ParsedRequest;
use http_proxy::wire::serialize_request;
use http_proxy::wire::synthetic_response;
use http_proxy::wire::SyntheticStatus;

fn request(method: &str, path: &str, version: u8, headers: &[(&str, &str)]) -> ParsedRequest {
    ParsedRequest {
        method: method.to_string(),
        path: path.to_string(),
        version,
        headers: headers.iter().map(|(n, v)| (n.to_string(), v.to_string())).collect(),
    }
}

#[test]
fn bad_request_response_is_exact() {
    assert_eq!(
        synthetic_response(SyntheticStatus::BadRequest),
        b"HTTP/1.1 400 Bad Request\r\nContent-Length: 0\r\nConnection: close\r\n\r\n".to_vec()
    );
}

#[test]
fn payload_too_large_response_is_exact() {
    assert_eq!(
        synthetic_response(SyntheticStatus::PayloadTooLarge),
        b"HTTP/1.1 413 Payload Too Large\r\nContent-Length: 0\r\nConnection: close\r\n\r\n"
            .to_vec()
    );
}

#[test]
fn bad_gateway_response_is_exact() {
    assert_eq!(
        synthetic_response(SyntheticStatus::BadGateway),
        b"HTTP/1.1 502 Bad Gateway\r\nContent-Length: 0\r\nConnection: close\r\n\r\n".to_vec()
    );
}

#[test]
fn request_without_headers_is_line_and_blank_line() {
    let bytes = serialize_request(&request("GET", "/", 1, &[]));
    assert_eq!(bytes, b"GET / HTTP/1.1\r\n\r\n".to_vec());
}

#[test]
fn request_with_headers_keeps_their_order_and_case() {
    let bytes = serialize_request(&request(
        "POST",
        "/a?b=c",
        0,
        &[("Host", "example"), ("x-b", "2"), ("Host", "again"), ("X-B", "")],
    ));
    assert_eq!(
        bytes,
        b"POST /a?b=c HTTP/1.0\r\nHost: example\r\nx-b: 2\r\nHost: again\r\nX-B: \r\n\r\n".to_vec()
    );
}

#[test]
fn version_is_written_in_decimal() {
    assert_eq!(serialize_request(&request("GET", "/", 0, &[])), b"GET / HTTP/1.0\r\n\r\n".to_vec());
    assert_eq!(serialize_request(&request("GET", "/", 9, &[])), b"GET / HTTP/1.9\r\n\r\n".to_vec());
    assert_eq!(serialize_request(&request("GET", "/", 10, &[])), b"GET / HTTP/1.10\r\n\r\n".to_vec());
    assert_eq!(serialize_request(&request("GET", "/", 99, &[])), b"GET / HTTP/1.99\r\n\r\n".to_vec());
    assert_eq!(
        serialize_request(&request("GET", "/", 100, &[])),
        b"GET / HTTP/1.100\r\n\r\n".to_vec()
    );
    assert_eq!(
        serialize_request(&request("GET", "/", 207, &[])),
        b"GET / HTTP/1.207\r\n\r\n".to_vec()
    );
    assert_eq!(
        serialize_request(&request("GET", "/", 255, &[])),
        b"GET / HTTP/1.255\r\n\r\n".to_vec()
    );
}

#[test]
fn text_beyond_ascii_is_written_as_utf8() {
    let bytes = serialize_request(&request("GET", "/", 1, &[("Name", "a\u{fffd}b")]));
    assert_eq!(bytes, b"GET / HTTP/1.1\r\nName: a\xef\xbf\xbdb\r\n\r\n".to_vec());
}

#[test]
fn empty_method_and_path_are_written_as_they_are() {
    assert_eq!(serialize_request(&request("", "", 0, &[])), b"  HTTP/1.0\r\n\r\n".to_vec());
}
