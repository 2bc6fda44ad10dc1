//! What the proxy itself puts on the wire: the request head as it is replayed
//! to the upstream, and the responses with which the proxy answers a client
//! on its own account.

use crate::http_parser::ParsedRequest;
use crate::http_parser::RequestView;
use vstd::prelude::*;
use vstd::slice::slice_to_vec;
use vstd::string::StringExecFns;
use vstd::utf8::encode_utf8;

verus! {

/// The responses that the proxy writes itself.
#[derive(Clone, Copy, Debug, PartialEq, Eq, Structural)]
pub enum SyntheticStatus {
    /// 400: the request head is malformed.
    BadRequest,
    /// 413: the request head does not fit the client buffer.
    PayloadTooLarge,
    /// 502: the upstream cannot be reached or written to.
    BadGateway,
}

/// The character for a decimal digit.
pub open spec fn digit_char(digit: nat) -> char {
    if digit == 0 {
        '0'
    } else if digit == 1 {
        '1'
    } else if digit == 2 {
        '2'
    } else if digit == 3 {
        '3'
    } else if digit == 4 {
        '4'
    } else if digit == 5 {
        '5'
    } else if digit == 6 {
        '6'
    } else if digit == 7 {
        '7'
    } else if digit == 8 {
        '8'
    } else {
        '9'
    }
}

/// A number in decimal, without leading zeros.
pub open spec fn decimal_text(n: nat) -> Seq<char>
    decreases n,
{
    if n < 10 {
        seq![digit_char(n)]
    } else {
        decimal_text(n / 10).push(digit_char(n % 10))
    }
}

/// `METHOD SP PATH SP HTTP/1.<version> CRLF`.
pub open spec fn request_line_text(request: RequestView) -> Seq<char> {
    request.method + " "@ + request.path + " HTTP/1."@ + decimal_text(request.version as nat)
        + "\r\n"@
}

/// `Name: Value CRLF`.
pub open spec fn header_line_text(header: (Seq<char>, Seq<char>)) -> Seq<char> {
    header.0 + ": "@ + header.1 + "\r\n"@
}

/// The header lines one after another, first header first.
pub open spec fn header_block_text(headers: Seq<(Seq<char>, Seq<char>)>) -> Seq<char>
    decreases headers.len(),
{
    if headers.len() == 0 {
        Seq::empty()
    } else {
        header_block_text(headers.drop_last()) + header_line_text(headers.last())
    }
}

/// The request head as text: request line, header lines, blank line.
pub open spec fn request_text(request: RequestView) -> Seq<char> {
    request_line_text(request) + header_block_text(request.headers) + "\r\n"@
}

/// The request head as it goes to the upstream.
pub open spec fn request_wire(request: RequestView) -> Seq<u8> {
    encode_utf8(request_text(request))
}

/// All that the upstream is sent before the relay begins: the request head,
/// then the bytes that were buffered behind it.
pub open spec fn forward_payload(request: RequestView, residual: Seq<u8>) -> Seq<u8> {
    request_wire(request) + residual
}

/// The text of a synthetic response. Each is an HTTP/1.1 response without a
/// body that announces its length and the end of the connection.
pub open spec fn response_text(status: SyntheticStatus) -> Seq<char> {
    match status {
        SyntheticStatus::BadRequest =>
            "HTTP/1.1 400 Bad Request\r\nContent-Length: 0\r\nConnection: close\r\n\r\n"@,
        SyntheticStatus::PayloadTooLarge =>
            "HTTP/1.1 413 Payload Too Large\r\nContent-Length: 0\r\nConnection: close\r\n\r\n"@,
        SyntheticStatus::BadGateway =>
            "HTTP/1.1 502 Bad Gateway\r\nContent-Length: 0\r\nConnection: close\r\n\r\n"@,
    }
}

/// A synthetic response as it goes to the client.
pub open spec fn response_wire(status: SyntheticStatus) -> Seq<u8> {
    encode_utf8(response_text(status))
}

/// One decimal digit as a string.
fn digit_str(digit: u8) -> (text: &'static str)
    requires
        digit < 10,
    ensures
        text@ == seq![digit_char(digit as nat)],
{
    proof {
        reveal_strlit("0");
        reveal_strlit("1");
        reveal_strlit("2");
        reveal_strlit("3");
        reveal_strlit("4");
        reveal_strlit("5");
        reveal_strlit("6");
        reveal_strlit("7");
        reveal_strlit("8");
        reveal_strlit("9");
    }
    let text = if digit == 0 {
        "0"
    } else if digit == 1 {
        "1"
    } else if digit == 2 {
        "2"
    } else if digit == 3 {
        "3"
    } else if digit == 4 {
        "4"
    } else if digit == 5 {
        "5"
    } else if digit == 6 {
        "6"
    } else if digit == 7 {
        "7"
    } else if digit == 8 {
        "8"
    } else {
        "9"
    };
    assert(text@ =~= seq![digit_char(digit as nat)]);
    text
}

/// Appends `n` in decimal to `out`.
fn push_decimal(out: &mut String, n: u8)
    ensures
        final(out)@ == old(out)@ + decimal_text(n as nat),
{
    if n >= 100 {
        out.append(digit_str(n / 100));
    }
    if n >= 10 {
        out.append(digit_str((n / 10) % 10));
    }
    out.append(digit_str(n % 10));
    proof {
        let n = n as nat;
        reveal_with_fuel(decimal_text, 3);
        if n >= 100 {
            assert(decimal_text(n) =~= seq![
                digit_char(n / 100),
                digit_char((n / 10) % 10),
                digit_char(n % 10),
            ]);
        } else if n >= 10 {
            assert(decimal_text(n) =~= seq![digit_char(n / 10), digit_char(n % 10)]);
        }
        assert(final(out)@ =~= old(out)@ + decimal_text(n));
    }
}

/// The request head in the form in which it is replayed to the upstream:
/// method, path and version on the request line, then every header under its
/// own name and in its own place, then the blank line.
pub fn serialize_request(request: &ParsedRequest) -> (bytes: Vec<u8>)
    ensures
        bytes@ == request_wire(request@),
{
    let mut text = String::new();
    text.append(request.method.as_str());
    text.append(" ");
    text.append(request.path.as_str());
    text.append(" HTTP/1.");
    push_decimal(&mut text, request.version);
    text.append("\r\n");
    assert(text@ =~= request_line_text(request@));
    let ghost headers = request@.headers;
    let mut i: usize = 0;
    while i < request.headers.len()
        invariant
            i <= request.headers.len(),
            headers == request@.headers,
            text@ == request_line_text(request@) + header_block_text(headers.take(i as int)),
        decreases request.headers.len() - i,
    {
        let ghost before = text@;
        text.append(request.headers[i].0.as_str());
        text.append(": ");
        text.append(request.headers[i].1.as_str());
        text.append("\r\n");
        proof {
            let upto = headers.take(i + 1);
            assert(upto.drop_last() =~= headers.take(i as int));
            assert(upto.last() == headers[i as int]);
            assert(headers[i as int] == (request.headers@[i as int].0@, request.headers@[i as int].1@));
            assert(text@ =~= before + header_line_text(headers[i as int]));
            assert(text@ =~= request_line_text(request@) + header_block_text(upto));
        }
        i += 1;
    }
    text.append("\r\n");
    proof {
        assert(headers.take(i as int) =~= headers);
        assert(text@ =~= request_text(request@));
    }
    slice_to_vec(text.as_str().as_bytes())
}

/// The bytes of a synthetic response.
pub fn synthetic_response(status: SyntheticStatus) -> (bytes: Vec<u8>)
    ensures
        bytes@ == response_wire(status),
{
    let text = match status {
        SyntheticStatus::BadRequest => {
            "HTTP/1.1 400 Bad Request\r\nContent-Length: 0\r\nConnection: close\r\n\r\n"
        },
        SyntheticStatus::PayloadTooLarge => {
            "HTTP/1.1 413 Payload Too Large\r\nContent-Length: 0\r\nConnection: close\r\n\r\n"
        },
        SyntheticStatus::BadGateway => {
            "HTTP/1.1 502 Bad Gateway\r\nContent-Length: 0\r\nConnection: close\r\n\r\n"
        },
    };
    slice_to_vec(text.as_bytes())
}

} // verus!
