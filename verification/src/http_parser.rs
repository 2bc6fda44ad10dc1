//! The request framer: one complete HTTP/1.x request head out of the bytes
//! buffered so far.
//!
//! The grammar is httparse's. Its verdict on a byte sequence is a function of
//! those bytes alone and is given the name [`httparse_request`]; everything the
//! framer does with that verdict is defined here and proved.

use crate::client_buffer::buffer_advance;
use crate::client_buffer::buffer_bytes;
use crate::client_buffer::contents;
use bytes::BytesMut;
use vstd::prelude::*;
use vstd::utf8::decode_utf8;
use vstd::utf8::valid_utf8;

verus! {

/// The number of header slots offered to the parser. A head with more header
/// lines than this is malformed.
pub const MAX_HEADERS: usize = 16;

/// Why a request head was refused.
#[derive(Clone, Copy, Debug, PartialEq, Eq, Structural)]
pub enum ParseFault {
    /// Invalid byte in a header name.
    HeaderName,
    /// Invalid byte in a header value.
    HeaderValue,
    /// Invalid byte in a line ending.
    NewLine,
    /// Invalid byte in a status.
    Status,
    /// Invalid byte where a token is required.
    Token,
    /// More header lines than header slots.
    TooManyHeaders,
    /// Invalid byte in the HTTP version.
    Version,
}

impl ParseFault {
    /// The fault in words.
    pub open spec fn text(self) -> Seq<char> {
        match self {
            ParseFault::HeaderName => "invalid header name"@,
            ParseFault::HeaderValue => "invalid header value"@,
            ParseFault::NewLine => "invalid new line"@,
            ParseFault::Status => "invalid response status"@,
            ParseFault::Token => "invalid token"@,
            ParseFault::TooManyHeaders => "too many headers"@,
            ParseFault::Version => "invalid HTTP version"@,
        }
    }

    /// The fault in words.
    pub fn description(&self) -> (text: &'static str)
        ensures
            text@ == self.text(),
    {
        match self {
            ParseFault::HeaderName => "invalid header name",
            ParseFault::HeaderValue => "invalid header value",
            ParseFault::NewLine => "invalid new line",
            ParseFault::Status => "invalid response status",
            ParseFault::Token => "invalid token",
            ParseFault::TooManyHeaders => "too many headers",
            ParseFault::Version => "invalid HTTP version",
        }
    }
}

/// What the parser leaves behind for a complete head, as plain values.
pub struct RawHead {
    /// Offset of the first byte after the head.
    pub consumed: usize,
    /// The method token, if the parser recorded one.
    pub method: Option<String>,
    /// The request target, if the parser recorded one.
    pub path: Option<String>,
    /// The minor HTTP version, if the parser recorded one.
    pub version: Option<u8>,
    /// Every header slot offered to the parser, filled or not, in order. An
    /// unfilled slot has an empty name.
    pub slots: Vec<(String, Vec<u8>)>,
}

/// The mathematical value of a [`RawHead`].
pub struct RawHeadView {
    pub consumed: nat,
    pub method: Option<Seq<char>>,
    pub path: Option<Seq<char>>,
    pub version: Option<u8>,
    pub slots: Seq<(Seq<char>, Seq<u8>)>,
}

impl View for RawHead {
    type V = RawHeadView;

    open spec fn view(&self) -> RawHeadView {
        RawHeadView {
            consumed: self.consumed as nat,
            method: self.method.deep_view(),
            path: self.path.deep_view(),
            version: self.version,
            slots: self.slots.deep_view(),
        }
    }
}

/// A request head that the framer confirmed complete and well formed.
#[derive(Clone, Debug, PartialEq, Eq)]
pub struct ParsedRequest {
    /// The method token, verbatim.
    pub method: String,
    /// The request target, verbatim.
    pub path: String,
    /// The minor HTTP version.
    pub version: u8,
    /// The headers in the order of their arrival, duplicates included.
    pub headers: Vec<(String, String)>,
}

/// The mathematical value of a [`ParsedRequest`].
pub struct RequestView {
    pub method: Seq<char>,
    pub path: Seq<char>,
    pub version: u8,
    pub headers: Seq<(Seq<char>, Seq<char>)>,
}

impl View for ParsedRequest {
    type V = RequestView;

    open spec fn view(&self) -> RequestView {
        RequestView {
            method: self.method@,
            path: self.path@,
            version: self.version,
            headers: self.headers.deep_view(),
        }
    }
}

/// What the framer makes of the buffered bytes.
pub enum Framing {
    /// A whole head is present: the request, and the offset of the first byte
    /// after the head.
    Complete { request: RequestView, consumed: nat },
    /// The bytes may still grow into a head.
    Incomplete,
    /// The bytes cannot grow into a head.
    Malformed(ParseFault),
}

/// `httparse::Error` is an enum of seven variants without fields. It is
/// declared as it stands, so that Verus knows its variants and the match on
/// them is proved like any other.
#[verifier::external_type_specification]
pub struct ExHttparseError(httparse::Error);

/// Which of its variants an `httparse::Error` is.
pub open spec fn fault_of(error: httparse::Error) -> ParseFault {
    match error {
        httparse::Error::HeaderName => ParseFault::HeaderName,
        httparse::Error::HeaderValue => ParseFault::HeaderValue,
        httparse::Error::NewLine => ParseFault::NewLine,
        httparse::Error::Status => ParseFault::Status,
        httparse::Error::Token => ParseFault::Token,
        httparse::Error::TooManyHeaders => ParseFault::TooManyHeaders,
        httparse::Error::Version => ParseFault::Version,
    }
}

/// What `httparse::Request::parse` makes of `bytes` when it is given `slots`
/// empty header slots: `Ok(Some(..))` for `Status::Complete`, `Ok(None)` for
/// `Status::Partial`, `Err(..)` for an error.
pub uninterp spec fn httparse_request(bytes: Seq<u8>, slots: nat) -> Result<
    Option<RawHeadView>,
    ParseFault,
>;

/// What `String::from_utf8_lossy` makes of `bytes`.
pub uninterp spec fn utf8_lossy(bytes: Seq<u8>) -> Seq<char>;

/// Tells the variants of `httparse::Error` apart.
fn fault_kind(error: &httparse::Error) -> (fault: ParseFault)
    ensures
        fault == fault_of(*error),
{
    match error {
        httparse::Error::HeaderName => ParseFault::HeaderName,
        httparse::Error::HeaderValue => ParseFault::HeaderValue,
        httparse::Error::NewLine => ParseFault::NewLine,
        httparse::Error::Status => ParseFault::Status,
        httparse::Error::Token => ParseFault::Token,
        httparse::Error::TooManyHeaders => ParseFault::TooManyHeaders,
        httparse::Error::Version => ParseFault::Version,
    }
}

/// `httparse::Request::parse` on a fresh `Request` over `slots` copies of
/// `httparse::EMPTY_HEADER`. The result is the parser's own, copied into plain
/// values. For a complete head the contract claims three things of it beyond
/// its name: the offset returned lies within `bytes`, all `slots` slots are
/// handed back, and a version, where one is recorded, is 0 or 1.
#[verifier::external_body]
fn httparse_parse(bytes: &[u8], slots: usize) -> (outcome: Result<Option<RawHead>, httparse::Error>)
    requires
        slots <= 0xffff,
    ensures
        match outcome {
            Ok(Some(head)) => {
                &&& httparse_request(bytes@, slots as nat) == Ok::<Option<RawHeadView>, ParseFault>(
                    Some(head@),
                )
                &&& head.consumed <= bytes@.len()
                &&& head.slots@.len() == slots
                &&& head.version matches Some(version) ==> version <= 1
            },
            Ok(None) => httparse_request(bytes@, slots as nat) == Ok::<
                Option<RawHeadView>,
                ParseFault,
            >(None),
            Err(error) => httparse_request(bytes@, slots as nat) == Err::<
                Option<RawHeadView>,
                ParseFault,
            >(fault_of(error)),
        },
{
    let mut headers = vec![httparse::EMPTY_HEADER; slots];
    let mut request = httparse::Request::new(&mut headers);
    let consumed = match request.parse(bytes)? {
        httparse::Status::Complete(consumed) => consumed,
        httparse::Status::Partial => return Ok(None),
    };
    let method = request.method.map(String::from);
    let path = request.path.map(String::from);
    let version = request.version;
    let slots = headers.iter().map(|h| (h.name.to_string(), h.value.to_vec())).collect();
    Ok(Some(RawHead { consumed, method, path, version, slots }))
}

/// `String::from_utf8_lossy`, made an owned `String`. Valid UTF-8 is decoded
/// as it stands; what becomes of anything else is left to the name.
#[verifier::external_body]
fn lossy_text(bytes: &[u8]) -> (text: String)
    ensures
        text@ == utf8_lossy(bytes@),
        valid_utf8(bytes@) ==> text@ == decode_utf8(bytes@),
{
    String::from_utf8_lossy(bytes).into_owned()
}

/// The number of leading slots whose name is not empty.
pub open spec fn filled_count(slots: Seq<(Seq<char>, Seq<u8>)>) -> nat
    decreases slots.len(),
{
    if slots.len() == 0 || slots[0].0.len() == 0 {
        0
    } else {
        1 + filled_count(slots.skip(1))
    }
}

/// The request that a complete head stands for: a missing method or path is
/// empty, a missing version is 0, and the headers are the slots before the
/// first unfilled one, each value decoded leniently.
pub open spec fn request_of(raw: RawHeadView) -> RequestView {
    RequestView {
        method: match raw.method {
            Some(method) => method,
            None => Seq::empty(),
        },
        path: match raw.path {
            Some(path) => path,
            None => Seq::empty(),
        },
        version: match raw.version {
            Some(version) => version,
            None => 0,
        },
        headers: Seq::new(
            filled_count(raw.slots),
            |i: int| (raw.slots[i].0, utf8_lossy(raw.slots[i].1)),
        ),
    }
}

/// The framer as a function of the buffered bytes.
pub open spec fn frame(bytes: Seq<u8>) -> Framing {
    match httparse_request(bytes, MAX_HEADERS as nat) {
        Ok(Some(raw)) => Framing::Complete { request: request_of(raw), consumed: raw.consumed },
        Ok(None) => Framing::Incomplete,
        Err(fault) => Framing::Malformed(fault),
    }
}

/// `filled_count` is the one index that ends a run of filled slots.
pub proof fn lemma_filled_count(slots: Seq<(Seq<char>, Seq<u8>)>, n: nat)
    requires
        n <= slots.len(),
        forall|j: int| 0 <= j < n ==> (#[trigger] slots[j]).0.len() > 0,
        n == slots.len() || slots[n as int].0.len() == 0,
    ensures
        filled_count(slots) == n,
    decreases n,
{
    if n > 0 {
        let rest = slots.skip(1);
        assert forall|j: int| 0 <= j < n - 1 implies (#[trigger] rest[j]).0.len() > 0 by {
            assert(rest[j] == slots[j + 1]);
        }
        lemma_filled_count(rest, (n - 1) as nat);
    }
}

/// No more headers come out than slots went in.
pub proof fn lemma_filled_count_bounded(slots: Seq<(Seq<char>, Seq<u8>)>)
    ensures
        filled_count(slots) <= slots.len(),
    decreases slots.len(),
{
    if slots.len() > 0 && slots[0].0.len() > 0 {
        lemma_filled_count_bounded(slots.skip(1));
    }
}

/// Builds the request from what the parser left behind.
pub fn request_from_raw(raw: RawHead) -> (request: ParsedRequest)
    ensures
        request@ == request_of(raw@),
        request.headers@.len() == filled_count(raw@.slots) <= raw.slots@.len(),
        forall|i: int|
            #![trigger request.headers@[i]]
            0 <= i < request.headers@.len() && valid_utf8(raw.slots@[i].1@)
                ==> request.headers@[i].1@ == decode_utf8(raw.slots@[i].1@),
{
    let RawHead { consumed: _, method, path, version, slots } = raw;
    let method = match method {
        Some(method) => method,
        None => String::new(),
    };
    let path = match path {
        Some(path) => path,
        None => String::new(),
    };
    let version = match version {
        Some(version) => version,
        None => 0,
    };
    let ghost all = slots.deep_view();
    let mut headers: Vec<(String, String)> = Vec::new();
    let mut i: usize = 0;
    while i < slots.len() && !slots[i].0.as_str().is_empty()
        invariant
            i <= slots.len(),
            all == slots.deep_view(),
            forall|j: int| 0 <= j < i ==> (#[trigger] all[j]).0.len() > 0,
            headers@.len() == i,
            forall|j: int|
                #![trigger headers@[j]]
                0 <= j < i && valid_utf8(slots@[j].1@) ==> headers@[j].1@ == decode_utf8(
                    slots@[j].1@,
                ),
            headers.deep_view() == Seq::new(i as nat, |k: int| (all[k].0, utf8_lossy(all[k].1))),
        decreases slots.len() - i,
    {
        let name = slots[i].0.clone();
        let value = lossy_text(slots[i].1.as_slice());
        let ghost before = headers.deep_view();
        headers.push((name, value));
        proof {
            let after = headers.deep_view();
            assert(all[i as int] == (slots@[i as int].0@, slots@[i as int].1@));
            assert forall|k: int| 0 <= k < i + 1 implies after[k] == (
                all[k].0,
                utf8_lossy(all[k].1),
            ) by {
                if k < i {
                    assert(after[k] == before[k]);
                }
            }
            assert(after =~= Seq::new((i + 1) as nat, |k: int| (all[k].0, utf8_lossy(all[k].1))));
        }
        i += 1;
    }
    proof {
        lemma_filled_count(all, i as nat);
        lemma_filled_count_bounded(all);
    }
    ParsedRequest { method, path, version, headers }
}

/// Takes one complete request head off the front of `buffer`.
///
/// On a complete head the request is returned and exactly the head's bytes are
/// removed, so that what follows it stays in place. On anything else the
/// buffer is left alone: `Ok(None)` says that more bytes are needed, `Err`
/// that no further bytes can mend the head.
pub fn parse_http_request(buffer: &mut BytesMut) -> (result: Result<
    Option<ParsedRequest>,
    ParseFault,
>)
    ensures
        match frame(contents(*old(buffer))) {
            Framing::Complete { request, consumed } => {
                &&& result matches Ok(Some(parsed))
                &&& parsed@ == request
                &&& parsed.version <= 1
                &&& parsed.headers@.len() <= MAX_HEADERS
                &&& consumed <= contents(*old(buffer)).len()
                &&& contents(*final(buffer)) == contents(*old(buffer)).skip(consumed as int)
            },
            Framing::Incomplete => {
                &&& result matches Ok(None)
                &&& *final(buffer) == *old(buffer)
            },
            Framing::Malformed(fault) => {
                &&& result matches Err(reported)
                &&& reported == fault
                &&& *final(buffer) == *old(buffer)
            },
        },
{
    match httparse_parse(buffer_bytes(buffer), MAX_HEADERS) {
        Ok(Some(raw)) => {
            let consumed = raw.consumed;
            let request = request_from_raw(raw);
            buffer_advance(buffer, consumed);
            Ok(Some(request))
        },
        Ok(None) => Ok(None),
        Err(error) => Err(fault_kind(&error)),
    }
}

} // verus!
