//! Responses and their serialization: a status line, `Content-Type` and
//! `Content-Length` headers where there is content, an empty line, the body.

use vstd::prelude::*;
use crate::bytes::{decimal, push_all, push_decimal};

verus! {

/// The status codes that the server emits.
#[derive(Clone, Copy, Debug, PartialEq, Eq, Structural)]
pub enum Status {
    Success,
    Created,
    NotFound,
}

/// The content types that the server emits.
#[derive(Clone, Copy, Debug, PartialEq, Eq, Structural)]
pub enum ContentType {
    TextPlain,
    OctetStream,
}

/// A response: status, optional content type, body.
pub struct Response {
    pub status: Status,
    pub content_type: Option<ContentType>,
    pub body: Vec<u8>,
}

/// What a response holds, with its body as a byte string.
pub struct ResponseView {
    pub status: Status,
    pub content_type: Option<ContentType>,
    pub body: Seq<u8>,
}

impl View for Response {
    type V = ResponseView;

    open spec fn view(&self) -> ResponseView {
        ResponseView { status: self.status, content_type: self.content_type, body: self.body@ }
    }
}

/// Carriage return and line feed.
pub open spec fn crlf() -> Seq<u8> {
    seq![13u8, 10u8]
}

/// The status line, without its line ending.
pub open spec fn status_line(s: Status) -> Seq<u8> {
    match s {
        // HTTP/1.1 200 OK
        Status::Success => seq![72u8, 84u8, 84u8, 80u8, 47u8, 49u8, 46u8, 49u8, 32u8, 50u8, 48u8, 48u8, 32u8, 79u8, 75u8],
        // HTTP/1.1 201 Created
        Status::Created => seq![
            72u8, 84u8, 84u8, 80u8, 47u8, 49u8, 46u8, 49u8, 32u8, 50u8, 48u8, 49u8, 32u8,
            67u8, 114u8, 101u8, 97u8, 116u8, 101u8, 100u8,
        ],
        // HTTP/1.1 404 Not Found
        Status::NotFound => seq![
            72u8, 84u8, 84u8, 80u8, 47u8, 49u8, 46u8, 49u8, 32u8, 52u8, 48u8, 52u8, 32u8,
            78u8, 111u8, 116u8, 32u8, 70u8, 111u8, 117u8, 110u8, 100u8,
        ],
    }
}

/// The value of the `Content-Type` header.
pub open spec fn content_type_text(c: ContentType) -> Seq<u8> {
    match c {
        // text/plain
        ContentType::TextPlain => seq![116u8, 101u8, 120u8, 116u8, 47u8, 112u8, 108u8, 97u8, 105u8, 110u8],
        // application/octet-stream
        ContentType::OctetStream => seq![
            97u8, 112u8, 112u8, 108u8, 105u8, 99u8, 97u8, 116u8, 105u8, 111u8, 110u8, 47u8,
            111u8, 99u8, 116u8, 101u8, 116u8, 45u8, 115u8, 116u8, 114u8, 101u8, 97u8, 109u8,
        ],
    }
}

/// `Content-Type: `
pub open spec fn content_type_prefix() -> Seq<u8> {
    seq![67u8, 111u8, 110u8, 116u8, 101u8, 110u8, 116u8, 45u8, 84u8, 121u8, 112u8, 101u8, 58u8, 32u8]
}

/// `Content-Length: `
pub open spec fn content_length_prefix() -> Seq<u8> {
    seq![67u8, 111u8, 110u8, 116u8, 101u8, 110u8, 116u8, 45u8, 76u8, 101u8, 110u8, 103u8, 116u8, 104u8, 58u8, 32u8]
}

/// The header lines of a response: `Content-Type` where a type is set, and
/// `Content-Length` (the body's exact length) where a type is set or the
/// body is not empty.
pub open spec fn header_lines(r: ResponseView) -> Seq<u8> {
    let ct = match r.content_type {
        Some(c) => content_type_prefix() + content_type_text(c) + crlf(),
        None => seq![],
    };
    let cl = if r.content_type.is_some() || r.body.len() > 0 {
        content_length_prefix() + decimal(r.body.len()) + crlf()
    } else {
        seq![]
    };
    ct + cl
}

/// The bytes of a response on the wire.
pub open spec fn wire(r: ResponseView) -> Seq<u8> {
    status_line(r.status) + crlf() + header_lines(r) + crlf() + r.body
}

fn status_bytes(s: Status) -> (r: Vec<u8>)
    ensures
        r@ == status_line(s),
{
    let v: Vec<u8> = match s {
        Status::Success => vec![72u8, 84u8, 84u8, 80u8, 47u8, 49u8, 46u8, 49u8, 32u8, 50u8, 48u8, 48u8, 32u8, 79u8, 75u8],
        Status::Created => vec![
            72u8, 84u8, 84u8, 80u8, 47u8, 49u8, 46u8, 49u8, 32u8, 50u8, 48u8, 49u8, 32u8,
            67u8, 114u8, 101u8, 97u8, 116u8, 101u8, 100u8,
        ],
        Status::NotFound => vec![
            72u8, 84u8, 84u8, 80u8, 47u8, 49u8, 46u8, 49u8, 32u8, 52u8, 48u8, 52u8, 32u8,
            78u8, 111u8, 116u8, 32u8, 70u8, 111u8, 117u8, 110u8, 100u8,
        ],
    };
    assert(v@ =~= status_line(s));
    v
}

fn content_type_bytes(c: ContentType) -> (r: Vec<u8>)
    ensures
        r@ == content_type_text(c),
{
    let v: Vec<u8> = match c {
        ContentType::TextPlain => vec![116u8, 101u8, 120u8, 116u8, 47u8, 112u8, 108u8, 97u8, 105u8, 110u8],
        ContentType::OctetStream => vec![
            97u8, 112u8, 112u8, 108u8, 105u8, 99u8, 97u8, 116u8, 105u8, 111u8, 110u8, 47u8,
            111u8, 99u8, 116u8, 101u8, 116u8, 45u8, 115u8, 116u8, 114u8, 101u8, 97u8, 109u8,
        ],
    };
    assert(v@ =~= content_type_text(c));
    v
}

fn push_crlf(out: &mut Vec<u8>)
    ensures
        final(out)@ == old(out)@ + crlf(),
{
    let ghost start = out@;
    out.push(13u8);
    out.push(10u8);
    assert(out@ =~= start + crlf());
}

impl Response {
    /// A response with no content type and an empty body.
    pub fn empty(status: Status) -> (r: Response)
        ensures
            r@ == (ResponseView { status: status, content_type: None, body: seq![] }),
    {
        Response { status, content_type: None, body: Vec::new() }
    }

    /// A `200 OK` response with a `text/plain` body.
    pub fn text(body: Vec<u8>) -> (r: Response)
        ensures
            r@ == (ResponseView { status: Status::Success, content_type: Some(ContentType::TextPlain), body: body@ }),
    {
        Response { status: Status::Success, content_type: Some(ContentType::TextPlain), body }
    }

    /// A `200 OK` response with an `application/octet-stream` body.
    pub fn octets(body: Vec<u8>) -> (r: Response)
        ensures
            r@ == (ResponseView { status: Status::Success, content_type: Some(ContentType::OctetStream), body: body@ }),
    {
        Response { status: Status::Success, content_type: Some(ContentType::OctetStream), body }
    }

    /// The response as bytes on the wire.
    pub fn to_bytes(&self) -> (r: Vec<u8>)
        ensures
            r@ == wire(self@),
    {
        let mut out = status_bytes(self.status);
        push_crlf(&mut out);
        let ghost before_headers = out@;
        match self.content_type {
            Some(c) => {
                let prefix: Vec<u8> = vec![67u8, 111u8, 110u8, 116u8, 101u8, 110u8, 116u8, 45u8, 84u8, 121u8, 112u8, 101u8, 58u8, 32u8];
                assert(prefix@ =~= content_type_prefix());
                push_all(&mut out, prefix.as_slice());
                let t = content_type_bytes(c);
                push_all(&mut out, t.as_slice());
                push_crlf(&mut out);
            },
            None => {},
        }
        let ghost after_type = out@;
        if self.content_type.is_some() || self.body.len() > 0 {
            let prefix: Vec<u8> = vec![67u8, 111u8, 110u8, 116u8, 101u8, 110u8, 116u8, 45u8, 76u8, 101u8, 110u8, 103u8, 116u8, 104u8, 58u8, 32u8];
            assert(prefix@ =~= content_length_prefix());
            push_all(&mut out, prefix.as_slice());
            push_decimal(self.body.len(), &mut out);
            push_crlf(&mut out);
        }
        assert(out@ =~= before_headers + header_lines(self@));
        push_crlf(&mut out);
        push_all(&mut out, self.body.as_slice());
        assert(out@ =~= wire(self@));
        out
    }
}

} // verus!
