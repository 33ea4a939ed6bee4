//! Framing of a request read from a byte stream: the head ends at the first
//! empty line, and the body is exactly as long as `Content-Length` says.

use vstd::prelude::*;
use crate::bytes::copy_range;
use crate::request::{
    content_length, declared_length, lines_from, lines_view, method_of, parse_request_line,
    request_line_parts, split_lines, Request, RequestError, RequestView,
};

verus! {

/// Index `e` holds the line feed that ends an empty line (one that holds
/// nothing or a lone carriage return).
pub open spec fn ends_blank_line(s: Seq<u8>, e: int) -> bool {
    &&& 0 <= e < s.len()
    &&& s[e] == 10
    &&& (e == 0 || s[e - 1] == 10 || (s[e - 1] == 13 && (e == 1 || s[e - 2] == 10)))
}

/// The first index at or after `i` that ends an empty line, or `s.len()`.
pub open spec fn blank_from(s: Seq<u8>, i: int) -> int
    decreases s.len() - i,
{
    if i < 0 || i >= s.len() {
        s.len() as int
    } else if ends_blank_line(s, i) {
        i
    } else {
        blank_from(s, i + 1)
    }
}

/// Where the empty line that ends at `e` begins.
pub open spec fn blank_start(s: Seq<u8>, e: int) -> int {
    if e > 0 && s[e - 1] == 13 {
        e - 1
    } else {
        e
    }
}

/// The lines of the head that ends with the empty line ending at `e`,
/// without that empty line; the first is the request line.
pub open spec fn head_lines(buf: Seq<u8>, e: int) -> Seq<Seq<u8>> {
    lines_from(buf.subrange(0, blank_start(buf, e)), 0)
}

/// The outcome of reading the bytes received so far.
pub enum ReadStep {
    /// More bytes are needed.
    NeedMore,
    /// A whole request has arrived.
    Complete(Request),
    /// No request can be read; the connection ends without a response.
    Failed(RequestError),
}

/// A `ReadStep` as byte strings.
pub enum ReadStepView {
    NeedMore,
    Complete(RequestView),
    Failed(RequestError),
}

impl View for ReadStep {
    type V = ReadStepView;

    open spec fn view(&self) -> ReadStepView {
        match self {
            ReadStep::NeedMore => ReadStepView::NeedMore,
            ReadStep::Complete(r) => ReadStepView::Complete(r@),
            ReadStep::Failed(e) => ReadStepView::Failed(*e),
        }
    }
}

/// What `buf` yields as the bytes received so far; `closed` says the stream
/// has ended, so that nothing more will come.
pub open spec fn read_outcome(buf: Seq<u8>, closed: bool) -> ReadStepView {
    let e = blank_from(buf, 0);
    if e >= buf.len() {
        if closed {
            ReadStepView::Failed(RequestError::ReadError)
        } else {
            ReadStepView::NeedMore
        }
    } else {
        let lines = head_lines(buf, e);
        if lines.len() == 0 {
            ReadStepView::Failed(RequestError::MalformedRequestLine)
        } else {
            match request_line_parts(lines[0]) {
                None => ReadStepView::Failed(RequestError::MalformedRequestLine),
                Some((m, p)) => {
                    let headers = lines.drop_first();
                    let n = content_length(headers);
                    let start = e + 1;
                    if buf.len() - start >= n {
                        ReadStepView::Complete(
                            RequestView {
                                method: method_of(m),
                                path: p,
                                headers: headers,
                                body: buf.subrange(start, start + n),
                            },
                        )
                    } else if closed {
                        ReadStepView::Failed(RequestError::ReadError)
                    } else {
                        ReadStepView::NeedMore
                    }
                },
            }
        }
    }
}

fn is_blank_end(s: &[u8], e: usize) -> (r: bool)
    requires
        e < s.len(),
    ensures
        r == ends_blank_line(s@, e as int),
{
    s[e] == 10 && (e == 0 || s[e - 1] == 10 || (s[e - 1] == 13 && (e == 1 || s[e - 2] == 10)))
}

/// The index of the line feed that ends the first empty line, or `s.len()`.
pub fn find_head_end(s: &[u8]) -> (r: usize)
    ensures
        r as int == blank_from(s@, 0),
        r <= s.len(),
{
    let mut j: usize = 0;
    while j < s.len() && !is_blank_end(s, j)
        invariant
            j <= s.len(),
            blank_from(s@, 0) == blank_from(s@, j as int),
        decreases s.len() - j,
    {
        j = j + 1;
    }
    j
}

/// Reads a request from the bytes received so far. It needs more bytes
/// until the head and the declared body have arrived; once the stream is
/// closed, a missing head or a body shorter than declared is a `ReadError`.
pub fn read_step(buf: &[u8], closed: bool) -> (r: ReadStep)
    ensures
        r@ == read_outcome(buf@, closed),
{
    let e = find_head_end(buf);
    if e >= buf.len() {
        return if closed {
            ReadStep::Failed(RequestError::ReadError)
        } else {
            ReadStep::NeedMore
        };
    }
    let b = if e > 0 && buf[e - 1] == 13 { e - 1 } else { e };
    let head = copy_range(buf, 0, b);
    let mut lines = split_lines(head.as_slice());
    if lines.len() == 0 {
        return ReadStep::Failed(RequestError::MalformedRequestLine);
    }
    let ghost all = lines_view(lines@);
    let first = lines.remove(0);
    assert(first@ == all[0]);
    assert(lines_view(lines@) =~= all.drop_first());
    match parse_request_line(first.as_slice()) {
        Err(err) => ReadStep::Failed(err),
        Ok((method, path)) => {
            let n = declared_length(&lines);
            let start = e + 1;
            if buf.len() - start >= n {
                let body = copy_range(buf, start, start + n);
                let req = Request { method, path, headers: lines, body };
                ReadStep::Complete(req)
            } else if closed {
                ReadStep::Failed(RequestError::ReadError)
            } else {
                ReadStep::NeedMore
            }
        },
    }
}

/// A body is never cut short by the end of the stream: where the head has
/// arrived and declares more body bytes than follow it, the request is not
/// complete, and once the stream has closed reading fails with no request.
pub proof fn lemma_short_body_fails(buf: Seq<u8>)
    requires
        blank_from(buf, 0) < buf.len(),
        head_lines(buf, blank_from(buf, 0)).len() > 0,
        content_length(head_lines(buf, blank_from(buf, 0)).drop_first()) > buf.len() - (blank_from(buf, 0) + 1),
    ensures
        read_outcome(buf, true) is Failed,
        read_outcome(buf, false) is NeedMore || read_outcome(buf, false) is Failed,
{
}

} // verus!
