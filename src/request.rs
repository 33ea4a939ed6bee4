//! The request model: lines of the request head, the request line and
//! header lookup.

use vstd::prelude::*;
use crate::bytes::{
    all_digits, bytes_equal, copy_range, digits_value, eq_ignore_case, equal_ignore_case,
    find_byte, is_ws, is_ws_byte, next_byte, trim, trimmed,
};

verus! {

/// A line without its trailing carriage return, if it has one.
pub open spec fn strip_cr(l: Seq<u8>) -> Seq<u8> {
    if l.len() > 0 && l.last() == 13 {
        l.drop_last()
    } else {
        l
    }
}

/// The lines of `s` from index `i` on that end with a line feed, each
/// without its line ending; bytes after the last line feed belong to no line.
pub open spec fn lines_from(s: Seq<u8>, i: int) -> Seq<Seq<u8>>
    decreases s.len() - i,
{
    let k = next_byte(s, i, 10);
    if i < 0 || k >= s.len() || k < i {
        seq![]
    } else {
        seq![strip_cr(s.subrange(i, k))] + lines_from(s, k + 1)
    }
}

/// The byte strings held by a vector of byte vectors.
pub open spec fn lines_view(v: Seq<Vec<u8>>) -> Seq<Seq<u8>> {
    v.map_values(|l: Vec<u8>| l@)
}

/// The terminated lines of `s`, each without its line ending.
pub fn split_lines(s: &[u8]) -> (r: Vec<Vec<u8>>)
    ensures
        lines_view(r@) == lines_from(s@, 0),
{
    let mut r: Vec<Vec<u8>> = Vec::new();
    let mut i: usize = 0;
    while i < s.len()
        invariant
            i <= s.len(),
            lines_view(r@) + lines_from(s@, i as int) == lines_from(s@, 0),
        decreases s.len() - i,
    {
        let k = find_byte(s, i, 10);
        if k >= s.len() {
            assert(lines_from(s@, i as int) == Seq::<Seq<u8>>::empty());
            assert(lines_view(r@) + lines_from(s@, s.len() as int) =~= lines_from(s@, 0));
            i = s.len();
        } else {
            let end = if k > i && s[k - 1] == 13 { k - 1 } else { k };
            let line = copy_range(s, i, end);
            assert(line@ == strip_cr(s@.subrange(i as int, k as int))) by {
                let l = s@.subrange(i as int, k as int);
                if l.len() > 0 && l.last() == 13 {
                    assert(l.drop_last() =~= line@);
                } else {
                    assert(l =~= line@);
                }
            }
            let ghost before = lines_view(r@);
            r.push(line);
            assert(lines_view(r@) =~= before.push(line@));
            assert(lines_from(s@, i as int) == seq![line@] + lines_from(s@, k + 1));
            assert(lines_view(r@) + lines_from(s@, k + 1) =~= before + lines_from(s@, i as int));
            i = k + 1;
        }
    }
    assert(lines_view(r@) + lines_from(s@, s.len() as int) =~= lines_view(r@));
    r
}

/// The request method.
#[derive(Clone, Copy, Debug, PartialEq, Eq, Structural)]
pub enum Method {
    Get,
    Post,
    Other,
}

/// The method that a method token names; the match is case-sensitive.
pub open spec fn method_of(tok: Seq<u8>) -> Method {
    if tok == seq![71u8, 69u8, 84u8] {
        Method::Get
    } else if tok == seq![80u8, 79u8, 83u8, 84u8] {
        Method::Post
    } else {
        Method::Other
    }
}

/// The method that `tok` names.
pub fn parse_method(tok: &[u8]) -> (r: Method)
    ensures
        r == method_of(tok@),
{
    let get: Vec<u8> = vec![71u8, 69u8, 84u8];
    let post: Vec<u8> = vec![80u8, 79u8, 83u8, 84u8];
    assert(get@ =~= seq![71u8, 69u8, 84u8]);
    assert(post@ =~= seq![80u8, 79u8, 83u8, 84u8]);
    if bytes_equal(tok, get.as_slice()) {
        Method::Get
    } else if bytes_equal(tok, post.as_slice()) {
        Method::Post
    } else {
        Method::Other
    }
}

/// The first index at or after `i` that holds no whitespace, or `s.len()`.
pub open spec fn skip_ws(s: Seq<u8>, i: int) -> int
    decreases s.len() - i,
{
    if i < 0 || i >= s.len() {
        s.len() as int
    } else if !is_ws(s[i]) {
        i
    } else {
        skip_ws(s, i + 1)
    }
}

/// The first index at or after `i` that holds whitespace, or `s.len()`.
pub open spec fn token_end(s: Seq<u8>, i: int) -> int
    decreases s.len() - i,
{
    if i < 0 || i >= s.len() {
        s.len() as int
    } else if is_ws(s[i]) {
        i
    } else {
        token_end(s, i + 1)
    }
}

/// The first two whitespace-separated tokens of a request line (method and
/// path), or `None` where the line has fewer than two.
pub open spec fn request_line_parts(s: Seq<u8>) -> Option<(Seq<u8>, Seq<u8>)> {
    let a0 = skip_ws(s, 0);
    let b0 = token_end(s, a0);
    let a1 = skip_ws(s, b0);
    let b1 = token_end(s, a1);
    if a1 >= s.len() {
        None
    } else {
        Some((s.subrange(a0, b0), s.subrange(a1, b1)))
    }
}

fn skip_spaces(s: &[u8], i: usize) -> (r: usize)
    requires
        i <= s.len(),
    ensures
        r as int == skip_ws(s@, i as int),
        i <= r <= s.len(),
{
    let mut j: usize = i;
    while j < s.len() && is_ws_byte(s[j])
        invariant
            i <= j <= s.len(),
            skip_ws(s@, i as int) == skip_ws(s@, j as int),
        decreases s.len() - j,
    {
        j = j + 1;
    }
    j
}

fn end_of_token(s: &[u8], i: usize) -> (r: usize)
    requires
        i <= s.len(),
    ensures
        r as int == token_end(s@, i as int),
        i <= r <= s.len(),
{
    let mut j: usize = i;
    while j < s.len() && !is_ws_byte(s[j])
        invariant
            i <= j <= s.len(),
            token_end(s@, i as int) == token_end(s@, j as int),
        decreases s.len() - j,
    {
        j = j + 1;
    }
    j
}

/// A parsed request: method, path, raw header lines (request line
/// excluded) and a body of exactly the declared length.
pub struct Request {
    pub method: Method,
    pub path: Vec<u8>,
    pub headers: Vec<Vec<u8>>,
    pub body: Vec<u8>,
}

/// What a request holds, as byte strings.
pub struct RequestView {
    pub method: Method,
    pub path: Seq<u8>,
    pub headers: Seq<Seq<u8>>,
    pub body: Seq<u8>,
}

impl View for Request {
    type V = RequestView;

    open spec fn view(&self) -> RequestView {
        RequestView {
            method: self.method,
            path: self.path@,
            headers: lines_view(self.headers@),
            body: self.body@,
        }
    }
}

impl Request {
    /// The value of the first header named `name`, without regard to ASCII
    /// case, trimmed of surrounding whitespace.
    pub fn header(&self, name: &[u8]) -> (r: Option<Vec<u8>>)
        ensures
            opt_view(r) == header_lookup(self@.headers, name@),
    {
        find_header(&self.headers, name)
    }
}

/// Why a request could not be read.
#[derive(Clone, Copy, Debug, PartialEq, Eq, Structural)]
pub enum RequestError {
    /// The stream ended before the head or the declared body was complete.
    ReadError,
    /// The request line lacks a method or a path.
    MalformedRequestLine,
}

/// Splits a request line into its method and path; the version is ignored.
pub fn parse_request_line(line: &[u8]) -> (r: Result<(Method, Vec<u8>), RequestError>)
    ensures
        match request_line_parts(line@) {
            None => r == Err::<(Method, Vec<u8>), RequestError>(RequestError::MalformedRequestLine),
            Some((m, p)) => r.is_ok() && r.unwrap().0 == method_of(m) && r.unwrap().1@ == p,
        },
{
    let a0 = skip_spaces(line, 0);
    let b0 = end_of_token(line, a0);
    let a1 = skip_spaces(line, b0);
    let b1 = end_of_token(line, a1);
    if a1 >= line.len() {
        return Err(RequestError::MalformedRequestLine);
    }
    let m = copy_range(line, a0, b0);
    let p = copy_range(line, a1, b1);
    Ok((parse_method(m.as_slice()), p))
}

/// Whether a header line has the name `name` (ASCII case-insensitive); the
/// name is everything before the first colon.
pub open spec fn header_matches(line: Seq<u8>, name: Seq<u8>) -> bool {
    let c = next_byte(line, 0, 58);
    c < line.len() && eq_ignore_case(line.subrange(0, c), name)
}

/// The trimmed text after the first colon of a header line.
pub open spec fn header_value(line: Seq<u8>) -> Seq<u8> {
    trim(line.subrange(next_byte(line, 0, 58) + 1, line.len() as int))
}

/// The value of the first header from index `i` on whose name is `name`.
pub open spec fn lookup_from(headers: Seq<Seq<u8>>, i: int, name: Seq<u8>) -> Option<Seq<u8>>
    decreases headers.len() - i,
{
    if i < 0 || i >= headers.len() {
        None
    } else if header_matches(headers[i], name) {
        Some(header_value(headers[i]))
    } else {
        lookup_from(headers, i + 1, name)
    }
}

/// The value of the first header named `name`, compared without regard to
/// ASCII case.
pub open spec fn header_lookup(headers: Seq<Seq<u8>>, name: Seq<u8>) -> Option<Seq<u8>> {
    lookup_from(headers, 0, name)
}

/// The byte strings inside an optional byte vector.
pub open spec fn opt_view(o: Option<Vec<u8>>) -> Option<Seq<u8>> {
    match o {
        Some(v) => Some(v@),
        None => None,
    }
}

/// The value of the first header in `headers` named `name`.
pub fn find_header(headers: &Vec<Vec<u8>>, name: &[u8]) -> (r: Option<Vec<u8>>)
    ensures
        opt_view(r) == header_lookup(lines_view(headers@), name@),
{
    let ghost hs = lines_view(headers@);
    let mut i: usize = 0;
    while i < headers.len()
        invariant
            i <= headers.len(),
            hs == lines_view(headers@),
            header_lookup(hs, name@) == lookup_from(hs, i as int, name@),
        decreases headers.len() - i,
    {
        let line = headers[i].as_slice();
        assert(line@ == hs[i as int]);
        let c = find_byte(line, 0, 58);
        if c < line.len() {
            let n = copy_range(line, 0, c);
            if equal_ignore_case(n.as_slice(), name) {
                let v = trimmed(line, c + 1, line.len());
                return Some(v);
            }
        }
        i = i + 1;
    }
    None
}

/// The body length that `headers` declare: the value of `content-length`
/// where it is a decimal number that fits in `usize`, else zero.
pub open spec fn content_length(headers: Seq<Seq<u8>>) -> nat {
    match header_lookup(headers, content_length_name()) {
        Some(v) => if v.len() > 0 && all_digits(v) && digits_value(v) <= usize::MAX {
            digits_value(v)
        } else {
            0
        },
        None => 0,
    }
}

/// The header name `content-length`.
pub open spec fn content_length_name() -> Seq<u8> {
    seq![99u8, 111u8, 110u8, 116u8, 101u8, 110u8, 116u8, 45u8, 108u8, 101u8, 110u8, 103u8, 116u8, 104u8]
}

/// The body length that `headers` declare.
pub fn declared_length(headers: &Vec<Vec<u8>>) -> (r: usize)
    ensures
        r as nat == content_length(lines_view(headers@)),
{
    let name: Vec<u8> = vec![99u8, 111u8, 110u8, 116u8, 101u8, 110u8, 116u8, 45u8, 108u8, 101u8, 110u8, 103u8, 116u8, 104u8];
    assert(name@ =~= content_length_name());
    match find_header(headers, name.as_slice()) {
        Some(v) => match crate::bytes::parse_decimal(v.as_slice()) {
            Some(n) => n,
            None => 0,
        },
        None => 0,
    }
}

} // verus!
