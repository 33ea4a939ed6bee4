//! Routing of a request to its handler, and the handlers' decisions. The
//! file handlers hand their file work to the caller as an `Action`, and
//! build their responses from its outcome.

use vstd::prelude::*;
use crate::bytes::{bytes_equal, copy_range, decimal, find_byte, lemma_next_byte_absent, lemma_next_byte_at, next_byte};
use crate::request::{header_lookup, opt_view, Method, Request, RequestView};
use crate::response::{
    content_length_prefix, content_type_prefix, content_type_text, crlf, status_line, wire,
    ContentType, Response, ResponseView, Status,
};

verus! {

/// `echo`
pub open spec fn echo_segment() -> Seq<u8> {
    seq![101u8, 99u8, 104u8, 111u8]
}

/// `user-agent`
pub open spec fn user_agent_segment() -> Seq<u8> {
    seq![117u8, 115u8, 101u8, 114u8, 45u8, 97u8, 103u8, 101u8, 110u8, 116u8]
}

/// `files`
pub open spec fn files_segment() -> Seq<u8> {
    seq![102u8, 105u8, 108u8, 101u8, 115u8]
}

/// A file name that stays inside the serving root: not empty, not `.` and
/// not `..` (it holds no `/`, being one path segment).
pub open spec fn file_name_ok(name: Seq<u8>) -> bool {
    name.len() > 0 && name != seq![46u8] && name != seq![46u8, 46u8]
}

/// The handler that a request goes to.
pub enum Route {
    /// `GET /`.
    Root,
    /// `GET /echo/...`, with the text after `/echo/`.
    Echo(Vec<u8>),
    /// `GET /user-agent`.
    UserAgent,
    /// `GET /files/<name>`.
    ReadFile(Vec<u8>),
    /// `POST /files/<name>`.
    CreateFile(Vec<u8>),
    /// Anything else.
    NotFound,
}

/// A `Route` as byte strings.
pub enum RouteView {
    Root,
    Echo(Seq<u8>),
    UserAgent,
    ReadFile(Seq<u8>),
    CreateFile(Seq<u8>),
    NotFound,
}

impl View for Route {
    type V = RouteView;

    open spec fn view(&self) -> RouteView {
        match self {
            Route::Root => RouteView::Root,
            Route::Echo(t) => RouteView::Echo(t@),
            Route::UserAgent => RouteView::UserAgent,
            Route::ReadFile(n) => RouteView::ReadFile(n@),
            Route::CreateFile(n) => RouteView::CreateFile(n@),
            Route::NotFound => RouteView::NotFound,
        }
    }
}

/// The route of a method and a path. The first segment is the text between
/// the leading `/` and the next `/`; the rest is what follows that second
/// `/`, and a file name is the first segment of the rest.
pub open spec fn route_of(m: Method, p: Seq<u8>) -> RouteView {
    if p == seq![47u8] {
        if m == Method::Get {
            RouteView::Root
        } else {
            RouteView::NotFound
        }
    } else if p.len() == 0 || p[0] != 47 {
        RouteView::NotFound
    } else {
        let e = next_byte(p, 1, 47);
        let seg = p.subrange(1, e);
        let rest = if e < p.len() {
            p.subrange(e + 1, p.len() as int)
        } else {
            seq![]
        };
        let name = rest.subrange(0, next_byte(rest, 0, 47));
        if m == Method::Get && seg == echo_segment() {
            RouteView::Echo(rest)
        } else if m == Method::Get && seg == user_agent_segment() {
            RouteView::UserAgent
        } else if seg == files_segment() && m != Method::Other {
            if !file_name_ok(name) {
                RouteView::NotFound
            } else if m == Method::Get {
                RouteView::ReadFile(name)
            } else {
                RouteView::CreateFile(name)
            }
        } else {
            RouteView::NotFound
        }
    }
}

fn is_file_name_ok(name: &[u8]) -> (r: bool)
    ensures
        r == file_name_ok(name@),
{
    let dot: Vec<u8> = vec![46u8];
    let dots: Vec<u8> = vec![46u8, 46u8];
    assert(dot@ =~= seq![46u8]);
    assert(dots@ =~= seq![46u8, 46u8]);
    name.len() > 0 && !bytes_equal(name, dot.as_slice()) && !bytes_equal(name, dots.as_slice())
}

/// Selects the handler for `method` and `path`.
pub fn route(method: Method, path: &[u8]) -> (r: Route)
    ensures
        r@ == route_of(method, path@),
{
    let slash: Vec<u8> = vec![47u8];
    assert(slash@ =~= seq![47u8]);
    if bytes_equal(path, slash.as_slice()) {
        return if method == Method::Get {
            Route::Root
        } else {
            Route::NotFound
        };
    }
    if path.len() == 0 || path[0] != 47 {
        return Route::NotFound;
    }
    let e = find_byte(path, 1, 47);
    let seg = copy_range(path, 1, e);
    let rest = if e < path.len() {
        copy_range(path, e + 1, path.len())
    } else {
        Vec::new()
    };
    assert(rest@ =~= (if e < path.len() {
        path@.subrange(e + 1, path@.len() as int)
    } else {
        Seq::<u8>::empty()
    }));
    let echo: Vec<u8> = vec![101u8, 99u8, 104u8, 111u8];
    let user_agent: Vec<u8> = vec![117u8, 115u8, 101u8, 114u8, 45u8, 97u8, 103u8, 101u8, 110u8, 116u8];
    let files: Vec<u8> = vec![102u8, 105u8, 108u8, 101u8, 115u8];
    assert(echo@ =~= echo_segment());
    assert(user_agent@ =~= user_agent_segment());
    assert(files@ =~= files_segment());
    if method == Method::Get && bytes_equal(seg.as_slice(), echo.as_slice()) {
        Route::Echo(rest)
    } else if method == Method::Get && bytes_equal(seg.as_slice(), user_agent.as_slice()) {
        Route::UserAgent
    } else if bytes_equal(seg.as_slice(), files.as_slice()) && method != Method::Other {
        let n = find_byte(rest.as_slice(), 0, 47);
        let name = copy_range(rest.as_slice(), 0, n);
        if !is_file_name_ok(name.as_slice()) {
            Route::NotFound
        } else if method == Method::Get {
            Route::ReadFile(name)
        } else {
            Route::CreateFile(name)
        }
    } else {
        Route::NotFound
    }
}

/// What to do with a request.
pub enum Action {
    /// Send this response.
    Respond(Response),
    /// Read the named file under the serving root, then answer with
    /// `file_read_response`.
    ReadFile(Vec<u8>),
    /// Write these contents to the named file under the serving root,
    /// creating or truncating it, then answer with `file_create_response`.
    WriteFile(Vec<u8>, Vec<u8>),
    /// Close the connection without a response.
    Close,
}

/// An `Action` as byte strings.
pub enum ActionView {
    Respond(ResponseView),
    ReadFile(Seq<u8>),
    WriteFile(Seq<u8>, Seq<u8>),
    Close,
}

impl View for Action {
    type V = ActionView;

    open spec fn view(&self) -> ActionView {
        match self {
            Action::Respond(r) => ActionView::Respond(r@),
            Action::ReadFile(n) => ActionView::ReadFile(n@),
            Action::WriteFile(n, c) => ActionView::WriteFile(n@, c@),
            Action::Close => ActionView::Close,
        }
    }
}

/// A `200 OK` response with a `text/plain` body.
pub open spec fn text_response(body: Seq<u8>) -> ResponseView {
    ResponseView { status: Status::Success, content_type: Some(ContentType::TextPlain), body: body }
}

/// A response with no content type and an empty body.
pub open spec fn empty_response(s: Status) -> ResponseView {
    ResponseView { status: s, content_type: None, body: seq![] }
}

/// What the server does with a request. A user-agent request without a
/// `User-Agent` header closes the connection with no response.
pub open spec fn action_of(req: RequestView) -> ActionView {
    match route_of(req.method, req.path) {
        RouteView::Root => ActionView::Respond(empty_response(Status::Success)),
        RouteView::Echo(t) => ActionView::Respond(text_response(t)),
        RouteView::UserAgent => match header_lookup(req.headers, user_agent_segment()) {
            Some(v) => ActionView::Respond(text_response(v)),
            None => ActionView::Close,
        },
        RouteView::ReadFile(n) => ActionView::ReadFile(n),
        RouteView::CreateFile(n) => ActionView::WriteFile(n, req.body),
        RouteView::NotFound => ActionView::Respond(empty_response(Status::NotFound)),
    }
}

/// Decides what to do with a request.
pub fn dispatch(req: &Request) -> (r: Action)
    ensures
        r@ == action_of(req@),
{
    match route(req.method, req.path.as_slice()) {
        Route::Root => Action::Respond(Response::empty(Status::Success)),
        Route::Echo(t) => Action::Respond(Response::text(t)),
        Route::UserAgent => {
            let name: Vec<u8> = vec![117u8, 115u8, 101u8, 114u8, 45u8, 97u8, 103u8, 101u8, 110u8, 116u8];
            assert(name@ =~= user_agent_segment());
            match req.header(name.as_slice()) {
                Some(v) => Action::Respond(Response::text(v)),
                None => Action::Close,
            }
        },
        Route::ReadFile(n) => Action::ReadFile(n),
        Route::CreateFile(n) => {
            let body = copy_range(req.body.as_slice(), 0, req.body.len());
            assert(body@ =~= req.body@);
            Action::WriteFile(n, body)
        },
        Route::NotFound => Action::Respond(Response::empty(Status::NotFound)),
    }
}

/// The answer to a file read: the file's contents as
/// `application/octet-stream`, or `404 Not Found` where the serving root is
/// missing or the file could not be read (`None`).
pub open spec fn file_read_answer(contents: Option<Seq<u8>>) -> ResponseView {
    match contents {
        Some(c) => ResponseView { status: Status::Success, content_type: Some(ContentType::OctetStream), body: c },
        None => empty_response(Status::NotFound),
    }
}

/// The answer to a file read, from the file's contents or `None`.
pub fn file_read_response(contents: Option<Vec<u8>>) -> (r: Response)
    ensures
        r@ == file_read_answer(opt_view(contents)),
{
    match contents {
        Some(c) => Response::octets(c),
        None => Response::empty(Status::NotFound),
    }
}

/// The answer to a file write: `201 Created` where the serving root is a
/// directory and the file was written, `404 Not Found` where the root is
/// missing.
pub fn file_create_response(root_ok: bool) -> (r: Response)
    ensures
        r@ == (if root_ok {
            empty_response(Status::Created)
        } else {
            empty_response(Status::NotFound)
        }),
{
    if root_ok {
        Response::empty(Status::Created)
    } else {
        Response::empty(Status::NotFound)
    }
}

/// `/echo/`
pub open spec fn echo_prefix() -> Seq<u8> {
    seq![47u8, 101u8, 99u8, 104u8, 111u8, 47u8]
}

/// `/files/`
pub open spec fn files_prefix() -> Seq<u8> {
    seq![47u8, 102u8, 105u8, 108u8, 101u8, 115u8, 47u8]
}

proof fn lemma_route_after_prefix(m: Method, pre: Seq<u8>, seg: Seq<u8>, s: Seq<u8>)
    requires
        pre.len() >= 2,
        pre[0] == 47,
        pre.last() == 47,
        seg =~= pre.subrange(1, pre.len() - 1),
        forall|k: int| 1 <= k < pre.len() - 1 ==> pre[k] != 47,
    ensures
        ({
            let p = pre + s;
            let e = next_byte(p, 1, 47);
            &&& p != seq![47u8]
            &&& p.len() > 0 && p[0] == 47
            &&& e == pre.len() - 1
            &&& p.subrange(1, e) == seg
            &&& e < p.len()
            &&& p.subrange(e + 1, p.len() as int) == s
        }),
{
    let p = pre + s;
    assert(p.len() != 1);
    assert(p[0] == 47);
    let last = pre.len() - 1;
    assert forall|k: int| 1 <= k < last implies p[k] != 47 by {
        assert(p[k] == pre[k]);
    }
    lemma_next_byte_at(p, 1, last, 47);
    assert(p.subrange(1, last) =~= seg);
    assert(p.subrange(last + 1, p.len() as int) =~= s);
}

/// A GET of `/echo/` followed by any text answers `200 OK` with exactly
/// that text as a `text/plain` body, and its `Content-Length` is the text's
/// length, whatever the headers and body.
pub proof fn lemma_echo_returns_text(s: Seq<u8>, headers: Seq<Seq<u8>>, body: Seq<u8>)
    ensures
        action_of(RequestView { method: Method::Get, path: echo_prefix() + s, headers: headers, body: body })
            == ActionView::Respond(text_response(s)),
        wire(text_response(s)) == status_line(Status::Success) + crlf() + content_type_prefix()
            + content_type_text(ContentType::TextPlain) + crlf() + content_length_prefix()
            + decimal(s.len()) + crlf() + crlf() + s,
{
    lemma_route_after_prefix(Method::Get, echo_prefix(), echo_segment(), s);
}

/// A GET of `/echo/a/b/c` answers with exactly `a/b/c`: the segments after
/// `echo` come back joined by `/`.
pub proof fn lemma_echo_keeps_segments(
    a: Seq<u8>,
    b: Seq<u8>,
    c: Seq<u8>,
    headers: Seq<Seq<u8>>,
    body: Seq<u8>,
)
    ensures
        ({
            let joined = a + seq![47u8] + b + seq![47u8] + c;
            action_of(
                RequestView {
                    method: Method::Get,
                    path: echo_prefix() + a + seq![47u8] + b + seq![47u8] + c,
                    headers: headers,
                    body: body,
                },
            ) == ActionView::Respond(text_response(joined))
        }),
{
    let joined = a + seq![47u8] + b + seq![47u8] + c;
    assert(echo_prefix() + a + seq![47u8] + b + seq![47u8] + c =~= echo_prefix() + joined);
    lemma_echo_returns_text(joined, headers, body);
}

/// A GET of `/` answers `200 OK` with no headers and an empty body,
/// whatever the request's headers and body.
pub proof fn lemma_root_is_ok(headers: Seq<Seq<u8>>, body: Seq<u8>)
    ensures
        action_of(RequestView { method: Method::Get, path: seq![47u8], headers: headers, body: body })
            == ActionView::Respond(empty_response(Status::Success)),
        wire(empty_response(Status::Success)) == status_line(Status::Success) + crlf() + crlf(),
{
    assert(wire(empty_response(Status::Success)) =~= status_line(Status::Success) + crlf() + crlf());
}

/// A file written and read back: a POST of `/files/<name>` writes exactly
/// the request body under `name`, a GET of the same path reads `name`, and
/// the contents read back are answered unchanged as
/// `application/octet-stream`.
pub proof fn lemma_file_round_trip(
    name: Seq<u8>,
    contents: Seq<u8>,
    post_headers: Seq<Seq<u8>>,
    get_headers: Seq<Seq<u8>>,
    get_body: Seq<u8>,
)
    requires
        file_name_ok(name),
        forall|k: int| 0 <= k < name.len() ==> name[k] != 47,
    ensures
        action_of(RequestView { method: Method::Post, path: files_prefix() + name, headers: post_headers, body: contents })
            == ActionView::WriteFile(name, contents),
        action_of(RequestView { method: Method::Get, path: files_prefix() + name, headers: get_headers, body: get_body })
            == ActionView::ReadFile(name),
        file_read_answer(Some(contents))
            == (ResponseView { status: Status::Success, content_type: Some(ContentType::OctetStream), body: contents }),
{
    lemma_route_after_prefix(Method::Post, files_prefix(), files_segment(), name);
    lemma_next_byte_absent(name, 0, 47);
    assert(name.subrange(0, name.len() as int) =~= name);
    assert(files_segment() != echo_segment());
    assert(files_segment() != user_agent_segment());
}

} // verus!
