//! The handlers, one for each route, and the choice among them by the path
//! of the request.

use vstd::prelude::*;
use vstd::string::StringExecFns;
use vstd::utf8::encode_utf8;
use crate::http_request::{HttpRequest, RequestView};
use crate::response::{build_response, decimal, decimal_string, response_bytes};
use crate::text::{
    chars_of, contains, contains_run, lemma_split_pieces_lack_sep, nth_segment, segment,
    starts_with,
};

verus! {

/// The response `200 OK` without headers and without a body.
pub open spec fn ok_response() -> Seq<u8> {
    response_bytes(200, "OK"@, Seq::empty(), Seq::empty())
}

/// The response `404 Not Found` without headers and without a body.
pub open spec fn not_found_response() -> Seq<u8> {
    response_bytes(404, "Not Found"@, Seq::empty(), Seq::empty())
}

/// The response `200 OK` that carries `body`: a `Content-Type` header with
/// `content_type`, a `Content-Length` header with the number of bytes of
/// `body` in decimal, and then `body`.
pub open spec fn content_response(content_type: Seq<char>, body: Seq<u8>) -> Seq<u8> {
    response_bytes(
        200,
        "OK"@,
        seq!["Content-Type: "@ + content_type, "Content-Length: "@ + decimal(body.len())],
        body,
    )
}

/// What the echo route answers to `path`: the third piece of the path, where
/// there is one, as plain text; else an empty `200 OK`.
pub open spec fn echo_response(path: Seq<char>) -> Seq<u8> {
    match segment(path, '/', 2) {
        Some(text) => content_response("text/plain"@, encode_utf8(text)),
        None => ok_response(),
    }
}

/// What the user-agent route answers: the value of the header `User-Agent`,
/// where the request has one that is not empty, as plain text; else an empty
/// `200 OK`.
pub open spec fn user_agent_response(headers: Map<Seq<char>, Seq<char>>) -> Seq<u8> {
    if headers.contains_key("User-Agent"@) && headers["User-Agent"@].len() > 0 {
        content_response("text/plain"@, encode_utf8(headers["User-Agent"@]))
    } else {
        ok_response()
    }
}

/// The name of the file that `path` asks for: its third piece, unless that
/// is missing, empty, or holds two dots in a row.
pub open spec fn requested_file(path: Seq<char>) -> Option<Seq<char>> {
    match segment(path, '/', 2) {
        Some(name) => if name.len() > 0 && !contains_run(name, ".."@) {
            Some(name)
        } else {
            None
        },
        None => None,
    }
}

/// What the file route answers to `path`, given what reading the requested
/// file gave: its contents as an octet stream where `path` asks for a file
/// and that file was read; else `404 Not Found`.
pub open spec fn file_response(path: Seq<char>, file: Option<Seq<u8>>) -> Seq<u8> {
    match (requested_file(path), file) {
        (Some(_), Some(contents)) => content_response("application/octet-stream"@, contents),
        _ => not_found_response(),
    }
}

/// The name that the file route asks for is a plain name: it is not empty,
/// holds no slash and holds no two dots in a row. Where the path asks for no
/// such name, and where nothing was read, the answer is `404 Not Found`.
pub proof fn lemma_requested_file_is_plain(path: Seq<char>, file: Option<Seq<u8>>)
    ensures
        requested_file(path) matches Some(name) ==> name.len() > 0 && !name.contains('/')
            && !contains_run(name, ".."@),
        requested_file(path) is None ==> file_response(path, file) == not_found_response(),
        file is None ==> file_response(path, file) == not_found_response(),
{
    lemma_split_pieces_lack_sep(path, '/');
}

/// The routes of the server.
#[derive(Debug, Clone, Copy, PartialEq, Eq)]
pub enum HandlerKind {
    Root,
    Echo,
    UserAgent,
    FileRead,
    NotFound,
}

/// The route of `path`. The first of these that applies decides: a path
/// that begins with `/echo`, with `/user-agent`, with `/files`; the path
/// `/`; any other path.
pub open spec fn route(path: Seq<char>) -> HandlerKind {
    if "/echo"@.is_prefix_of(path) {
        HandlerKind::Echo
    } else if "/user-agent"@.is_prefix_of(path) {
        HandlerKind::UserAgent
    } else if "/files"@.is_prefix_of(path) {
        HandlerKind::FileRead
    } else if path == "/"@ {
        HandlerKind::Root
    } else {
        HandlerKind::NotFound
    }
}

/// Every path has one route, and each route has a condition of its own: no
/// path meets the conditions of two routes, so none is decided by the order
/// in which the conditions are tried.
pub proof fn lemma_route_exclusive(path: Seq<char>)
    ensures
        route(path) == HandlerKind::Echo <==> "/echo"@.is_prefix_of(path),
        route(path) == HandlerKind::UserAgent <==> "/user-agent"@.is_prefix_of(path),
        route(path) == HandlerKind::FileRead <==> "/files"@.is_prefix_of(path),
        route(path) == HandlerKind::Root <==> path == "/"@,
        route(path) == HandlerKind::NotFound <==> !"/echo"@.is_prefix_of(path)
            && !"/user-agent"@.is_prefix_of(path) && !"/files"@.is_prefix_of(path) && path != "/"@,
{
    reveal_strlit("/echo");
    reveal_strlit("/user-agent");
    reveal_strlit("/files");
    reveal_strlit("/");
    if "/echo"@.is_prefix_of(path) {
        assert(path[1] == "/echo"@[1]);
    }
    if "/user-agent"@.is_prefix_of(path) {
        assert(path[1] == "/user-agent"@[1]);
    }
    if "/files"@.is_prefix_of(path) {
        assert(path[1] == "/files"@[1]);
    }
}

/// Something that answers a request with the bytes of a response.
pub trait Handler {
    /// The response that this handler gives to `request`.
    spec fn response(&self, request: RequestView) -> Seq<u8>;

    /// Answers `request`.
    fn execute(&self, request: &HttpRequest) -> (response: Vec<u8>)
        ensures
            response@ == self.response(request@),
    ;
}

/// Answers every request with an empty `200 OK`.
pub struct RootHandler;

/// Answers every request with `404 Not Found`.
pub struct NotFoundHandler;

/// Answers with the third piece of the path.
pub struct EchoHandler;

/// Answers with the value of the header `User-Agent`.
pub struct UserAgentHandler;

/// Answers with the contents of the file that the path names. The handler
/// does not read the file: it is made with what reading the file gave.
pub struct FileReadHandler {
    /// The contents of the requested file, or `None` where the request asks
    /// for no file or the file could not be read.
    pub file: Option<Vec<u8>>,
}

/// A `200 OK` that carries `body` with the given content type.
pub fn respond_with(content_type: &str, body: &[u8]) -> (response: Vec<u8>)
    ensures
        response@ == content_response(content_type@, body@),
{
    let mut type_line = String::from_str("Content-Type: ");
    type_line.append(content_type);
    let mut length_line = String::from_str("Content-Length: ");
    let length = decimal_string(body.len());
    length_line.append(length.as_str());
    let mut headers: Vec<String> = Vec::new();
    headers.push(type_line);
    headers.push(length_line);
    assert(headers.deep_view() =~= seq![
        "Content-Type: "@ + content_type@,
        "Content-Length: "@ + decimal(body@.len()),
    ]);
    build_response(200, "OK", &headers, body)
}

/// An empty `200 OK`.
pub fn respond_ok() -> (response: Vec<u8>)
    ensures
        response@ == ok_response(),
{
    let headers: Vec<String> = Vec::new();
    let body: Vec<u8> = Vec::new();
    build_response(200, "OK", &headers, body.as_slice())
}

/// A `404 Not Found`.
pub fn respond_not_found() -> (response: Vec<u8>)
    ensures
        response@ == not_found_response(),
{
    let headers: Vec<String> = Vec::new();
    let body: Vec<u8> = Vec::new();
    build_response(404, "Not Found", &headers, body.as_slice())
}

impl Handler for RootHandler {
    open spec fn response(&self, request: RequestView) -> Seq<u8> {
        ok_response()
    }

    fn execute(&self, _request: &HttpRequest) -> (response: Vec<u8>) {
        respond_ok()
    }
}

impl Handler for NotFoundHandler {
    open spec fn response(&self, request: RequestView) -> Seq<u8> {
        not_found_response()
    }

    fn execute(&self, _request: &HttpRequest) -> (response: Vec<u8>) {
        respond_not_found()
    }
}

impl Handler for EchoHandler {
    open spec fn response(&self, request: RequestView) -> Seq<u8> {
        echo_response(request.path)
    }

    fn execute(&self, request: &HttpRequest) -> (response: Vec<u8>) {
        match nth_segment(request.path.as_str(), '/', 2) {
            Some(text) => respond_with("text/plain", text.as_str().as_bytes()),
            None => respond_ok(),
        }
    }
}

impl Handler for UserAgentHandler {
    open spec fn response(&self, request: RequestView) -> Seq<u8> {
        user_agent_response(request.headers)
    }

    fn execute(&self, request: &HttpRequest) -> (response: Vec<u8>) {
        match request.headers.get("User-Agent") {
            Some(agent) => {
                if agent.as_str().is_empty() {
                    respond_ok()
                } else {
                    respond_with("text/plain", agent.as_str().as_bytes())
                }
            },
            None => respond_ok(),
        }
    }
}

impl FileReadHandler {
    /// The name of the file that `request` asks for, to be looked up in the
    /// directory that is served. `None` where the path has no third piece,
    /// where that piece is empty, and where it holds two dots in a row.
    pub fn requested_file(request: &HttpRequest) -> (name: Option<String>)
        ensures
            name.deep_view() == requested_file(request@.path),
    {
        match nth_segment(request.path.as_str(), '/', 2) {
            Some(name) => {
                if name.as_str().is_empty() || contains(name.as_str(), "..") {
                    None
                } else {
                    Some(name)
                }
            },
            None => None,
        }
    }
}

impl Handler for FileReadHandler {
    open spec fn response(&self, request: RequestView) -> Seq<u8> {
        file_response(request.path, self.file.deep_view())
    }

    fn execute(&self, request: &HttpRequest) -> (response: Vec<u8>) {
        match (Self::requested_file(request), &self.file) {
            (Some(_), Some(contents)) => respond_with(
                "application/octet-stream",
                contents.as_slice(),
            ),
            _ => respond_not_found(),
        }
    }
}

impl HandlerKind {
    /// The response of this route to `request`, where `file` is what
    /// reading the requested file gave.
    pub open spec fn response(self, request: RequestView, file: Option<Seq<u8>>) -> Seq<u8> {
        match self {
            HandlerKind::Root => ok_response(),
            HandlerKind::Echo => echo_response(request.path),
            HandlerKind::UserAgent => user_agent_response(request.headers),
            HandlerKind::FileRead => file_response(request.path, file),
            HandlerKind::NotFound => not_found_response(),
        }
    }

    /// Answers `request` as this route does. Only the file route looks at
    /// `file`.
    pub fn execute(self, request: &HttpRequest, file: Option<Vec<u8>>) -> (response: Vec<u8>)
        ensures
            response@ == self.response(request@, file.deep_view()),
    {
        match self {
            HandlerKind::Root => RootHandler.execute(request),
            HandlerKind::Echo => EchoHandler.execute(request),
            HandlerKind::UserAgent => UserAgentHandler.execute(request),
            HandlerKind::FileRead => (FileReadHandler { file }).execute(request),
            HandlerKind::NotFound => NotFoundHandler.execute(request),
        }
    }
}

/// Chooses the route of a request by its path.
pub fn handle_request(request: &HttpRequest) -> (kind: HandlerKind)
    ensures
        kind == route(request@.path),
{
    let path = request.path.as_str();
    if starts_with(path, "/echo") {
        HandlerKind::Echo
    } else if starts_with(path, "/user-agent") {
        HandlerKind::UserAgent
    } else if starts_with(path, "/files") {
        HandlerKind::FileRead
    } else {
        let chars = chars_of(path);
        proof {
            reveal_strlit("/");
        }
        if chars.len() == 1 && chars[0] == '/' {
            assert(path@ =~= "/"@);
            HandlerKind::Root
        } else {
            HandlerKind::NotFound
        }
    }
}

} // verus!
