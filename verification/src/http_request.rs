//! A request as it was read from a connection, and the parser that builds it
//! from the lines of the message.

use vstd::prelude::*;
use vstd::hash_map::StringHashMap;
use vstd::slice::slice_subrange;
use vstd::string::StringExecFns;
use crate::text::{
    blank, chars_of, is_blank, join, lemma_prefix_while_is, other_than, prefix_while, skip_until,
    split_whitespace, substring, trim, trimmed, words,
};

verus! {

/// The header fields of a request: a value for each name. Names are told
/// apart by case, and a name has one value.
pub struct Headers {
    fields: StringHashMap<String>,
}

impl View for Headers {
    type V = Map<Seq<char>, Seq<char>>;

    closed spec fn view(&self) -> Map<Seq<char>, Seq<char>> {
        self.fields@.map_values(|value: String| value@)
    }
}

impl Headers {
    /// No header fields.
    pub fn new() -> (headers: Self)
        ensures
            headers@ == Map::<Seq<char>, Seq<char>>::empty(),
    {
        Headers { fields: StringHashMap::new() }
    }

    /// Gives `name` the value `value`, in place of the value it had, if any.
    pub fn insert(&mut self, name: String, value: String)
        ensures
            final(self)@ == old(self)@.insert(name@, value@),
    {
        self.fields.insert(name, value);
    }

    /// The value of `name`, if it has one.
    pub fn get(&self, name: &str) -> (value: Option<&String>)
        ensures
            match value {
                Some(v) => self@.contains_key(name@) && self@[name@] == v@,
                None => !self@.contains_key(name@),
            },
    {
        self.fields.get(name)
    }

    /// Whether `name` has a value.
    pub fn contains_key(&self, name: &str) -> (b: bool)
        ensures
            b == self@.contains_key(name@),
    {
        self.fields.contains_key(name)
    }

    /// The number of names that have a value.
    pub fn len(&self) -> (n: usize)
        ensures
            n == self@.len(),
    {
        assert(self@.dom() =~= self.fields@.dom());
        self.fields.len()
    }
}

/// What a request holds, as mathematical values.
pub struct RequestView {
    pub method: Seq<char>,
    pub path: Seq<char>,
    pub http_version: Seq<char>,
    pub headers: Map<Seq<char>, Seq<char>>,
    pub body: Option<Seq<char>>,
}

/// One request: the three parts of its request line, its header fields, and
/// its body where the message had one.
pub struct HttpRequest {
    pub method: String,
    pub path: String,
    pub http_version: String,
    pub headers: Headers,
    pub body: Option<String>,
}

impl View for HttpRequest {
    type V = RequestView;

    open spec fn view(&self) -> RequestView {
        RequestView {
            method: self.method@,
            path: self.path@,
            http_version: self.http_version@,
            headers: self.headers@,
            body: self.body.deep_view(),
        }
    }
}

impl HttpRequest {
    /// A request made of the given parts.
    pub fn new(
        method: String,
        path: String,
        http_version: String,
        headers: Headers,
        body: Option<String>,
    ) -> (request: Self)
        ensures
            request == (HttpRequest { method, path, http_version, headers, body }),
    {
        Self { method, path, http_version, headers, body }
    }
}

/// Why a sequence of lines is no request.
#[derive(Debug, Clone, Copy, PartialEq, Eq)]
pub enum ParseError {
    /// There are no lines at all.
    EmptyRequest,
    /// The first line holds fewer than three words.
    MalformedRequestLine,
}

/// The lines that are not blank.
pub open spec fn non_blank() -> spec_fn(Seq<char>) -> bool {
    |line: Seq<char>| !is_blank(line)
}

/// The header field that a line states: the text before its first colon as
/// the name and the text after it as the value, both trimmed. A line
/// without a colon states none.
pub open spec fn header_of(line: Seq<char>) -> Option<(Seq<char>, Seq<char>)> {
    let colon = prefix_while(line, other_than(':')) as int;
    if colon < line.len() {
        Some((trim(line.take(colon)), trim(line.skip(colon + 1))))
    } else {
        None
    }
}

/// The header fields that `lines` state. Where a name is stated more than
/// once, the last statement counts.
pub open spec fn headers_of(lines: Seq<Seq<char>>) -> Map<Seq<char>, Seq<char>>
    decreases lines.len(),
{
    if lines.len() == 0 {
        Map::empty()
    } else {
        let earlier = headers_of(lines.drop_last());
        match header_of(lines.last()) {
            Some((name, value)) => earlier.insert(name, value),
            None => earlier,
        }
    }
}

/// The request that `lines` make up, or the reason why they make up none.
///
/// The first line gives method, path and version as its first three words.
/// The lines after it, up to the first blank one, state the header fields.
/// Where there is a blank line, the lines after it, joined by line feeds,
/// are the body.
pub open spec fn parse_request(lines: Seq<Seq<char>>) -> Result<RequestView, ParseError> {
    if lines.len() == 0 {
        Err(ParseError::EmptyRequest)
    } else if words(lines[0]).len() < 3 {
        Err(ParseError::MalformedRequestLine)
    } else {
        let parts = words(lines[0]);
        let rest = lines.skip(1);
        let stated = prefix_while(rest, non_blank()) as int;
        Ok(
            RequestView {
                method: parts[0],
                path: parts[1],
                http_version: parts[2],
                headers: headers_of(rest.take(stated)),
                body: if stated < rest.len() {
                    Some(join(rest.skip(stated + 1), "\n"@))
                } else {
                    None
                },
            },
        )
    }
}

/// The outcome of parsing, with the request as its view.
pub open spec fn outcome_view(result: Result<HttpRequest, ParseError>) -> Result<
    RequestView,
    ParseError,
> {
    match result {
        Ok(request) => Ok(request@),
        Err(e) => Err(e),
    }
}

/// Parsing is a function of the lines: two outcomes for the same lines hold
/// the same request, or the same error.
pub proof fn lemma_parse_deterministic(
    lines: Seq<Seq<char>>,
    first: Result<HttpRequest, ParseError>,
    second: Result<HttpRequest, ParseError>,
)
    requires
        outcome_view(first) == parse_request(lines),
        outcome_view(second) == parse_request(lines),
    ensures
        outcome_view(first) == outcome_view(second),
        first is Ok <==> second is Ok,
        first is Ok ==> first->Ok_0@ == second->Ok_0@,
{
}

/// The header field that `line` states, if it states one.
pub fn parse_header_line(line: &str) -> (field: Option<(String, String)>)
    ensures
        field.deep_view() == header_of(line@),
{
    let chars = chars_of(line);
    assert(chars@.skip(0) == chars@);
    let colon = skip_until(&chars, 0, ':');
    if colon < chars.len() {
        let name = trimmed(substring(line, 0, colon).as_str());
        let value = trimmed(substring(line, colon + 1, chars.len()).as_str());
        Some((name, value))
    } else {
        None
    }
}

/// The lines, joined by line feeds.
pub fn join_lines(lines: &[String]) -> (text: String)
    ensures
        text@ == join(lines.deep_view(), "\n"@),
{
    let mut text = String::new();
    let mut i: usize = 0;
    let ghost all = lines.deep_view();
    while i < lines.len()
        invariant
            i <= lines.len(),
            all == lines.deep_view(),
            text@ == join(all.take(i as int), "\n"@),
        decreases lines.len() - i,
    {
        assert(all.take(i + 1).drop_last() =~= all.take(i as int));
        if i > 0 {
            text.append("\n");
        }
        text.append(lines[i].as_str());
        i += 1;
    }
    assert(all.take(i as int) =~= all);
    text
}

/// Parses the lines of one message into a request.
///
/// Fails with `EmptyRequest` where there is no line, and with
/// `MalformedRequestLine` where the first line has fewer than three words.
/// Otherwise the request is the one that `parse_request` describes: a line
/// without a colon among the header lines is passed over, and a body is
/// present exactly where a blank line is.
pub fn parse_http_request(request_lines: &[String]) -> (result: Result<HttpRequest, ParseError>)
    ensures
        outcome_view(result) == parse_request(request_lines.deep_view()),
{
    let ghost lines = request_lines.deep_view();
    if request_lines.len() == 0 {
        return Err(ParseError::EmptyRequest);
    }
    let parts = split_whitespace(request_lines[0].as_str());
    if parts.len() < 3 {
        return Err(ParseError::MalformedRequestLine);
    }
    let method = parts[0].clone();
    let path = parts[1].clone();
    let http_version = parts[2].clone();

    let ghost rest = lines.skip(1);
    let mut headers = Headers::new();
    let mut i: usize = 1;
    while i < request_lines.len() && !blank(request_lines[i].as_str())
        invariant
            1 <= i <= request_lines.len(),
            lines == request_lines.deep_view(),
            rest == lines.skip(1),
            forall|j: int| 0 <= j < i - 1 ==> !is_blank(#[trigger] rest[j]),
            headers@ == headers_of(rest.take(i - 1)),
        decreases request_lines.len() - i,
    {
        assert(rest.take(i as int).drop_last() =~= rest.take(i - 1));
        match parse_header_line(request_lines[i].as_str()) {
            Some((name, value)) => {
                headers.insert(name, value);
            },
            None => {},
        }
        i += 1;
    }
    proof {
        lemma_prefix_while_is(rest, non_blank(), (i - 1) as nat);
    }
    let body = if i < request_lines.len() {
        let after = slice_subrange(request_lines, i + 1, request_lines.len());
        assert(after.deep_view() =~= rest.skip(i as int));
        Some(join_lines(after))
    } else {
        None
    };
    Ok(HttpRequest::new(method, path, http_version, headers, body))
}

} // verus!
