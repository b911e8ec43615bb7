//! The wire format of a response: a status line, header lines, a blank line
//! and the body.

use vstd::prelude::*;
use vstd::string::StrSliceExecFns;
use vstd::string::StringExecFns;
use vstd::utf8::encode_utf8;
use crate::text::join;

verus! {

/// The character of the decimal digit `d`.
pub open spec fn digit(d: nat) -> char
    recommends
        d < 10,
{
    (48 + d) as u8 as char
}

/// The decimal numeral of `n`, without leading zeros.
pub open spec fn decimal(n: nat) -> Seq<char>
    decreases n,
{
    if n < 10 {
        seq![digit(n)]
    } else {
        decimal(n / 10).push(digit(n % 10))
    }
}

/// The status line of a response, with the line break that ends it.
pub open spec fn status_line(code: nat, text: Seq<char>) -> Seq<char> {
    "HTTP/1.1 "@ + decimal(code) + " "@ + text + "\r\n"@
}

/// The header lines of a response, each with the line break that ends it.
pub open spec fn header_lines(headers: Seq<Seq<char>>) -> Seq<char>
    decreases headers.len(),
{
    if headers.len() == 0 {
        Seq::empty()
    } else {
        header_lines(headers.drop_last()) + headers.last() + "\r\n"@
    }
}

/// The text that precedes the body: the status line, the header lines and
/// the blank line that closes them.
pub open spec fn head(code: nat, text: Seq<char>, headers: Seq<Seq<char>>) -> Seq<char> {
    status_line(code, text) + header_lines(headers) + "\r\n"@
}

/// The bytes of a whole response: the head in UTF-8, then the body as it is.
pub open spec fn response_bytes(
    code: nat,
    text: Seq<char>,
    headers: Seq<Seq<char>>,
    body: Seq<u8>,
) -> Seq<u8> {
    encode_utf8(head(code, text, headers)) + body
}

/// Where there is at least one header, the header lines are the headers
/// joined by line breaks, with one line break after them; so the head is the
/// status line, the joined headers, and two line breaks.
pub proof fn lemma_head_joins_headers(code: nat, text: Seq<char>, headers: Seq<Seq<char>>)
    requires
        headers.len() > 0,
    ensures
        header_lines(headers) == join(headers, "\r\n"@) + "\r\n"@,
        head(code, text, headers) == status_line(code, text) + join(headers, "\r\n"@)
            + "\r\n\r\n"@,
    decreases headers.len(),
{
    reveal_strlit("\r\n");
    reveal_strlit("\r\n\r\n");
    let crlf = "\r\n"@;
    let front = headers.drop_last();
    if front.len() == 0 {
        assert(header_lines(front) =~= Seq::<char>::empty());
    } else {
        lemma_head_joins_headers(code, text, front);
    }
    assert(header_lines(headers) =~= join(headers, crlf) + crlf);
    assert(head(code, text, headers) =~= status_line(code, text) + join(headers, crlf)
        + "\r\n\r\n"@);
}

/// The one-character string of the decimal digit `d`.
fn digit_str(d: usize) -> (s: &'static str)
    requires
        d < 10,
    ensures
        s@ == seq![digit(d as nat)],
{
    proof {
        reveal_strlit("0");
        reveal_strlit("1");
        reveal_strlit("2");
        reveal_strlit("3");
        reveal_strlit("4");
        reveal_strlit("5");
        reveal_strlit("6");
        reveal_strlit("7");
        reveal_strlit("8");
        reveal_strlit("9");
    }
    let s = if d == 0 {
        "0"
    } else if d == 1 {
        "1"
    } else if d == 2 {
        "2"
    } else if d == 3 {
        "3"
    } else if d == 4 {
        "4"
    } else if d == 5 {
        "5"
    } else if d == 6 {
        "6"
    } else if d == 7 {
        "7"
    } else if d == 8 {
        "8"
    } else {
        "9"
    };
    s
}

/// Appends the decimal numeral of `n` to `out`.
fn push_decimal(out: &mut String, n: usize)
    ensures
        final(out)@ == old(out)@ + decimal(n as nat),
    decreases n,
{
    if n >= 10 {
        push_decimal(out, n / 10);
    }
    out.append(digit_str(n % 10));
}

/// The decimal numeral of `n`, without leading zeros.
pub fn decimal_string(n: usize) -> (s: String)
    ensures
        s@ == decimal(n as nat),
{
    let mut s = String::new();
    push_decimal(&mut s, n);
    s
}

/// Assembles a response: the status line `HTTP/1.1 <code> <text>`, one line
/// for each header, a blank line, and then the body, byte for byte. Each
/// line ends with a carriage return and a line feed. With no headers the
/// blank line follows the status line directly.
pub fn build_response(
    status_code: u16,
    status_text: &str,
    headers: &Vec<String>,
    body: &[u8],
) -> (response: Vec<u8>)
    ensures
        response@ == response_bytes(
            status_code as nat,
            status_text@,
            headers.deep_view(),
            body@,
        ),
{
    let mut text = String::from_str("HTTP/1.1 ");
    push_decimal(&mut text, status_code as usize);
    text.append(" ");
    text.append(status_text);
    text.append("\r\n");
    let ghost start = status_line(status_code as nat, status_text@);
    let mut i: usize = 0;
    while i < headers.len()
        invariant
            i <= headers.len(),
            start == status_line(status_code as nat, status_text@),
            text@ == start + header_lines(headers.deep_view().take(i as int)),
        decreases headers.len() - i,
    {
        text.append(headers[i].as_str());
        text.append("\r\n");
        assert(headers.deep_view().take(i + 1).drop_last() =~= headers.deep_view().take(
            i as int,
        ));
        i += 1;
    }
    assert(headers.deep_view().take(i as int) =~= headers.deep_view());
    text.append("\r\n");
    let mut response = text.as_str().as_bytes_vec();
    response.extend_from_slice(body);
    response
}

} // verus!
