use http_server::http_request::{
    join_lines, parse_header_line, parse_http_request, Headers, HttpRequest, ParseError,
};

fn lines(text: &[&str]) -> Vec<String> {
    text.iter().map(|line| line.to_string()).collect()
}

fn parsed(text: &[&str]) -> HttpRequest {
    match parse_http_request(&lines(text)) {
        Ok(request) => request,
        Err(e) => panic!("these lines should parse: {:?}", e),
    }
}

fn failure(text: &[&str]) -> ParseError {
    match parse_http_request(&lines(text)) {
        Ok(_) => panic!("these lines should not parse"),
        Err(e) => e,
    }
}

#[test]
fn parses_request_line_header_and_body() {
    let request = parsed(&["GET /x HTTP/1.1", "Foo: bar", "", "body text"]);
    assert_eq!(request.method, "GET");
    assert_eq!(request.path, "/x");
    assert_eq!(request.http_version, "HTTP/1.1");
    assert_eq!(request.headers.len(), 1);
    assert_eq!(request.headers.get("Foo"), Some(&"bar".to_string()));
    assert_eq!(request.body, Some("body text".to_string()));
}

#[test]
fn parsing_twice_gives_equal_requests() {
    let text = ["POST /files/a HTTP/1.1", "Host: localhost", "Accept: */*", "", "one", "two"];
    let first = parsed(&text);
    let second = parsed(&text);
    assert_eq!(first.method, second.method);
    assert_eq!(first.path, second.path);
    assert_eq!(first.http_version, second.http_version);
    assert_eq!(first.headers.len(), second.headers.len());
    assert_eq!(first.headers.get("Host"), second.headers.get("Host"));
    assert_eq!(first.headers.get("Accept"), second.headers.get("Accept"));
    assert_eq!(first.body, second.body);
    assert_eq!(first.body, Some("one\ntwo".to_string()));
}

#[test]
fn no_lines_is_an_empty_request() {
    assert_eq!(failure(&[]), ParseError::EmptyRequest);
}

#[test]
fn fewer_than_three_words_is_malformed() {
    assert_eq!(failure(&["GET /x"]), ParseError::MalformedRequestLine);
    assert_eq!(failure(&["GET"]), ParseError::MalformedRequestLine);
    assert_eq!(failure(&[""]), ParseError::MalformedRequestLine);
    assert_eq!(failure(&["   \t "]), ParseError::MalformedRequestLine);
    assert_eq!(failure(&["GET /x", "HTTP/1.1"]), ParseError::MalformedRequestLine);
}

#[test]
fn words_of_the_request_line_may_be_spaced_freely() {
    let request = parsed(&["  GET \t /index.html    HTTP/1.0  "]);
    assert_eq!(request.method, "GET");
    assert_eq!(request.path, "/index.html");
    assert_eq!(request.http_version, "HTTP/1.0");
}

#[test]
fn words_after_the_third_are_passed_over() {
    let request = parsed(&["GET / HTTP/1.1 extra words"]);
    assert_eq!(request.method, "GET");
    assert_eq!(request.path, "/");
    assert_eq!(request.http_version, "HTTP/1.1");
}

#[test]
fn without_a_blank_line_there_is_no_body() {
    let request = parsed(&["GET / HTTP/1.1", "Host: a", "User-Agent: b"]);
    assert_eq!(request.body, None);
    assert_eq!(request.headers.len(), 2);
}

#[test]
fn a_blank_line_at_the_end_gives_an_empty_body() {
    let request = parsed(&["GET / HTTP/1.1", "Host: a", ""]);
    assert_eq!(request.body, Some(String::new()));
    assert_eq!(request.headers.len(), 1);
}

#[test]
fn a_line_of_whitespace_is_blank() {
    let request = parsed(&["GET / HTTP/1.1", "Host: a", " \t ", "Not: a header", "", "x"]);
    assert_eq!(request.headers.len(), 1);
    assert!(!request.headers.contains_key("Not"));
    assert_eq!(request.body, Some("Not: a header\n\nx".to_string()));
}

#[test]
fn body_lines_are_joined_by_line_feeds() {
    let request = parsed(&["PUT /a HTTP/1.1", "", "a", "", "b"]);
    assert_eq!(request.body, Some("a\n\nb".to_string()));
    assert_eq!(request.headers.len(), 0);
}

#[test]
fn names_and_values_are_trimmed() {
    let request = parsed(&["GET / HTTP/1.1", "  Content-Type \t:   text/html; charset=utf-8  "]);
    assert_eq!(request.headers.get("Content-Type"), Some(&"text/html; charset=utf-8".to_string()));
}

#[test]
fn the_first_colon_splits_a_header_line() {
    let request = parsed(&["GET / HTTP/1.1", "Host: localhost:4221", "Empty:", ": nameless"]);
    assert_eq!(request.headers.get("Host"), Some(&"localhost:4221".to_string()));
    assert_eq!(request.headers.get("Empty"), Some(&String::new()));
    assert_eq!(request.headers.get(""), Some(&"nameless".to_string()));
    assert_eq!(request.headers.len(), 3);
}

#[test]
fn lines_without_a_colon_are_passed_over() {
    let request = parsed(&["GET / HTTP/1.1", "no colon here", "A: 1", "neither here"]);
    assert_eq!(request.headers.len(), 1);
    assert_eq!(request.headers.get("A"), Some(&"1".to_string()));
    assert_eq!(request.body, None);
}

#[test]
fn the_last_value_of_a_name_counts() {
    let request = parsed(&["GET / HTTP/1.1", "A: 1", "B: 2", "A: 3"]);
    assert_eq!(request.headers.len(), 2);
    assert_eq!(request.headers.get("A"), Some(&"3".to_string()));
    assert_eq!(request.headers.get("B"), Some(&"2".to_string()));
}

#[test]
fn names_differ_by_case() {
    let request = parsed(&["GET / HTTP/1.1", "user-agent: x", "User-Agent: y"]);
    assert_eq!(request.headers.len(), 2);
    assert_eq!(request.headers.get("user-agent"), Some(&"x".to_string()));
    assert_eq!(request.headers.get("User-Agent"), Some(&"y".to_string()));
    assert_eq!(request.headers.get("USER-AGENT"), None);
}

#[test]
fn text_outside_ascii_is_kept() {
    let request = parsed(&["GET /caf\u{e9} HTTP/1.1", "\u{a0}X-N\u{e4}me\u{2003}: \u{3000}w\u{e9}rt \u{85}", "", "gr\u{fc}\u{df}e"]);
    assert_eq!(request.path, "/caf\u{e9}");
    assert_eq!(request.headers.get("X-N\u{e4}me"), Some(&"w\u{e9}rt".to_string()));
    assert_eq!(request.body, Some("gr\u{fc}\u{df}e".to_string()));
}

#[test]
fn header_line_states_name_and_value() {
    assert_eq!(
        parse_header_line("Foo: bar"),
        Some(("Foo".to_string(), "bar".to_string()))
    );
    assert_eq!(parse_header_line(" a : b : c "), Some(("a".to_string(), "b : c".to_string())));
    assert_eq!(parse_header_line(":"), Some((String::new(), String::new())));
    assert_eq!(parse_header_line("Foo bar"), None);
    assert_eq!(parse_header_line(""), None);
}

#[test]
fn new_keeps_its_parts() {
    let mut headers = Headers::new();
    headers.insert("Host".to_string(), "example".to_string());
    let request = HttpRequest::new(
        "DELETE".to_string(),
        "/files/a".to_string(),
        "HTTP/1.1".to_string(),
        headers,
        Some("payload".to_string()),
    );
    assert_eq!(request.method, "DELETE");
    assert_eq!(request.path, "/files/a");
    assert_eq!(request.http_version, "HTTP/1.1");
    assert_eq!(request.headers.get("Host"), Some(&"example".to_string()));
    assert_eq!(request.body, Some("payload".to_string()));
}

#[test]
fn headers_hold_one_value_for_each_name() {
    let mut headers = Headers::new();
    assert_eq!(headers.len(), 0);
    assert!(!headers.contains_key("A"));
    assert_eq!(headers.get("A"), None);
    headers.insert("A".to_string(), "1".to_string());
    headers.insert("B".to_string(), "2".to_string());
    headers.insert("A".to_string(), "3".to_string());
    assert_eq!(headers.len(), 2);
    assert!(headers.contains_key("A"));
    assert_eq!(headers.get("A"), Some(&"3".to_string()));
    assert_eq!(headers.get("B"), Some(&"2".to_string()));
    assert_eq!(headers.get("a"), None);
}

#[test]
fn join_lines_puts_line_feeds_between() {
    assert_eq!(join_lines(&[]), "");
    assert_eq!(join_lines(&lines(&["only"])), "only");
    assert_eq!(join_lines(&lines(&["a", "b", "c"])), "a\nb\nc");
    assert_eq!(join_lines(&lines(&["", ""])), "\n");
}
