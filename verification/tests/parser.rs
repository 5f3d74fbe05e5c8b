use cgi_response::header::CGIResponseHeader;
use cgi_response::lines::{chars_of, CGILines};
use cgi_response::parse::{parse_cgi_headers, parse_cgi_response, CGIParseError, CGIScriptResponse};
use cgi_response::CGIResponseHeaderMap;

fn text(line: Option<Vec<char>>) -> Option<String> {
    line.map(|chars| chars.into_iter().collect())
}

fn value(response: &CGIScriptResponse, key: CGIResponseHeader) -> Option<String> {
    response.headers.get(key).cloned()
}

#[test]
fn blank_line_separates_headers_from_body() {
    let parsed = parse_cgi_response(String::from("Content-Type: text/plain\n\nhello")).unwrap();
    assert_eq!(
        value(&parsed, CGIResponseHeader::ContentType),
        Some(String::from(" text/plain"))
    );
    assert!(!parsed.headers.contains_key(CGIResponseHeader::Location));
    assert!(!parsed.headers.contains_key(CGIResponseHeader::Status));
    assert_eq!(parsed.body, "hello");
}

#[test]
fn blank_line_first_gives_empty_map() {
    let parsed = parse_cgi_response(String::from("\nbody text")).unwrap();
    assert!(parsed.headers.is_empty());
    assert_eq!(parsed.body, "body text");
}

#[test]
fn blank_line_alone_gives_empty_map_and_body() {
    let parsed = parse_cgi_response(String::from("\n")).unwrap();
    assert!(parsed.headers.is_empty());
    assert_eq!(parsed.body, "");
}

#[test]
fn body_lines_are_joined_without_separator() {
    let parsed = parse_cgi_response(String::from("Status: 200\n\nfirst\nsecond\r\nthird\n")).unwrap();
    assert_eq!(parsed.body, "firstsecondthird");
}

#[test]
fn body_keeps_a_carriage_return_that_ends_no_line() {
    let parsed = parse_cgi_response(String::from("Status: 200\n\nab\rcd\r")).unwrap();
    assert_eq!(parsed.body, "ab\rcd\r");
}

#[test]
fn empty_lines_of_the_body_vanish() {
    let parsed = parse_cgi_response(String::from("Status: 200\n\na\n\n\nb")).unwrap();
    assert_eq!(parsed.body, "ab");
}

#[test]
fn carriage_return_line_feed_ends_lines() {
    let parsed =
        parse_cgi_response(String::from("Content-Type: text/html\r\nStatus: 404\r\n\r\n<p>gone</p>"))
            .unwrap();
    assert_eq!(
        value(&parsed, CGIResponseHeader::ContentType),
        Some(String::from(" text/html"))
    );
    assert_eq!(value(&parsed, CGIResponseHeader::Status), Some(String::from(" 404")));
    assert_eq!(parsed.body, "<p>gone</p>");
}

#[test]
fn empty_input_is_malformed() {
    assert_eq!(
        parse_cgi_response(String::new()),
        Err(CGIParseError::MalformedOutput)
    );
}

#[test]
fn missing_blank_line_is_malformed() {
    assert_eq!(
        parse_cgi_response(String::from("Content-Type: text/plain\nStatus: 200\n")),
        Err(CGIParseError::MalformedOutput)
    );
    assert_eq!(
        parse_cgi_response(String::from("Content-Type: text/plain")),
        Err(CGIParseError::MalformedOutput)
    );
}

#[test]
fn header_line_without_colon_is_invalid() {
    assert_eq!(
        parse_cgi_response(String::from("Content-Type text/plain\n\nhello")),
        Err(CGIParseError::InvalidHeaderLine)
    );
    assert_eq!(
        parse_cgi_response(String::from("Status: 200\nnonsense\n\nhello")),
        Err(CGIParseError::InvalidHeaderLine)
    );
    assert_eq!(
        parse_cgi_response(String::from("nonsense")),
        Err(CGIParseError::InvalidHeaderLine)
    );
}

#[test]
fn line_of_one_carriage_return_is_no_blank_line() {
    assert_eq!(
        parse_cgi_response(String::from("Status: 200\n\r")),
        Err(CGIParseError::InvalidHeaderLine)
    );
}

#[test]
fn body_lines_are_not_held_to_header_form() {
    let parsed =
        parse_cgi_response(String::from("Content-Type:text/plain\n\nno colon here\nnor here"))
            .unwrap();
    assert_eq!(
        value(&parsed, CGIResponseHeader::ContentType),
        Some(String::from("text/plain"))
    );
    assert_eq!(parsed.body, "no colon herenor here");
}

#[test]
fn header_names_match_in_any_case() {
    for name in ["content-type", "Content-Type", "CONTENT-TYPE", "cOnTeNt-TyPe"] {
        let parsed = parse_cgi_response(format!("{}:text/css\n\n", name)).unwrap();
        assert_eq!(
            value(&parsed, CGIResponseHeader::ContentType),
            Some(String::from("text/css"))
        );
    }
    assert_eq!(CGIResponseHeader::from_str("LOCATION"), Some(CGIResponseHeader::Location));
    assert_eq!(CGIResponseHeader::from_str("location"), Some(CGIResponseHeader::Location));
    assert_eq!(CGIResponseHeader::from_str("sTATUS"), Some(CGIResponseHeader::Status));
    assert_eq!(CGIResponseHeader::from_str("Status"), Some(CGIResponseHeader::Status));
}

#[test]
fn other_names_are_not_headers() {
    assert_eq!(CGIResponseHeader::from_str("X-Custom"), None);
    assert_eq!(CGIResponseHeader::from_str(""), None);
    assert_eq!(CGIResponseHeader::from_str("Content_Type"), None);
    assert_eq!(CGIResponseHeader::from_str("ContentType"), None);
    assert_eq!(CGIResponseHeader::from_str(" Status"), None);
    assert_eq!(CGIResponseHeader::from_str("Status "), None);
    assert_eq!(CGIResponseHeader::from_str("Statu\u{17f}"), None);
    assert_eq!(CGIResponseHeader::from_str("Locatio"), None);
    assert_eq!(CGIResponseHeader::from_str("Locatioo"), None);
    assert_eq!(CGIResponseHeader::from_str("Content-Typ["), None);
    assert_eq!(CGIResponseHeader::from_str("Content\rType"), None);
}

#[test]
fn from_chars_reads_a_name() {
    let name: Vec<char> = "Content-type".chars().collect();
    assert_eq!(
        CGIResponseHeader::from_chars(&name),
        Some(CGIResponseHeader::ContentType)
    );
    let other: Vec<char> = "Content-Length".chars().collect();
    assert_eq!(CGIResponseHeader::from_chars(&other), None);
}

#[test]
fn unknown_header_is_dropped() {
    let parsed =
        parse_cgi_response(String::from("X-Custom: 1\nStatus:204\nX-Other:\n\n")).unwrap();
    assert_eq!(value(&parsed, CGIResponseHeader::Status), Some(String::from("204")));
    assert!(!parsed.headers.contains_key(CGIResponseHeader::ContentType));
    assert!(!parsed.headers.contains_key(CGIResponseHeader::Location));
    assert_eq!(parsed.body, "");
}

#[test]
fn last_of_two_equal_headers_wins() {
    let parsed = parse_cgi_response(String::from("Status: 200\nstatus: 404\n\n")).unwrap();
    assert_eq!(value(&parsed, CGIResponseHeader::Status), Some(String::from(" 404")));
}

#[test]
fn line_is_split_at_its_first_colon() {
    let parsed = parse_cgi_response(String::from("Location:https://example.com:8080/a\n\n")).unwrap();
    assert_eq!(
        value(&parsed, CGIResponseHeader::Location),
        Some(String::from("https://example.com:8080/a"))
    );
    let empty = parse_cgi_response(String::from("Location:\n\n")).unwrap();
    assert_eq!(value(&empty, CGIResponseHeader::Location), Some(String::new()));
    let nameless = parse_cgi_response(String::from(":value\n\nbody")).unwrap();
    assert!(nameless.headers.is_empty());
    assert_eq!(nameless.body, "body");
}

#[test]
fn value_is_kept_untrimmed() {
    let parsed = parse_cgi_response(String::from("Content-Type:  text/plain \n\n")).unwrap();
    assert_eq!(
        value(&parsed, CGIResponseHeader::ContentType),
        Some(String::from("  text/plain "))
    );
}

#[test]
fn text_outside_ascii_is_kept() {
    let parsed = parse_cgi_response(String::from("Content-Type:tëxt\n\nžluťoučký\nkůň")).unwrap();
    assert_eq!(
        value(&parsed, CGIResponseHeader::ContentType),
        Some(String::from("tëxt"))
    );
    assert_eq!(parsed.body, "žluťoučkýkůň");
}

#[test]
fn parsing_twice_gives_equal_results() {
    let input = "Content-Type: text/plain\nX-Custom: 1\nStatus: 201\n\nhello\nworld";
    let first = parse_cgi_response(String::from(input));
    let second = parse_cgi_response(String::from(input));
    assert_eq!(first, second);
    let bad = "Content-Type: text/plain\nbroken\n\n";
    assert_eq!(
        parse_cgi_response(String::from(bad)),
        parse_cgi_response(String::from(bad))
    );
}

#[test]
fn headers_parser_leaves_cursor_behind_blank_line() {
    let mut lines = CGILines::new("Status: 200\n\nbody\nmore");
    let headers = parse_cgi_headers(&mut lines).unwrap();
    assert_eq!(headers.get(CGIResponseHeader::Status), Some(&String::from(" 200")));
    assert_eq!(text(lines.next_line()), Some(String::from("body")));
    assert_eq!(text(lines.next_line()), Some(String::from("more")));
    assert_eq!(text(lines.next_line()), None);
}

#[test]
fn headers_parser_reports_both_errors() {
    let mut unfinished = CGILines::new("Status: 200\n");
    assert_eq!(
        parse_cgi_headers(&mut unfinished),
        Err(CGIParseError::MalformedOutput)
    );
    let mut broken = CGILines::new("Status 200\n\n");
    assert_eq!(
        parse_cgi_headers(&mut broken),
        Err(CGIParseError::InvalidHeaderLine)
    );
}

#[test]
fn cursor_hands_out_lines_in_order() {
    let mut lines = CGILines::new("a\r\n\nb\rc\n\r\nlast");
    assert_eq!(text(lines.next_line()), Some(String::from("a")));
    assert_eq!(text(lines.next_line()), Some(String::new()));
    assert_eq!(text(lines.next_line()), Some(String::from("b\rc")));
    assert_eq!(text(lines.next_line()), Some(String::new()));
    assert_eq!(text(lines.next_line()), Some(String::from("last")));
    assert_eq!(text(lines.next_line()), None);
    assert_eq!(text(lines.next_line()), None);
}

#[test]
fn cursor_agrees_with_std_lines() {
    for input in ["", "\n", "\r\n", "a", "a\n", "a\n\n", "\r", "a\r", "\r\r\n", "x\ny\r\nz\r", "\n\n\n"] {
        let mut lines = CGILines::new(input);
        let mut got: Vec<String> = Vec::new();
        while let Some(line) = text(lines.next_line()) {
            got.push(line);
        }
        let want: Vec<String> = input.lines().map(String::from).collect();
        assert_eq!(got, want);
    }
}

#[test]
fn collect_joins_what_is_left() {
    let mut lines = CGILines::new("one\ntwo\r\nthree");
    assert_eq!(text(lines.next_line()), Some(String::from("one")));
    assert_eq!(lines.collect(), "twothree");
    assert_eq!(CGILines::new("").collect(), "");
}

#[test]
fn chars_of_gives_each_character() {
    assert_eq!(chars_of("aé\n"), vec!['a', 'é', '\n']);
    assert_eq!(chars_of(""), Vec::<char>::new());
}

#[test]
fn header_map_holds_last_value() {
    let mut map = CGIResponseHeaderMap::new();
    assert!(map.is_empty());
    assert_eq!(map.get(CGIResponseHeader::Status), None);
    map.insert(CGIResponseHeader::Status, String::from("200"));
    map.insert(CGIResponseHeader::Status, String::from("404"));
    assert_eq!(map.get(CGIResponseHeader::Status), Some(&String::from("404")));
    assert!(map.contains_key(CGIResponseHeader::Status));
    assert!(!map.contains_key(CGIResponseHeader::Location));
    assert!(!map.is_empty());
}

#[test]
fn new_response_holds_its_parts() {
    let mut map = CGIResponseHeaderMap::new();
    map.insert(CGIResponseHeader::Location, String::from("/x"));
    let response = CGIScriptResponse::new(map.clone(), String::from("body"));
    assert_eq!(response.headers, map);
    assert_eq!(response.body, "body");
}
