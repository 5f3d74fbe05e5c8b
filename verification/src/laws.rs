//! What holds of every script output, proved from the definitions that the
//! contracts of the parser use.
use vstd::prelude::*;
use crate::header::{ascii_lower, eq_ignore_ascii_case, recognized_header, CGIResponseHeader};
use crate::response::{dispatch_of, internal_error, is_local, static_request_for, CGIDispatchView};
use crate::lines::{
    after_first_line, first_line, is_line_feed, lemma_first_index_where,
    lemma_first_index_where_is_first, line_feed_index, split_lines,
};
use crate::parse::{
    has_colon, header_end, header_map_of, header_name, header_value, is_colon, lacks_colon,
    parse_result_view, parse_text, with_header_line, CGIParseError, CGIScriptResponse,
    CGIScriptResponseView,
};

verus! {

/// A text that ends with a line feed has no line feed before its first
/// line's end, and its first line ends inside it.
proof fn lemma_first_line_of_joined(head: Seq<char>, tail: Seq<char>)
    requires
        head.len() > 0,
        head.last() == '\n',
    ensures
        0 <= line_feed_index(head) < head.len(),
        line_feed_index(head + tail) == line_feed_index(head),
        first_line(head + tail) == first_line(head),
        after_first_line(head + tail) == after_first_line(head) + tail,
{
    let p = |c: char| is_line_feed(c);
    let n = line_feed_index(head);
    let s = head + tail;
    lemma_first_index_where_is_first(head, p);
    if n == head.len() {
        assert(!p(head[head.len() - 1]));
    }
    assert forall|i: int| 0 <= i < n implies !p(#[trigger] s[i]) by {
        assert(s[i] == head[i]);
    }
    assert(s[n] == head[n]);
    lemma_first_index_where(s, p, n);
    assert(s.take(n) =~= head.take(n));
    if n > 0 {
        assert(s[n - 1] == head[n - 1]);
        assert(s.take(n - 1) =~= head.take(n - 1));
    }
    assert(s.skip(n + 1) =~= head.skip(n + 1) + tail);
}

/// The lines of two texts, the first of them empty or ended by a line feed,
/// are the lines of the whole.
pub proof fn lemma_split_lines_joined(head: Seq<char>, tail: Seq<char>)
    requires
        head.len() == 0 || head.last() == '\n',
    ensures
        split_lines(head + tail) == split_lines(head) + split_lines(tail),
    decreases head.len(),
{
    if head.len() == 0 {
        assert(head + tail =~= tail);
        assert(split_lines(head) + split_lines(tail) =~= split_lines(tail));
    } else {
        lemma_first_line_of_joined(head, tail);
        let n = line_feed_index(head);
        let next = after_first_line(head);
        assert(next == head.skip(n + 1));
        if next.len() > 0 {
            assert(next.last() == head.last());
        }
        lemma_split_lines_joined(next, tail);
        assert(split_lines(head + tail) =~= split_lines(head) + split_lines(tail));
    }
}

/// A text without a line feed is one line, unless it is empty.
proof fn lemma_single_line(text: Seq<char>)
    requires
        forall|i: int| 0 <= i < text.len() ==> text[i] != '\n',
    ensures
        split_lines(text).flatten() == text,
{
    if text.len() > 0 {
        let p = |c: char| is_line_feed(c);
        assert forall|i: int| 0 <= i < text.len() implies !p(#[trigger] text[i]) by {}
        lemma_first_index_where(text, p, text.len() as int);
        assert(first_line(text) =~= text);
        assert(after_first_line(text).len() == 0);
        assert(split_lines(after_first_line(text)) =~= Seq::<Seq<char>>::empty());
        let lines = split_lines(text);
        assert(lines =~= seq![text]);
        assert(lines.drop_first() =~= Seq::<Seq<char>>::empty());
        assert(lines.drop_first().flatten() =~= Seq::<char>::empty());
        assert(lines.flatten() =~= text);
    } else {
        assert(split_lines(text).flatten() =~= text);
    }
}

/// An empty line, as it stands in a text: a line feed, alone or after a
/// carriage return.
pub open spec fn is_blank_line(text: Seq<char>) -> bool {
    text == seq!['\n'] || text == seq!['\r', '\n']
}

/// Where whole header lines, each with a colon, are followed by an empty
/// line, parsing succeeds, whatever follows: the headers are those of the
/// lines before the empty one, and the body is made of the lines after it.
/// No line of the body is held to the form of a header.
pub proof fn law_blank_line_ends_headers(head: Seq<char>, blank: Seq<char>, rest: Seq<char>)
    requires
        head.len() == 0 || head.last() == '\n',
        forall|i: int| 0 <= i < split_lines(head).len() ==> has_colon(#[trigger] split_lines(head)[i]),
        is_blank_line(blank),
    ensures
        parse_text(head + blank + rest) == Ok::<_, CGIParseError>(
            CGIScriptResponseView {
                headers: header_map_of(split_lines(head)),
                body: split_lines(rest).flatten(),
            },
        ),
{
    let before = split_lines(head);
    let after = split_lines(rest);
    let text = head + blank + rest;
    assert(text =~= head + (blank + rest));
    lemma_split_lines_joined(head, blank + rest);
    lemma_first_line_of_joined(blank, rest);
    let p = |c: char| is_line_feed(c);
    lemma_first_index_where(blank, p, blank.len() - 1);
    assert(after_first_line(blank) + rest =~= rest);
    assert(first_line(blank) =~= Seq::<char>::empty());
    assert(split_lines(blank + rest) == seq![first_line(blank + rest)] + split_lines(
        after_first_line(blank + rest),
    ));
    assert(split_lines(blank + rest) =~= seq![Seq::<char>::empty()] + after);
    let lines = split_lines(text);
    assert(lines =~= before + (seq![Seq::<char>::empty()] + after));
    let k = before.len() as int;
    let ends = |line: Seq<char>| lacks_colon(line);
    lemma_first_index_where_is_first(lines[k], |c: char| is_colon(c));
    assert forall|i: int| 0 <= i < k implies !ends(#[trigger] lines[i]) by {
        assert(lines[i] == before[i]);
    }
    lemma_first_index_where(lines, ends, k);
    assert(lines.take(k) =~= before);
    assert(lines.skip(k + 1) =~= after);
}

/// Where the text after the empty line holds no line feed, the body is that
/// text, character for character.
pub proof fn law_body_is_text_after_blank_line(head: Seq<char>, blank: Seq<char>, rest: Seq<char>)
    requires
        head.len() == 0 || head.last() == '\n',
        forall|i: int| 0 <= i < split_lines(head).len() ==> has_colon(#[trigger] split_lines(head)[i]),
        is_blank_line(blank),
        forall|i: int| 0 <= i < rest.len() ==> rest[i] != '\n',
    ensures
        parse_text(head + blank + rest) == Ok::<_, CGIParseError>(
            CGIScriptResponseView { headers: header_map_of(split_lines(head)), body: rest },
        ),
{
    law_blank_line_ends_headers(head, blank, rest);
    lemma_single_line(rest);
}

/// A text in which every line holds a colon has no empty line, and is
/// malformed: nothing ends its headers.
pub proof fn law_no_blank_line_is_malformed(text: Seq<char>)
    requires
        forall|i: int| 0 <= i < split_lines(text).len() ==> (#[trigger] split_lines(text)[i]).len() > 0,
        forall|i: int| 0 <= i < split_lines(text).len() ==> has_colon(#[trigger] split_lines(text)[i]),
    ensures
        parse_text(text) == Err::<CGIScriptResponseView, _>(CGIParseError::MalformedOutput),
{
    let lines = split_lines(text);
    let ends = |line: Seq<char>| lacks_colon(line);
    assert forall|i: int| 0 <= i < lines.len() implies !ends(#[trigger] lines[i]) by {}
    lemma_first_index_where(lines, ends, lines.len() as int);
}

/// A line that is not empty and holds no colon, with only lines that hold
/// one before it, makes the text invalid. What stands after it, or after an
/// empty line before it, is never looked at.
pub proof fn law_line_without_colon_is_invalid(text: Seq<char>, k: int)
    requires
        0 <= k < split_lines(text).len(),
        split_lines(text)[k].len() > 0,
        lacks_colon(split_lines(text)[k]),
        forall|i: int| 0 <= i < k ==> has_colon(#[trigger] split_lines(text)[i]),
    ensures
        parse_text(text) == Err::<CGIScriptResponseView, _>(CGIParseError::InvalidHeaderLine),
{
    let lines = split_lines(text);
    let ends = |line: Seq<char>| lacks_colon(line);
    assert forall|i: int| 0 <= i < k implies !ends(#[trigger] lines[i]) by {}
    lemma_first_index_where(lines, ends, k);
}

/// Parsing fails as invalid only on account of a line before the first
/// empty one: where it does, no line up to the offending one is empty.
pub proof fn law_invalid_line_stands_in_headers(text: Seq<char>)
    requires
        parse_text(text) == Err::<CGIScriptResponseView, _>(CGIParseError::InvalidHeaderLine),
    ensures
        0 <= header_end(split_lines(text)) < split_lines(text).len(),
        lacks_colon(split_lines(text)[header_end(split_lines(text))]),
        forall|i: int|
            0 <= i <= header_end(split_lines(text)) ==> (#[trigger] split_lines(text)[i]).len() > 0,
{
    let lines = split_lines(text);
    let ends = |line: Seq<char>| lacks_colon(line);
    lemma_first_index_where_is_first(lines, ends);
    assert forall|i: int| 0 <= i <= header_end(lines) implies (#[trigger] lines[i]).len() > 0 by {
        if i < header_end(lines) {
            assert(!ends(lines[i]));
            lemma_first_index_where_is_first(lines[i], |c: char| is_colon(c));
        }
    }
}

/// Names that differ only in the case of their ASCII letters stand for the
/// same header, or both for none.
pub proof fn law_header_name_ignores_case(a: Seq<char>, b: Seq<char>)
    requires
        eq_ignore_ascii_case(a, b),
    ensures
        recognized_header(a) == recognized_header(b),
{
    lemma_same_name(a, b, "Content-Type"@);
    lemma_same_name(a, b, "Location"@);
    lemma_same_name(a, b, "Status"@);
}

proof fn lemma_same_name(a: Seq<char>, b: Seq<char>, name: Seq<char>)
    requires
        eq_ignore_ascii_case(a, b),
    ensures
        eq_ignore_ascii_case(a, name) == eq_ignore_ascii_case(b, name),
{
    if eq_ignore_ascii_case(a, name) {
        assert forall|i: int| 0 <= i < b.len() implies ascii_lower(#[trigger] b[i])
            == ascii_lower(name[i]) by {
            assert(ascii_lower(a[i]) == ascii_lower(name[i]));
        }
    }
    if eq_ignore_ascii_case(b, name) {
        assert forall|i: int| 0 <= i < a.len() implies ascii_lower(#[trigger] a[i])
            == ascii_lower(name[i]) by {
            assert(ascii_lower(b[i]) == ascii_lower(name[i]));
        }
    }
}

/// A header line whose name is not understood changes no header.
pub proof fn law_unknown_header_is_dropped(lines: Seq<Seq<char>>, line: Seq<char>)
    requires
        recognized_header(header_name(line)) is None,
    ensures
        header_map_of(lines.push(line)) == header_map_of(lines),
{
    assert(lines.push(line).drop_last() =~= lines);
    assert(with_header_line(header_map_of(lines), line) == header_map_of(lines));
}

/// No header line that names a header: the header has no value.
pub proof fn law_header_without_line_is_absent(lines: Seq<Seq<char>>, key: CGIResponseHeader)
    requires
        forall|i: int|
            0 <= i < lines.len() ==> recognized_header(header_name(#[trigger] lines[i])) != Some(
                key,
            ),
    ensures
        !header_map_of(lines).contains_key(key),
    decreases lines.len(),
{
    if lines.len() > 0 {
        let front = lines.drop_last();
        assert forall|i: int| 0 <= i < front.len() implies recognized_header(
            header_name(#[trigger] front[i]),
        ) != Some(key) by {
            assert(front[i] == lines[i]);
        }
        law_header_without_line_is_absent(front, key);
        assert(recognized_header(header_name(lines.last())) != Some(key));
    }
}

/// Of the header lines that name one header, the last gives its value.
pub proof fn law_last_header_line_wins(lines: Seq<Seq<char>>, key: CGIResponseHeader, last: int)
    requires
        0 <= last < lines.len(),
        recognized_header(header_name(lines[last])) == Some(key),
        forall|i: int|
            last < i < lines.len() ==> recognized_header(header_name(#[trigger] lines[i])) != Some(
                key,
            ),
    ensures
        header_map_of(lines).contains_key(key),
        header_map_of(lines)[key] == header_value(lines[last]),
    decreases lines.len(),
{
    if last < lines.len() - 1 {
        let front = lines.drop_last();
        assert(front[last] == lines[last]);
        assert forall|i: int| last < i < front.len() implies recognized_header(
            header_name(#[trigger] front[i]),
        ) != Some(key) by {
            assert(front[i] == lines[i]);
        }
        law_last_header_line_wins(front, key, last);
        assert(recognized_header(header_name(lines.last())) != Some(key));
    }
}

/// A `Location` that is a path never becomes a redirect for the client: the
/// outcome is the request for that path, or the internal error.
pub proof fn law_local_location_is_no_client_redirect(response: CGIScriptResponseView)
    requires
        response.headers.contains_key(CGIResponseHeader::Location),
        is_local(response.headers[CGIResponseHeader::Location]),
    ensures
        dispatch_of(response) == CGIDispatchView::Redispatch(
            static_request_for(response.headers[CGIResponseHeader::Location]),
        ) || dispatch_of(response) == CGIDispatchView::Respond(internal_error()),
{
}

/// Without a `Location` and without a content type, the outcome is the
/// internal error, whatever the body and the status.
pub proof fn law_document_needs_content_type(response: CGIScriptResponseView)
    requires
        !response.headers.contains_key(CGIResponseHeader::Location),
        !response.headers.contains_key(CGIResponseHeader::ContentType),
    ensures
        dispatch_of(response) == CGIDispatchView::Respond(internal_error()),
{
}

/// Every outcome is one of three: a request for the static handler, the
/// internal error, or a response with exactly one header.
pub proof fn law_outcome_is_one_of_three(response: CGIScriptResponseView)
    ensures
        match dispatch_of(response) {
            CGIDispatchView::Redispatch(request) => request.method == "GET"@ && request.body.len()
                == 0,
            CGIDispatchView::Respond(sent) => sent == internal_error() || sent.headers.len() == 1,
        },
{
}

/// Two results of parsing one text are the same: both fail with the same
/// error, or both hold the same headers and the same body.
pub proof fn law_parse_is_repeatable(
    text: Seq<char>,
    first: Result<CGIScriptResponse, CGIParseError>,
    second: Result<CGIScriptResponse, CGIParseError>,
)
    requires
        parse_result_view(first) == parse_text(text),
        parse_result_view(second) == parse_text(text),
    ensures
        parse_result_view(first) == parse_result_view(second),
        first is Ok <==> second is Ok,
        first is Err ==> first->Err_0 == second->Err_0,
        first is Ok ==> first->Ok_0.headers@ == second->Ok_0.headers@ && first->Ok_0.body@
            == second->Ok_0.body@,
{
}

} // verus!
