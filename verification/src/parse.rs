//! Splits a script's output into its headers and its body.
//!
//! The lines up to the first empty one are headers, each a name, a colon and
//! a value. The lines after it are the body.
use vstd::prelude::*;
use vstd::slice::slice_subrange;
use crate::header::{recognized_header, CGIResponseHeader, CGIResponseHeaderMap};
use crate::lines::{
    first_index_where, lemma_first_index_where, lemma_first_index_where_is_first, split_lines,
    string_of, CGILines,
};

verus! {

/// Why a script's output could not be read.
#[derive(Clone, Copy, Debug, PartialEq, Eq, Structural)]
pub enum CGIParseError {
    /// No empty line ends the headers.
    MalformedOutput,
    /// A line of the headers holds no colon.
    InvalidHeaderLine,
}

/// A script's output, read: the headers it set and the body it wrote.
#[derive(Clone, Debug, PartialEq, Eq)]
pub struct CGIScriptResponse {
    pub headers: CGIResponseHeaderMap,
    pub body: String,
}

/// A script's output as a mathematical value.
pub ghost struct CGIScriptResponseView {
    pub headers: Map<CGIResponseHeader, Seq<char>>,
    pub body: Seq<char>,
}

impl View for CGIScriptResponse {
    type V = CGIScriptResponseView;

    open spec fn view(&self) -> CGIScriptResponseView {
        CGIScriptResponseView { headers: self.headers@, body: self.body@ }
    }
}

impl CGIScriptResponse {
    /// A script's output of these headers and this body.
    pub fn new(headers: CGIResponseHeaderMap, body: String) -> (r: CGIScriptResponse)
        ensures
            r@ == (CGIScriptResponseView { headers: headers@, body: body@ }),
    {
        CGIScriptResponse { headers, body }
    }
}

/// The character that parts a header's name from its value.
pub open spec fn is_colon(c: char) -> bool {
    c == ':'
}

/// The number of characters before the first colon of a line; the line's
/// length if it holds none.
pub open spec fn colon_index(line: Seq<char>) -> int {
    first_index_where(line, |c: char| is_colon(c))
}

/// A line that has the form of a header.
pub open spec fn has_colon(line: Seq<char>) -> bool {
    colon_index(line) < line.len()
}

/// A line that cannot be a header: an empty line is one.
pub open spec fn lacks_colon(line: Seq<char>) -> bool {
    !has_colon(line)
}

/// What is before a line's first colon.
pub open spec fn header_name(line: Seq<char>) -> Seq<char> {
    line.take(colon_index(line))
}

/// What is after a line's first colon, as it stands.
pub open spec fn header_value(line: Seq<char>) -> Seq<char> {
    line.skip(colon_index(line) + 1)
}

/// The headers after one more header line: the line's value under its
/// name, if the name is understood.
pub open spec fn with_header_line(
    headers: Map<CGIResponseHeader, Seq<char>>,
    line: Seq<char>,
) -> Map<CGIResponseHeader, Seq<char>> {
    match recognized_header(header_name(line)) {
        Some(key) => headers.insert(key, header_value(line)),
        None => headers,
    }
}

/// The headers that a run of header lines sets. A later line wins over an
/// earlier one of the same name.
pub open spec fn header_map_of(lines: Seq<Seq<char>>) -> Map<CGIResponseHeader, Seq<char>>
    decreases lines.len(),
{
    if lines.len() == 0 {
        Map::empty()
    } else {
        with_header_line(header_map_of(lines.drop_last()), lines.last())
    }
}

/// The number of lines before the first one without a colon. An empty line
/// has none, so the headers end here at the latest.
pub open spec fn header_end(lines: Seq<Seq<char>>) -> int {
    first_index_where(lines, |line: Seq<char>| lacks_colon(line))
}

/// What reading a run of lines gives.
pub open spec fn parse_lines(lines: Seq<Seq<char>>) -> Result<CGIScriptResponseView, CGIParseError> {
    let end = header_end(lines);
    if end >= lines.len() {
        Err(CGIParseError::MalformedOutput)
    } else if lines[end].len() > 0 {
        Err(CGIParseError::InvalidHeaderLine)
    } else {
        Ok(
            CGIScriptResponseView {
                headers: header_map_of(lines.take(end)),
                body: lines.skip(end + 1).flatten(),
            },
        )
    }
}

/// What reading a script's output gives.
pub open spec fn parse_text(text: Seq<char>) -> Result<CGIScriptResponseView, CGIParseError> {
    parse_lines(split_lines(text))
}

/// A result of parsing as a mathematical value.
pub open spec fn parse_result_view(r: Result<CGIScriptResponse, CGIParseError>) -> Result<
    CGIScriptResponseView,
    CGIParseError,
> {
    match r {
        Ok(response) => Ok(response@),
        Err(e) => Err(e),
    }
}

fn find_colon(line: &Vec<char>) -> (r: usize)
    ensures
        r == colon_index(line@),
        r <= line@.len(),
{
    let mut i: usize = 0;
    while i < line.len() && line[i] != ':'
        invariant
            i <= line@.len(),
            forall|j: int| 0 <= j < i ==> line@[j] != ':',
        decreases line@.len() - i,
    {
        i += 1;
    }
    proof {
        lemma_first_index_where(line@, |c: char| is_colon(c), i as int);
    }
    i
}

/// Reads header lines up to the empty line that ends them, and leaves the
/// cursor behind that line.
pub fn parse_cgi_headers(cgi_output: &mut CGILines) -> (r: Result<
    CGIResponseHeaderMap,
    CGIParseError,
>)
    ensures
        match r {
            Ok(headers) => {
                let end = header_end(old(cgi_output).lines());
                &&& 0 <= end < old(cgi_output).lines().len()
                &&& old(cgi_output).lines()[end].len() == 0
                &&& headers@ == header_map_of(old(cgi_output).lines().take(end))
                &&& final(cgi_output).lines() == old(cgi_output).lines().skip(end + 1)
            },
            Err(e) => parse_lines(old(cgi_output).lines()) == Err::<CGIScriptResponseView, _>(e),
        },
{
    let ghost lines = cgi_output.lines();
    let ghost ends = |line: Seq<char>| lacks_colon(line);
    let ghost mut done: int = 0;
    let mut headers = CGIResponseHeaderMap::new();
    loop
        invariant
            lines == old(cgi_output).lines(),
            ends == |line: Seq<char>| lacks_colon(line),
            0 <= done <= lines.len(),
            cgi_output.lines() == lines.skip(done),
            forall|i: int| 0 <= i < done ==> !ends(#[trigger] lines[i]),
            headers@ == header_map_of(lines.take(done)),
        decreases lines.len() - done,
    {
        let line = match cgi_output.next_line() {
            None => {
                proof {
                    lemma_first_index_where(lines, ends, done);
                }
                return Err(CGIParseError::MalformedOutput);
            },
            Some(line) => line,
        };
        assert(line@ == lines[done]);
        assert(cgi_output.lines() =~= lines.skip(done + 1));
        if line.len() == 0 {
            proof {
                lemma_first_index_where_is_first(line@, |c: char| is_colon(c));
                lemma_first_index_where(lines, ends, done);
            }
            return Ok(headers);
        }
        let colon = find_colon(&line);
        if colon == line.len() {
            proof {
                lemma_first_index_where(lines, ends, done);
            }
            return Err(CGIParseError::InvalidHeaderLine);
        }
        let name = slice_subrange(line.as_slice(), 0, colon);
        let value = slice_subrange(line.as_slice(), colon + 1, line.len());
        match CGIResponseHeader::from_chars(name) {
            Some(key) => {
                headers.insert(key, string_of(value));
            },
            None => {},
        }
        proof {
            assert(lines.take(done + 1).drop_last() =~= lines.take(done));
            assert(lines.take(done + 1).last() == lines[done]);
            done = done + 1;
        }
    }
}

/// Reads a script's output: the headers up to the first empty line, and the
/// lines after it, joined, as the body.
pub fn parse_cgi_response(cgi_output: String) -> (r: Result<CGIScriptResponse, CGIParseError>)
    ensures
        parse_result_view(r) == parse_text(cgi_output@),
{
    let mut output_lines = CGILines::new(cgi_output.as_str());
    let response_headers = match parse_cgi_headers(&mut output_lines) {
        Err(e) => {
            return Err(e);
        },
        Ok(headers) => headers,
    };
    let response_body = output_lines.collect();
    Ok(CGIScriptResponse::new(response_headers, response_body))
}

} // verus!
