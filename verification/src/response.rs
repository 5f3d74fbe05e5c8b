//! Decides from a script's headers what is sent back.
//!
//! A `Location` that is a path is served by the static handler, through a
//! synthetic request. Any other `Location` is a redirect for the client.
//! Without a `Location` the script's body is the document. Whatever goes
//! wrong on the way ends in one and the same internal error.
use std::str::FromStr;
use vstd::prelude::*;
use vstd::string::StrSliceExecFns;
use crate::header::{CGIResponseHeader, CGIResponseHeaderMap};
use crate::parse::{CGIScriptResponse, CGIScriptResponseView};

verus! {

/// One header of a response.
#[derive(Clone, Debug, PartialEq, Eq)]
pub struct HttpHeader {
    pub name: String,
    pub value: String,
}

/// A response: its status code, its headers in order, and its body.
#[derive(Clone, Debug, PartialEq, Eq)]
pub struct HttpResponse {
    pub status: u16,
    pub headers: Vec<HttpHeader>,
    pub body: String,
}

/// A response as a mathematical value. A header is its name and its value.
pub ghost struct HttpResponseView {
    pub status: u16,
    pub headers: Seq<(Seq<char>, Seq<char>)>,
    pub body: Seq<char>,
}

impl View for HttpResponse {
    type V = HttpResponseView;

    open spec fn view(&self) -> HttpResponseView {
        HttpResponseView {
            status: self.status,
            headers: Seq::new(
                self.headers@.len(),
                |i: int| (self.headers@[i].name@, self.headers@[i].value@),
            ),
            body: self.body@,
        }
    }
}

/// The request that is handed to the static handler in place of a redirect.
#[derive(Clone, Debug, PartialEq, Eq)]
pub struct StaticRequest {
    pub method: String,
    pub target: String,
    pub body: String,
}

/// A request for the static handler as a mathematical value.
pub ghost struct StaticRequestView {
    pub method: Seq<char>,
    pub target: Seq<char>,
    pub body: Seq<char>,
}

impl View for StaticRequest {
    type V = StaticRequestView;

    open spec fn view(&self) -> StaticRequestView {
        StaticRequestView { method: self.method@, target: self.target@, body: self.body@ }
    }
}

/// What is to be done with a script's output.
#[derive(Clone, Debug, PartialEq, Eq)]
pub enum CGIDispatch {
    /// The static handler serves this request; its answer goes through
    /// `finish_local_redirect`.
    Redispatch(StaticRequest),
    /// This response is sent as it is.
    Respond(HttpResponse),
}

/// What is to be done, as a mathematical value.
pub ghost enum CGIDispatchView {
    Redispatch(StaticRequestView),
    Respond(HttpResponseView),
}

impl View for CGIDispatch {
    type V = CGIDispatchView;

    open spec fn view(&self) -> CGIDispatchView {
        match self {
            CGIDispatch::Redispatch(request) => CGIDispatchView::Redispatch(request@),
            CGIDispatch::Respond(response) => CGIDispatchView::Respond(response@),
        }
    }
}

/// A decimal digit of ASCII.
pub open spec fn is_digit(c: char) -> bool {
    '0' <= c && c <= '9'
}

/// The number that a decimal digit stands for.
pub open spec fn digit_value(c: char) -> int {
    c as int - '0' as int
}

/// The status code that a text spells: three decimal digits, the first of
/// them not zero.
pub open spec fn status_code_of(text: Seq<char>) -> Option<u16> {
    if text.len() == 3 && is_digit(text[0]) && text[0] != '0' && is_digit(text[1]) && is_digit(
        text[2],
    ) {
        Some((100 * digit_value(text[0]) + 10 * digit_value(text[1]) + digit_value(text[2])) as u16)
    } else {
        None
    }
}

/// A character that may stand in a header's value: a tab, or anything from
/// the space upwards but the delete character.
pub open spec fn is_header_value_char(c: char) -> bool {
    c == '\t' || (c >= ' ' && c != '\x7f')
}

/// A text that can be a header's value.
pub open spec fn is_header_value(text: Seq<char>) -> bool {
    forall|i: int| 0 <= i < text.len() ==> is_header_value_char(#[trigger] text[i])
}

/// Whether `http` accepts a text as the target of a request.
pub uninterp spec fn is_request_target(target: Seq<char>) -> bool;

/// Reads a status code with `http::StatusCode::from_str`, and hands it out
/// as a number with `StatusCode::as_u16`.
///
/// The contract claims what the parser's source shows: it accepts exactly
/// the texts of three ASCII digits that do not start with a zero, and gives
/// the number that they spell.
#[verifier::external_body]
fn parse_status_code(text: &str) -> (r: Option<u16>)
    ensures
        r == status_code_of(text@),
{
    match http::StatusCode::from_str(text) {
        Ok(code) => Some(code.as_u16()),
        Err(_) => None,
    }
}

/// Asks `http::HeaderValue::from_str` whether a text can be a header's
/// value. A response builder of `http` puts a value through the same test.
///
/// The contract claims what the source shows: a text is accepted unless one
/// of its bytes is a control character other than the tab. The bytes of a
/// character outside ASCII are all above that range.
#[verifier::external_body]
fn header_value_accepted(text: &str) -> (r: bool)
    ensures
        r == is_header_value(text@),
{
    http::HeaderValue::from_str(text).is_ok()
}

/// Builds a `GET` request for a target with the request builder of `http`,
/// `http::request::Builder::uri` above all, and says whether that worked.
///
/// The contract claims only that the answer depends on the target alone.
#[verifier::external_body]
fn static_request_builds(target: &str) -> (r: bool)
    ensures
        r == is_request_target(target@),
{
    http::Request::builder().method("GET").uri(target).body(String::new()).is_ok()
}

/// The response that stands for every failure: status 500, no header, no
/// body.
pub open spec fn internal_error() -> HttpResponseView {
    HttpResponseView { status: 500, headers: Seq::empty(), body: Seq::empty() }
}

/// A response with one header.
pub open spec fn response_with_header(
    status: u16,
    name: Seq<char>,
    value: Seq<char>,
    body: Seq<char>,
) -> HttpResponseView {
    HttpResponseView { status, headers: seq![(name, value)], body }
}

/// The request that stands for a redirect to a path on this server.
pub open spec fn static_request_for(location: Seq<char>) -> StaticRequestView {
    StaticRequestView { method: "GET"@, target: location, body: Seq::empty() }
}

/// What a local redirect comes to, given whether the request for it could
/// be built.
pub open spec fn local_redirect_of(location: Seq<char>, request_builds: bool) -> CGIDispatchView {
    if request_builds {
        CGIDispatchView::Redispatch(static_request_for(location))
    } else {
        CGIDispatchView::Respond(internal_error())
    }
}

/// The redirect that the client is sent to `location`.
pub open spec fn client_redirect_of(location: Seq<char>) -> HttpResponseView {
    if is_header_value(location) {
        response_with_header(302, "location"@, location, Seq::empty())
    } else {
        internal_error()
    }
}

/// The status of a document: what the `Status` header spells, 200 without
/// one.
pub open spec fn document_status(headers: Map<CGIResponseHeader, Seq<char>>) -> Option<u16> {
    if headers.contains_key(CGIResponseHeader::Status) {
        status_code_of(headers[CGIResponseHeader::Status])
    } else {
        Some(200)
    }
}

/// The response that carries the script's body. It needs a content type
/// that can be a header's value, and a status that can be read.
pub open spec fn document_of(
    headers: Map<CGIResponseHeader, Seq<char>>,
    body: Seq<char>,
) -> HttpResponseView {
    if document_status(headers) is Some && headers.contains_key(CGIResponseHeader::ContentType)
        && is_header_value(headers[CGIResponseHeader::ContentType]) {
        response_with_header(
            document_status(headers)->Some_0,
            "content-type"@,
            headers[CGIResponseHeader::ContentType],
            body,
        )
    } else {
        internal_error()
    }
}

/// Whether a `Location` names a path on this server.
pub open spec fn is_local(location: Seq<char>) -> bool {
    location.len() > 0 && location[0] == '/'
}

/// What is to be done with a script's output.
pub open spec fn dispatch_of(response: CGIScriptResponseView) -> CGIDispatchView {
    if response.headers.contains_key(CGIResponseHeader::Location) {
        let location = response.headers[CGIResponseHeader::Location];
        if is_local(location) {
            local_redirect_of(location, is_request_target(location))
        } else {
            CGIDispatchView::Respond(client_redirect_of(location))
        }
    } else {
        CGIDispatchView::Respond(document_of(response.headers, response.body))
    }
}

/// The response for every failure.
pub fn internal_error_response() -> (r: HttpResponse)
    ensures
        r@ == internal_error(),
{
    let r = HttpResponse { status: 500, headers: Vec::new(), body: String::new() };
    assert(r@.headers =~= Seq::empty());
    r
}

fn single_header_response(status: u16, name: &str, value: &str, body: String) -> (r: HttpResponse)
    ensures
        r@ == response_with_header(status, name@, value@, body@),
{
    let mut headers: Vec<HttpHeader> = Vec::new();
    headers.push(HttpHeader { name: name.to_owned(), value: value.to_owned() });
    let r = HttpResponse { status, headers, body };
    assert(r@.headers =~= seq![(name@, value@)]);
    r
}

/// A local redirect, once it is known whether the request for it can be
/// built: that request, or the internal error.
pub fn local_redirect_for(location: &str, request_builds: bool) -> (r: CGIDispatch)
    ensures
        r@ == local_redirect_of(location@, request_builds),
{
    if request_builds {
        CGIDispatch::Redispatch(
            StaticRequest {
                method: "GET".to_owned(),
                target: location.to_owned(),
                body: String::new(),
            },
        )
    } else {
        CGIDispatch::Respond(internal_error_response())
    }
}

/// A redirect to a path on this server: a `GET` request for the static
/// handler, or the internal error where the path is no request target.
pub fn local_redirect(location: &str) -> (r: CGIDispatch)
    ensures
        r@ == local_redirect_of(location@, is_request_target(location@)),
{
    let request_builds = static_request_builds(location);
    local_redirect_for(location, request_builds)
}

/// What is sent once the static handler has been asked: its answer as it
/// is, or the internal error if it gave none.
pub fn finish_local_redirect<R>(handled: Option<R>) -> (r: Result<R, HttpResponse>)
    ensures
        handled matches Some(response) ==> r == Ok::<R, HttpResponse>(response),
        handled is None ==> r is Err && r->Err_0@ == internal_error(),
{
    match handled {
        None => Err(internal_error_response()),
        Some(response) => Ok(response),
    }
}

/// A redirect for the client: status 302, the location as the only header,
/// no body.
pub fn client_redirect(location: &str) -> (r: HttpResponse)
    ensures
        r@ == client_redirect_of(location@),
{
    if header_value_accepted(location) {
        single_header_response(302, "location", location, String::new())
    } else {
        internal_error_response()
    }
}

/// The script's body as a response, under the status and the content type
/// that the headers give.
pub fn document_response(headers: CGIResponseHeaderMap, body: String) -> (r: HttpResponse)
    ensures
        r@ == document_of(headers@, body@),
{
    let status = match headers.get(CGIResponseHeader::Status) {
        None => Some(200u16),
        Some(status) => parse_status_code(status.as_str()),
    };
    let status: u16 = match status {
        None => {
            return internal_error_response();
        },
        Some(value) => value,
    };
    let content_type = match headers.get(CGIResponseHeader::ContentType) {
        None => {
            return internal_error_response();
        },
        Some(value) => value,
    };
    if header_value_accepted(content_type.as_str()) {
        single_header_response(status, "content-type", content_type.as_str(), body)
    } else {
        internal_error_response()
    }
}

/// Decides what is to be done with a script's output. The first of these
/// that applies: a `Location` that starts with a slash is a local redirect;
/// any other `Location` is a redirect for the client; the rest is a
/// document.
pub fn convert_cgi_response_to_http(cgi_response: CGIScriptResponse) -> (r: CGIDispatch)
    ensures
        r@ == dispatch_of(cgi_response@),
{
    let response_headers = cgi_response.headers;
    let response_body = cgi_response.body;
    match response_headers.get(CGIResponseHeader::Location) {
        Some(location) => {
            let location = location.as_str();
            if !location.is_empty() && location.get_char(0) == '/' {
                local_redirect(location)
            } else {
                CGIDispatch::Respond(client_redirect(location))
            }
        },
        None => CGIDispatch::Respond(document_response(response_headers, response_body)),
    }
}

} // verus!
