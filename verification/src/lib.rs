//! Turns the captured output of a CGI-style script into an HTTP response.
//!
//! The output is a block of `Name: value` header lines, a blank line, and a
//! body. [`parse_cgi_response`] splits it into a header map and a body;
//! [`convert_cgi_response_to_http`] decides from the headers whether the
//! answer is served by the static handler, is a redirect for the client, or
//! is the script's own document.
pub mod header;
pub mod laws;
pub mod lines;
pub mod parse;
pub mod response;

pub use header::{CGIResponseHeader, CGIResponseHeaderMap};
pub use lines::CGILines;
pub use parse::{parse_cgi_headers, parse_cgi_response, CGIParseError, CGIScriptResponse};
pub use response::{
    client_redirect, convert_cgi_response_to_http, document_response, finish_local_redirect,
    internal_error_response, local_redirect, local_redirect_for, CGIDispatch, HttpHeader,
    HttpResponse, StaticRequest,
};
