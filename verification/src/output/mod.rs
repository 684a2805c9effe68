//! Rendering of requests and responses for a terminal.
pub mod colorful_tty;
pub mod tools;

use crate::cli::KV;
use crate::error::ToolError;
use crate::text::starts_with;
use vstd::prelude::*;

pub use colorful_tty::ColorfulTTY;
pub use tools::Registry;

verus! {

/// What is shown of a response: its status line, its headers and its body.
#[derive(Debug)]
pub struct HttpResponse {
    /// The protocol version, such as `HTTP/1.1`.
    pub version: String,
    /// The status code with its reason, such as `200 OK`.
    pub status: String,
    pub headers: Vec<KV>,
    /// The body as text; empty where the response has none.
    pub body: String,
}

/// What is shown of a request that is not sent.
#[derive(Debug)]
pub struct HttpRequest {
    pub method: String,
    pub path: String,
    /// The protocol version, such as `HTTP/1.1`.
    pub version: String,
    pub headers: Vec<KV>,
    pub body: Option<String>,
}

/// The first line of a response: the protocol version and the status.
pub open spec fn status_line(version: Seq<char>, status: Seq<char>) -> Seq<char> {
    version + " "@ + status
}

/// A renderer: what turns a response, or a request that is not sent, into the
/// text of the two output streams.
///
/// Both methods return the text for the standard output first and the text
/// for the diagnostic stream second. A program picks one renderer when it
/// starts and uses it for every message.
pub trait Output {
    /// Renders a response that was received. The diagnostic stream begins
    /// with the status line.
    fn print_response(&self, registry: &Registry, response: &HttpResponse) -> (r: Result<
        (String, String),
        ToolError,
    >)
        ensures
            r matches Ok(out) ==> starts_with(
                out.1@,
                status_line(response.version@, response.status@) + "\n"@,
            ),
    ;

    /// Renders a request in place of sending it. Nothing goes to the standard
    /// output.
    fn print_request(&self, registry: &Registry, request: &HttpRequest) -> (r: Result<
        (String, String),
        ToolError,
    >)
        ensures
            r matches Ok(out) ==> out.0@ == Seq::<char>::empty(),
    ;
}

} // verus!
