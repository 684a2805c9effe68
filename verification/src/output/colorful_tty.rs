//! The renderer for terminals: plain text where a stream is no terminal,
//! highlighted text where it is one.
use super::tools::{
    colored, format_body, get_header_text_in_yaml, header_text, highlight_text,
    highlighter_failure, lemma_colored_nothing, lemma_nothing_to_paint, painted, readable,
    syntax_kind, Painted, Registry,
};
use super::{status_line, HttpRequest, HttpResponse, Output};
use crate::error::ToolError;
use crate::pairs::{pairs_of, Pair};
use crate::utils::{declared_type, get_content_type, negotiate, negotiated};
use colored::Colorize;
use vstd::prelude::*;

verus! {

/// The renderer, with one color mode for each of the two streams.
#[derive(Debug, Clone, Copy, PartialEq, Eq)]
pub struct ColorfulTTY {
    pub stdout_color_mode: bool,
    pub stderr_color_mode: bool,
}

/// `Colorize::yellow` and the `Display` of what it returns: the text, between
/// escape codes where the process colors its output. Whether it does depends
/// on variables of the process and on its terminal, so nothing is stated of
/// the result.
#[verifier::external_body]
fn paint_yellow(text: &str) -> String {
    text.yellow().to_string()
}

/// `Colorize::white` and the `Display` of what it returns; see `paint_yellow`.
#[verifier::external_body]
fn paint_white(text: &str) -> String {
    text.white().to_string()
}

/// `Colorize::green` and the `Display` of what it returns; see `paint_yellow`.
#[verifier::external_body]
fn paint_green(text: &str) -> String {
    text.green().to_string()
}

/// Three words with one space between them.
pub open spec fn spaced(a: Seq<char>, b: Seq<char>, c: Seq<char>) -> Seq<char> {
    a + " "@ + b + " "@ + c
}

/// The body of a message as it is formatted: `None` where there is none.
pub open spec fn present(body: Seq<char>) -> Option<Seq<char>> {
    if body.len() == 0 {
        None
    } else {
        Some(body)
    }
}

/// What is shown of a body of the media type `ct`: nothing for no body, the
/// readable form of the body otherwise. `None` where the body is malformed.
pub open spec fn shown(ct: Seq<char>, body: Option<Seq<char>>) -> Option<Seq<char>> {
    match body {
        None => Some(Seq::empty()),
        Some(b) => readable(ct, b),
    }
}

/// The two streams of a rendered response: the body block on the first, the
/// status line and the header block on the second.
pub open spec fn response_streams(head: Seq<char>, header_block: Seq<char>, body_block: Seq<char>)
    -> (Seq<char>, Seq<char>) {
    (body_block, head + "\n"@ + header_block)
}

/// The two streams of a rendered request: nothing on the first; the request
/// line, the header block and the body block on the second.
pub open spec fn request_streams(head: Seq<char>, header_block: Seq<char>, body_block: Seq<char>)
    -> (Seq<char>, Seq<char>) {
    (Seq::empty(), head + "\n"@ + header_block + body_block)
}

/// `a`, `b` and `c` with one space between them.
pub fn join_spaced(a: &str, b: &str, c: &str) -> (r: String)
    ensures
        r@ == spaced(a@, b@, c@),
{
    let mut out = String::from_str(a);
    out.append(" ");
    out.append(b);
    out.append(" ");
    out.append(c);
    out
}

/// Puts the blocks of a rendered response on their streams.
pub fn response_output(head: &str, header_block: &str, body_block: String) -> (r: (String, String))
    ensures
        (r.0@, r.1@) == response_streams(head@, header_block@, body_block@),
{
    let mut err = String::from_str(head);
    err.append("\n");
    err.append(header_block);
    (body_block, err)
}

/// Puts the blocks of a rendered request on their streams.
pub fn request_output(head: &str, header_block: &str, body_block: &str) -> (r: (String, String))
    ensures
        (r.0@, r.1@) == request_streams(head@, header_block@, body_block@),
{
    let mut err = String::from_str(head);
    err.append("\n");
    err.append(header_block);
    err.append(body_block);
    (String::new(), err)
}

/// Whether `out` is `text` as it goes to a stream: in colors where the stream
/// is in color mode, with nothing for an empty text; as it is where not.
pub open spec fn rendered(color: bool, out: Seq<char>, text: Seq<char>) -> bool {
    if color {
        colored(out, text) && (text.len() == 0 ==> out.len() == 0)
    } else {
        out == text
    }
}

/// Whether `err` is the two blocks behind some first line.
pub open spec fn behind_some_line(err: Seq<char>, header_block: Seq<char>, body_block: Seq<char>)
    -> bool {
    exists|first: Seq<char>|
        err == (#[trigger] request_streams(first, header_block, body_block)).1
}

/// `text` as it goes to a stream: as it is where the stream is not in color
/// mode; highlighted as a text of the kind `extension`, with the theme that is
/// used where none is asked for, where it is. `None` where the highlighter
/// refuses the text.
pub open spec fn block_of(registry: Registry, color: bool, text: Seq<char>, extension: Seq<char>)
    -> Option<Seq<char>> {
    if color {
        match painted(registry, text, extension, "base16-ocean.dark"@) {
            Painted::Text(out) => Some(out),
            _ => None,
        }
    } else {
        Some(text)
    }
}

/// The body block of a message: nothing where the message has no body, the
/// shown body as it goes to the stream where it has one.
pub open spec fn body_block_of(
    registry: Registry,
    color: bool,
    has_body: bool,
    body: Seq<char>,
    ct: Seq<char>,
) -> Option<Seq<char>> {
    if has_body {
        block_of(registry, color, body, syntax_kind(ct))
    } else {
        Some(Seq::empty())
    }
}

/// The header block of a message as it goes to the stream.
pub open spec fn header_block_of(registry: Registry, color: bool, headers: Seq<Pair>) -> Option<
    Seq<char>,
> {
    block_of(registry, color, header_text(headers), "yaml"@)
}

/// A stream that is not in color mode is never refused, and neither is an
/// empty text: the highlighter is asked only for text that is to be colored.
pub proof fn lemma_block_owed(registry: Registry, color: bool, text: Seq<char>, extension: Seq<char>)
    requires
        registry.themes().contains("base16-ocean.dark"@),
        !color || text.len() == 0,
    ensures
        block_of(registry, color, text, extension) == Some(text),
{
    if color {
        lemma_nothing_to_paint(registry, extension, "base16-ocean.dark"@);
        assert(text == Seq::<char>::empty());
    }
}

/// In color mode the body block of a message with a body is what highlighting
/// gives for the shown body, as a text of the kind of its content type and with
/// the theme that is used where none is asked for: the body is highlighted
/// once, and nothing that is highlighted is highlighted again.
pub proof fn lemma_body_highlighted_once(
    registry: Registry,
    body: Seq<char>,
    ct: Seq<char>,
    out: Seq<char>,
)
    requires
        painted(registry, body, syntax_kind(ct), "base16-ocean.dark"@) == Painted::Text(out),
    ensures
        body_block_of(registry, true, true, body, ct) == Some(out),
{
}

/// `text` as it goes to a stream: highlighted under `extension` where the
/// stream is in color mode, as it is where not.
///
/// Only the highlighter can fail, and only on a text that is not empty.
fn block(registry: &Registry, color: bool, text: String, extension: &str) -> (r: Result<
    String,
    ToolError,
>)
    ensures
        match block_of(*registry, color, text@, extension@) {
            Some(out) => r matches Ok(t) && t@ == out && rendered(color, out, text@),
            None => (r matches Err(ToolError::RenderError(m)) && m@ == highlighter_failure())
                && color && text@.len() > 0,
        },
{
    if color {
        let r = highlight_text(registry, text.as_str(), extension, None);
        proof {
            if text@.len() == 0 {
                lemma_nothing_to_paint(*registry, extension@, "base16-ocean.dark"@);
                assert(text@ == Seq::<char>::empty());
            }
        }
        r
    } else {
        Ok(text)
    }
}

impl Output for ColorfulTTY {
    /// Renders a response.
    ///
    /// The body goes to the first stream, in the readable form of its content
    /// type; the status line and the headers go to the second. Each stream is
    /// highlighted exactly where its color mode is on, the body as a text of
    /// the kind of its content type and the headers as `yaml`. A body that is
    /// not of its content type is refused.
    fn print_response(&self, registry: &Registry, response: &HttpResponse) -> (r: Result<
        (String, String),
        ToolError,
    >)
        ensures
            match shown(negotiated(pairs_of(response.headers@)).mime(), present(response.body@)) {
                None => r matches Err(ToolError::MalformedBody(_)),
                Some(body) => match (
                    body_block_of(
                        *registry,
                        self.stdout_color_mode,
                        response.body@.len() > 0,
                        body,
                        negotiated(pairs_of(response.headers@)).mime(),
                    ),
                    header_block_of(*registry, self.stderr_color_mode, pairs_of(response.headers@)),
                ) {
                    (Some(body_block), Some(header_block)) => {
                        let head = status_line(response.version@, response.status@);
                        &&& r matches Ok(out) && (out.0@, out.1@) == response_streams(
                            head,
                            header_block,
                            body_block,
                        )
                        &&& rendered(self.stdout_color_mode, body_block, body)
                        &&& rendered(
                            self.stderr_color_mode,
                            header_block,
                            header_text(pairs_of(response.headers@)),
                        )
                    },
                    _ => {
                        &&& r matches Err(ToolError::RenderError(m)) && m@ == highlighter_failure()
                        &&& (self.stdout_color_mode && body.len() > 0) || (self.stderr_color_mode
                            && header_text(pairs_of(response.headers@)).len() > 0)
                    },
                },
            },
    {
        let mut head = response.version.clone();
        head.append(" ");
        head.append(response.status.as_str());
        let headers = get_header_text_in_yaml(&response.headers);
        let content_type = negotiate(&response.headers);
        let body = if response.body.as_str().is_empty() {
            None
        } else {
            Some(response.body.clone())
        };
        let (extension, body) = match format_body(content_type.as_str(), body) {
            Ok(formatted) => formatted,
            Err(e) => {
                return Err(e);
            },
        };
        let body_block = match body {
            Some(text) => match block(registry, self.stdout_color_mode, text, extension.as_str()) {
                Ok(b) => b,
                Err(e) => {
                    return Err(e);
                },
            },
            None => String::new(),
        };
        let header_block = match block(registry, self.stderr_color_mode, headers, "yaml") {
            Ok(b) => b,
            Err(e) => {
                return Err(e);
            },
        };
        let out = response_output(head.as_str(), header_block.as_str(), body_block);
        proof {
            let first = head@ + "\n"@;
            assert(out.1@.take(first.len() as int) == first);
            lemma_colored_nothing();
        }
        Ok(out)
    }

    /// Renders a request that is not sent.
    ///
    /// Everything goes to the second stream: the method, the path and the
    /// protocol version on one line, then the headers, then the body in the
    /// readable form of the declared content type. The stream is highlighted
    /// exactly where its color mode is on, the headers as `yaml` and the body
    /// as a text of the kind of its content type; the words of the first line
    /// are then painted by the `colored` crate, of which nothing is stated. A
    /// body that is not of its content type is refused.
    fn print_request(&self, registry: &Registry, request: &HttpRequest) -> (r: Result<
        (String, String),
        ToolError,
    >)
        ensures
            match shown(
                declared_type(pairs_of(request.headers@)),
                match request.body {
                    Some(b) => Some(b@),
                    None => None,
                },
            ) {
                None => r matches Err(ToolError::MalformedBody(_)),
                Some(body) => match (
                    header_block_of(*registry, self.stderr_color_mode, pairs_of(request.headers@)),
                    body_block_of(
                        *registry,
                        self.stderr_color_mode,
                        request.body is Some,
                        body,
                        declared_type(pairs_of(request.headers@)),
                    ),
                ) {
                    (Some(header_block), Some(body_block)) => {
                        let head = spaced(request.method@, request.path@, request.version@);
                        &&& r matches Ok(out) && out.0@ == Seq::<char>::empty() && (
                        if self.stderr_color_mode {
                            behind_some_line(out.1@, header_block, body_block)
                        } else {
                            out.1@ == request_streams(head, header_block, body_block).1
                        })
                        &&& rendered(
                            self.stderr_color_mode,
                            header_block,
                            header_text(pairs_of(request.headers@)),
                        )
                        &&& rendered(self.stderr_color_mode, body_block, body)
                    },
                    _ => {
                        &&& r matches Err(ToolError::RenderError(m)) && m@ == highlighter_failure()
                        &&& self.stderr_color_mode
                        &&& header_text(pairs_of(request.headers@)).len() > 0 || body.len() > 0
                    },
                },
            },
    {
        let head = if self.stderr_color_mode {
            let method = paint_yellow(request.method.as_str());
            let path = paint_white(request.path.as_str());
            let version = paint_green(request.version.as_str());
            join_spaced(method.as_str(), path.as_str(), version.as_str())
        } else {
            join_spaced(request.method.as_str(), request.path.as_str(), request.version.as_str())
        };
        let headers = get_header_text_in_yaml(&request.headers);
        let content_type = get_content_type(&request.headers);
        let body = match &request.body {
            Some(b) => Some(b.clone()),
            None => None,
        };
        let (extension, body) = match format_body(content_type.as_str(), body) {
            Ok(formatted) => formatted,
            Err(e) => {
                return Err(e);
            },
        };
        let header_block = match block(registry, self.stderr_color_mode, headers, "yaml") {
            Ok(b) => b,
            Err(e) => {
                return Err(e);
            },
        };
        let body_block = match body {
            Some(text) => match block(registry, self.stderr_color_mode, text, extension.as_str()) {
                Ok(b) => b,
                Err(e) => {
                    return Err(e);
                },
            },
            None => String::new(),
        };
        let out = request_output(head.as_str(), header_block.as_str(), body_block.as_str());
        proof {
            lemma_colored_nothing();
            assert(out.1@ == request_streams(head@, header_block@, body_block@).1);
        }
        Ok(out)
    }
}

/// A response without a `content-type` header is read as JSON: what is shown
/// of its body is the pretty-printed document, and a body that is no JSON
/// document is malformed.
pub proof fn lemma_untyped_response(h: Seq<Pair>, body: Seq<char>)
    requires
        forall|i: int| 0 <= i < h.len() ==> crate::text::lower((#[trigger] h[i]).0) != "content-type"@,
        body.len() > 0,
    ensures
        shown(negotiated(h).mime(), present(body)) == crate::output::tools::pretty_json(body),
{
    crate::utils::lemma_undeclared_type(h);
}

/// A response whose declared media type is none of the client's own is read
/// as JSON in the same way.
pub proof fn lemma_unknown_response(h: Seq<Pair>, body: Seq<char>)
    requires
        crate::utils::ContentType::of_mime(declared_type(h)) is None,
        body.len() > 0,
    ensures
        shown(negotiated(h).mime(), present(body)) == crate::output::tools::pretty_json(body),
{
}

} // verus!
