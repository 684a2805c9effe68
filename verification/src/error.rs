//! The failures that the library reports.
use vstd::prelude::*;

verus! {

/// The failure that `url::Url::parse` reports.
#[verifier::external_type_specification]
#[verifier::external_body]
pub struct ExUrlParseError(url::ParseError);

/// The failure that `serde_json` reports.
#[verifier::external_type_specification]
#[verifier::external_body]
pub struct ExJsonError(serde_json::Error);

/// Every way in which preparing a request or rendering a message can fail.
#[derive(Debug)]
pub enum ToolError {
    /// A token that is neither `key:value`, `key=value` nor `key==value`, or
    /// whose key is empty. Holds the token.
    InvalidParameter(String),
    /// A target that is no absolute URL, even with the default scheme.
    InvalidUrl(url::ParseError),
    /// A content type for which no body encoder exists. Holds the content type.
    UnsupportedEncoding(String),
    /// A body that is not of the content type it is declared with.
    MalformedBody(serde_json::Error),
    /// A failure while producing text. Holds a description.
    RenderError(String),
}

} // verus!
