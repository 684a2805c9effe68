//! Parameter classification, request assembly and terminal rendering for a
//! small command-line HTTP client.
pub mod aggregate;
pub mod cli;
pub mod config;
pub mod error;
pub mod output;
pub mod pairs;
pub mod request;
pub mod text;
pub mod utils;

pub use cli::{parse_kv, parse_url, CurlArg, Param, ParsedArguments, UrlPart, KV};
