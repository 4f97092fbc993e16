//! A language-driver library: it classifies the outcome of a parse attempt on
//! Rust source text, aggregates parser diagnostics, and frames requests and
//! responses as single lines of JSON for a line-oriented driver protocol.
pub mod codec;
pub mod diag;
pub mod driver;
pub mod json;
pub mod parse;
pub mod text;
