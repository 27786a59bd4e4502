//! Every way building, binding or rendering a template can fail.

use vstd::prelude::*;
use sqlparser::parser::ParserError;
use sqlparser::tokenizer::{Token, TokenizerError};
use crate::value::InnerTy;

verus! {

#[derive(Debug)]
pub enum PSqlError {
    /// An `@` that is not followed directly by an identifier.
    InvalidVariable(Token),
    /// Declared parameters that the statement never references.
    UnusedParams(Vec<String>),
    /// Referenced variables that no annotation declares.
    MissingParams(Vec<String>),
    /// A parameter declared twice.
    DuplicatedParam(String),
    /// A variable with no value in the rendering context.
    MissingContextValue(String),
    /// The substituted token stream is not valid SQL.
    ParseError(ParserError),
    /// An annotation comment that does not follow the declaration grammar; holds the annotation.
    ParamParseError(String),
    /// A textual argument that does not parse as the given type.
    InvalidArgValue(String, InnerTy),
    /// The SQL text could not be tokenized.
    TokenizeError(TokenizerError),
    /// A `GRANTED BY` that no identifier follows, which the statement parser cannot read.
    InvalidGrantor,
    /// A word token with a quote style the statement parser cannot print.
    UnsupportedQuote,
    /// A statement that is not followed by a statement delimiter.
    ExpectEndOfStatement(Token),
    /// A parameter with neither a supplied value nor a default.
    RequiredParam(String),
    /// A scalar parameter that was given this many values.
    ExpectSingleValue(String, usize),
    /// An array parameter that was given a single value.
    ExpectArray(String),
    /// A parameter that was given a value, or a list item, of another type than the
    /// one declared.
    InvalidValueType(String, InnerTy),
    /// A query string whose percent-decoding is not UTF-8; holds the query string.
    InvalidQueryString(String),
    /// A rendering that was to give one statement gave this many.
    ExpectSingleStatement(usize),
}

} // verus!
