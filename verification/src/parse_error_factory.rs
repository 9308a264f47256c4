//! The factory that builds the parse errors the parser reports, each with
//! its error code and message.
use vstd::prelude::*;
use crate::error_codes::ErrorCode;
use crate::location::Location;
use crate::parse_error::ParseError;
use crate::text::{push_str, string_from};

verus! {

/// `e` is an invalid-syntax error with the given message, suggestion,
/// location and code.
pub open spec fn is_syntax_error(
    e: ParseError,
    message: Seq<char>,
    suggestion: Option<Seq<char>>,
    location: Location,
    code: ErrorCode,
) -> bool {
    match e {
        ParseError::InvalidSyntax { message: m, suggestion: s, location: l, error_code: c } => {
            &&& m@ == message
            &&& match (s, suggestion) {
                (Some(a), Some(b)) => a@ == b,
                (None, None) => true,
                _ => false,
            }
            &&& l == location
            &&& c == Some(code)
        },
        _ => false,
    }
}

/// `e` is an invalid-number error with the given value, reason, location and code.
pub open spec fn is_number_error(
    e: ParseError,
    value: Seq<char>,
    reason: Seq<char>,
    location: Location,
    code: ErrorCode,
) -> bool {
    match e {
        ParseError::InvalidNumber { value: v, reason: r, location: l, error_code: c } => {
            &&& v@ == value
            &&& r@ == reason
            &&& l == location
            &&& c == Some(code)
        },
        _ => false,
    }
}

/// `prefix` followed by a space and the context, or `prefix` alone.
pub open spec fn with_context(prefix: Seq<char>, context: Option<&str>) -> Seq<char> {
    match context {
        Some(c) => prefix + seq![' '] + c@,
        None => prefix,
    }
}

fn string_with_context(prefix: &str, context: Option<&str>) -> (s: String)
    ensures
        s@ == with_context(prefix@, context),
{
    let mut s = String::new();
    push_str(&mut s, prefix);
    match context {
        Some(c) => {
            push_str(&mut s, " ");
            push_str(&mut s, c);
            proof {
                reveal_strlit(" ");
            }
        },
        None => {},
    }
    assert(s@ =~= with_context(prefix@, context));
    s
}

fn syntax_error(message: String, suggestion: Option<String>, location: Location, code: ErrorCode) -> (e: ParseError)
    ensures
        is_syntax_error(
            e,
            message@,
            match suggestion {
                Some(s) => Some(s@),
                None => None,
            },
            location,
            code,
        ),
{
    ParseError::InvalidSyntax { message, suggestion, location, error_code: Some(code) }
}

/// Builds the parse errors that the parser reports.
pub struct ParseErrorFactory;

impl ParseErrorFactory {
    /// "Expected 'else' after if expression".
    pub fn expected_else_after_if(location: Location) -> (e: ParseError)
        ensures
            is_syntax_error(e, "Expected 'else' after if expression"@, None, location, ErrorCode::ExpectedElse),
    {
        syntax_error(string_from("Expected 'else' after if expression"), None, location, ErrorCode::ExpectedElse)
    }

    /// "Expected ';'", followed by the context if given.
    pub fn expected_semicolon(location: Location, context: Option<&str>) -> (e: ParseError)
        ensures
            is_syntax_error(e, with_context("Expected ';'"@, context), None, location, ErrorCode::ExpectedSemicolon),
    {
        syntax_error(string_with_context("Expected ';'", context), None, location, ErrorCode::ExpectedSemicolon)
    }

    /// "Expected '='".
    pub fn expected_equals(location: Location) -> (e: ParseError)
        ensures
            is_syntax_error(e, "Expected '='"@, None, location, ErrorCode::ExpectedEquals),
    {
        syntax_error(string_from("Expected '='"), None, location, ErrorCode::ExpectedEquals)
    }

    /// " Expected '('", followed by the context if given.
    pub fn expected_opening_paren(location: Location, context: Option<&str>) -> (e: ParseError)
        ensures
            is_syntax_error(e, with_context(" Expected '('"@, context), None, location, ErrorCode::ExpectedOpeningParen),
    {
        syntax_error(string_with_context(" Expected '('", context), None, location, ErrorCode::ExpectedOpeningParen)
    }

    /// " Expected ')'", followed by the context if given.
    pub fn expected_closing_paren(location: Location, context: Option<&str>) -> (e: ParseError)
        ensures
            is_syntax_error(e, with_context(" Expected ')'"@, context), None, location, ErrorCode::ExpectedClosingParen),
    {
        syntax_error(string_with_context(" Expected ')'", context), None, location, ErrorCode::ExpectedClosingParen)
    }

    /// "Expected '{'", followed by the context if given.
    pub fn expected_opening_brace(location: Location, context: Option<&str>) -> (e: ParseError)
        ensures
            is_syntax_error(e, with_context("Expected '{'"@, context), None, location, ErrorCode::ExpectedOpeningBrace),
    {
        syntax_error(string_with_context("Expected '{'", context), None, location, ErrorCode::ExpectedOpeningBrace)
    }

    /// "Expected '}'", followed by the context if given.
    pub fn expected_closing_brace(location: Location, context: Option<&str>) -> (e: ParseError)
        ensures
            is_syntax_error(e, with_context("Expected '}'"@, context), None, location, ErrorCode::ExpectedClosingBrace),
    {
        syntax_error(string_with_context("Expected '}'", context), None, location, ErrorCode::ExpectedClosingBrace)
    }

    /// "Expected ':'".
    pub fn expected_colon(location: Location) -> (e: ParseError)
        ensures
            is_syntax_error(e, "Expected ':'"@, None, location, ErrorCode::ExpectedColon),
    {
        syntax_error(string_from("Expected ':'"), None, location, ErrorCode::ExpectedColon)
    }

    /// "Expected ','", followed by the context if given.
    pub fn expected_comma(location: Location, context: Option<&str>) -> (e: ParseError)
        ensures
            is_syntax_error(e, with_context("Expected ','"@, context), None, location, ErrorCode::ExpectedComma),
    {
        syntax_error(string_with_context("Expected ','", context), None, location, ErrorCode::ExpectedComma)
    }

    /// " Expected " followed by the description, or " Expected identifier".
    pub fn expected_identifier(location: Location, description: Option<&str>) -> (e: ParseError)
        ensures
            is_syntax_error(
                e,
                match description {
                    Some(d) => " Expected "@ + d@,
                    None => " Expected identifier"@,
                },
                None,
                location,
                ErrorCode::ExpectedIdentifier,
            ),
    {
        let message = match description {
            Some(d) => {
                let mut s = string_from(" Expected ");
                push_str(&mut s, d);
                s
            },
            None => string_from(" Expected identifier"),
        };
        syntax_error(message, None, location, ErrorCode::ExpectedIdentifier)
    }

    /// An invalid number literal, with its value and the reason.
    pub fn invalid_number_literal(location: Location, value: &str, reason: &str) -> (e: ParseError)
        ensures
            is_number_error(e, value@, reason@, location, ErrorCode::InvalidNumberLiteral),
    {
        ParseError::InvalidNumber {
            value: string_from(value),
            reason: string_from(reason),
            location,
            error_code: Some(ErrorCode::InvalidNumberLiteral),
        }
    }

    /// An unknown type, with the suggestion to check the available type names.
    pub fn unknown_type(location: Location, message: &str) -> (e: ParseError)
        ensures
            is_syntax_error(e, message@, Some("Check available type names"@), location, ErrorCode::UnknownType),
    {
        syntax_error(string_from(message), Some(string_from("Check available type names")), location, ErrorCode::UnknownType)
    }

    /// A value out of range for its type, with the value and the reason.
    pub fn value_out_of_range(location: Location, value: &str, reason: &str) -> (e: ParseError)
        ensures
            is_number_error(e, value@, reason@, location, ErrorCode::ValueOutOfRange),
    {
        ParseError::InvalidNumber {
            value: string_from(value),
            reason: string_from(reason),
            location,
            error_code: Some(ErrorCode::ValueOutOfRange),
        }
    }

    /// Invalid syntax, with an optional suggestion.
    pub fn invalid_syntax(location: Location, message: &str, suggestion: Option<&str>) -> (e: ParseError)
        ensures
            is_syntax_error(
                e,
                message@,
                match suggestion {
                    Some(s) => Some(s@),
                    None => None,
                },
                location,
                ErrorCode::InvalidSyntax,
            ),
    {
        let sugg = match suggestion {
            Some(s) => Some(string_from(s)),
            None => None,
        };
        syntax_error(string_from(message), sugg, location, ErrorCode::InvalidSyntax)
    }
}

} // verus!
