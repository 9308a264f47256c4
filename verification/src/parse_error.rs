//! Parse errors with their context, the factory that builds the errors the
//! parser reports, and their conversion to compiler errors.
use vstd::prelude::*;
use crate::compiler_error::CompilerError;
use crate::error_codes::ErrorCode;
use crate::location::Location;
use crate::text::{push_char, push_str};

verus! {

/// Categories for organizing errors by the phase that reports them.
#[derive(Debug, Clone, Copy, PartialEq, Eq, Structural)]
pub enum ErrorCategory {
    /// Errors of the lexer.
    Lexical,
    /// Errors of the parser.
    Syntax,
    /// Errors of semantic analysis.
    Semantic,
    /// Errors of the type system.
    Type,
    /// Errors of code generation.
    Codegen,
    /// Input and output errors.
    IO,
}

/// An error that belongs to one phase of the compiler and can be reported
/// as a compiler error.
pub trait DomainError {
    /// The error can be reported: every number its message holds fits in
    /// a machine word.
    spec fn reportable(&self) -> bool;

    /// Converts this error to a compiler error for reporting.
    fn to_compiler_error(&self) -> CompilerError
        requires
            self.reportable(),
    ;

    /// The source location of this error.
    fn location(&self) -> &Location;

    /// The category of this error.
    fn category(&self) -> ErrorCategory;

    /// A short description of this error.
    fn short_description(&self) -> String;
}

/// Parsing errors with their context.
#[derive(Debug, Clone)]
pub enum ParseError {
    /// Expected a specific token but found something else.
    ExpectedToken {
        expected: String,
        found: String,
        location: Location,
        context: String,
        error_code: Option<ErrorCode>,
    },
    /// Unexpected end of file.
    UnexpectedEof {
        expected: String,
        location: Location,
        context: String,
        error_code: Option<ErrorCode>,
    },
    /// Invalid numeric literal, with the reason.
    InvalidNumber {
        value: String,
        reason: String,
        location: Location,
        error_code: Option<ErrorCode>,
    },
    /// Invalid syntax, with an optional suggestion.
    InvalidSyntax {
        message: String,
        suggestion: Option<String>,
        location: Location,
        error_code: Option<ErrorCode>,
    },
    /// Mismatched delimiters.
    MismatchedDelimiters {
        opening: String,
        expected_closing: String,
        found_closing: Option<String>,
        location: Location,
        error_code: Option<ErrorCode>,
    },
}

/// The result of a parse operation.
pub type ParseResult<T> = Result<T, ParseError>;

/// `" (context)"` after a message, or `" "` for an empty context.
pub open spec fn context_suffix(context: Seq<char>) -> Seq<char> {
    if context.len() == 0 {
        seq![' ']
    } else {
        seq![' ', '('] + context + seq![')']
    }
}

/// `code`, or `fallback` when there is none.
pub open spec fn code_or(code: Option<ErrorCode>, fallback: ErrorCode) -> ErrorCode {
    match code {
        Some(c) => c,
        None => fallback,
    }
}

impl ParseError {
    /// The error code reported for this error: the one it carries, or the
    /// code of its kind.
    pub open spec fn spec_code(&self) -> ErrorCode {
        match self {
            ParseError::ExpectedToken { error_code, .. } => code_or(*error_code, ErrorCode::ExpectedToken),
            ParseError::UnexpectedEof { error_code, .. } => code_or(*error_code, ErrorCode::UnexpectedEof),
            ParseError::InvalidNumber { error_code, .. } => code_or(*error_code, ErrorCode::InvalidNumber),
            ParseError::InvalidSyntax { error_code, .. } => code_or(*error_code, ErrorCode::SyntaxError),
            ParseError::MismatchedDelimiters { error_code, .. } => code_or(*error_code, ErrorCode::MismatchedDelimiters),
        }
    }

    /// The message reported for this error.
    pub open spec fn spec_message(&self) -> Seq<char> {
        match self {
            ParseError::ExpectedToken { expected, found, context, .. } =>
                "Expected "@ + expected@ + ", found "@ + found@ + context_suffix(context@),
            ParseError::UnexpectedEof { expected, context, .. } =>
                "Unexpected end of file, expected "@ + expected@ + context_suffix(context@),
            ParseError::InvalidNumber { value, reason, .. } =>
                "Invalid number '"@ + value@ + "': "@ + reason@,
            ParseError::InvalidSyntax { message, suggestion, .. } => match suggestion {
                Some(s) => message@ + ". "@ + s@,
                None => message@,
            },
            ParseError::MismatchedDelimiters { opening, expected_closing, found_closing, .. } =>
                match found_closing {
                    Some(found) => "Mismatched delimiters: opened with '"@ + opening@
                        + "', expected '"@ + expected_closing@ + "', found '"@ + found@ + "'"@,
                    None => "Unclosed delimiter: '"@ + opening@ + "', expected '"@
                        + expected_closing@ + "'"@,
                },
        }
    }

    /// The location of this error.
    pub open spec fn spec_location(&self) -> Location {
        match self {
            ParseError::ExpectedToken { location, .. } => *location,
            ParseError::UnexpectedEof { location, .. } => *location,
            ParseError::InvalidNumber { location, .. } => *location,
            ParseError::InvalidSyntax { location, .. } => *location,
            ParseError::MismatchedDelimiters { location, .. } => *location,
        }
    }

    /// The short description of this error.
    pub open spec fn spec_short_description(&self) -> Seq<char> {
        match self {
            ParseError::ExpectedToken { expected, .. } => "Expected "@ + expected@,
            ParseError::UnexpectedEof { .. } => "Unexpected EOF"@,
            ParseError::InvalidNumber { .. } => "Invalid number"@,
            ParseError::InvalidSyntax { .. } => "Syntax error"@,
            ParseError::MismatchedDelimiters { .. } => "Mismatched delimiters"@,
        }
    }

    fn message(&self) -> (s: String)
        ensures
            s@ == self.spec_message(),
    {
        let mut s = String::new();
        match self {
            ParseError::ExpectedToken { expected, found, context, .. } => {
                push_str(&mut s, "Expected ");
                push_str(&mut s, expected.as_str());
                push_str(&mut s, ", found ");
                push_str(&mut s, found.as_str());
                push_context_suffix(&mut s, context);
            },
            ParseError::UnexpectedEof { expected, context, .. } => {
                push_str(&mut s, "Unexpected end of file, expected ");
                push_str(&mut s, expected.as_str());
                push_context_suffix(&mut s, context);
            },
            ParseError::InvalidNumber { value, reason, .. } => {
                push_str(&mut s, "Invalid number '");
                push_str(&mut s, value.as_str());
                push_str(&mut s, "': ");
                push_str(&mut s, reason.as_str());
            },
            ParseError::InvalidSyntax { message, suggestion, .. } => {
                push_str(&mut s, message.as_str());
                match suggestion {
                    Some(sg) => {
                        push_str(&mut s, ". ");
                        push_str(&mut s, sg.as_str());
                    },
                    None => {},
                }
            },
            ParseError::MismatchedDelimiters { opening, expected_closing, found_closing, .. } => {
                match found_closing {
                    Some(found) => {
                        push_str(&mut s, "Mismatched delimiters: opened with '");
                        push_str(&mut s, opening.as_str());
                        push_str(&mut s, "', expected '");
                        push_str(&mut s, expected_closing.as_str());
                        push_str(&mut s, "', found '");
                        push_str(&mut s, found.as_str());
                        push_str(&mut s, "'");
                    },
                    None => {
                        push_str(&mut s, "Unclosed delimiter: '");
                        push_str(&mut s, opening.as_str());
                        push_str(&mut s, "', expected '");
                        push_str(&mut s, expected_closing.as_str());
                        push_str(&mut s, "'");
                    },
                }
            },
        }
        assert(s@ =~= self.spec_message());
        s
    }
}

fn push_context_suffix(s: &mut String, context: &String)
    ensures
        final(s)@ == old(s)@ + context_suffix(context@),
{
    push_char(s, ' ');
    if context.as_str().unicode_len() > 0 {
        push_char(s, '(');
        push_str(s, context.as_str());
        push_char(s, ')');
    }
    assert(s@ =~= old(s)@ + context_suffix(context@));
}

impl DomainError for ParseError {
    open spec fn reportable(&self) -> bool {
        true
    }

    /// The compiler error for this parse error: its code (or that of its
    /// kind), its message, its line, column and position, and length 1.
    fn to_compiler_error(&self) -> (e: CompilerError)
        ensures
            e.error_code == self.spec_code(),
            e.message@ == self.spec_message(),
            e.line == self.spec_location().line,
            e.column == self.spec_location().column,
            e.position == self.spec_location().position,
            e.token_length == Some(1usize),
    {
        let code = match self {
            ParseError::ExpectedToken { error_code, .. } => match error_code {
                Some(c) => *c,
                None => ErrorCode::ExpectedToken,
            },
            ParseError::UnexpectedEof { error_code, .. } => match error_code {
                Some(c) => *c,
                None => ErrorCode::UnexpectedEof,
            },
            ParseError::InvalidNumber { error_code, .. } => match error_code {
                Some(c) => *c,
                None => ErrorCode::InvalidNumber,
            },
            ParseError::InvalidSyntax { error_code, .. } => match error_code {
                Some(c) => *c,
                None => ErrorCode::SyntaxError,
            },
            ParseError::MismatchedDelimiters { error_code, .. } => match error_code {
                Some(c) => *c,
                None => ErrorCode::MismatchedDelimiters,
            },
        };
        let message = self.message();
        let loc = self.location();
        CompilerError::new(code, message, loc.line, loc.column, loc.position, Some(1))
    }

    fn location(&self) -> (l: &Location)
        ensures
            *l == self.spec_location(),
    {
        match self {
            ParseError::ExpectedToken { location, .. } => location,
            ParseError::UnexpectedEof { location, .. } => location,
            ParseError::InvalidNumber { location, .. } => location,
            ParseError::InvalidSyntax { location, .. } => location,
            ParseError::MismatchedDelimiters { location, .. } => location,
        }
    }

    fn category(&self) -> (c: ErrorCategory)
        ensures
            c == ErrorCategory::Syntax,
    {
        ErrorCategory::Syntax
    }

    fn short_description(&self) -> (s: String)
        ensures
            s@ == self.spec_short_description(),
    {
        let mut s = String::new();
        match self {
            ParseError::ExpectedToken { expected, .. } => {
                push_str(&mut s, "Expected ");
                push_str(&mut s, expected.as_str());
            },
            ParseError::UnexpectedEof { .. } => push_str(&mut s, "Unexpected EOF"),
            ParseError::InvalidNumber { .. } => push_str(&mut s, "Invalid number"),
            ParseError::InvalidSyntax { .. } => push_str(&mut s, "Syntax error"),
            ParseError::MismatchedDelimiters { .. } => push_str(&mut s, "Mismatched delimiters"),
        }
        assert(s@ =~= self.spec_short_description());
        s
    }
}

} // verus!
