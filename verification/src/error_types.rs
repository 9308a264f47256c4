//! The error types shared by the stages of the compiler, and the top-level
//! error of the compiler.
use vstd::prelude::*;
use crate::compiler_error::CompilerError;
use crate::error_codes::ErrorCode;
use crate::location::Location;
use crate::text::{push_str, string_from};

verus! {

/// How severe a reported problem is.
#[derive(Debug, Clone)]
pub enum ErrorSeverity {
    Error,
    Warning,
    Note,
}

/// What helps to report an error: the file, its text, related errors and
/// suggestions.
#[derive(Debug)]
pub struct ErrorContext<'a> {
    pub file_name: Option<String>,
    pub source_text: Option<&'a str>,
    pub related_errors: Vec<String>,
    pub suggestions: Vec<String>,
}

impl<'a> Default for ErrorContext<'a> {
    fn default() -> (c: ErrorContext<'a>)
        ensures
            c.file_name is None,
            c.source_text is None,
            c.related_errors@.len() == 0,
            c.suggestions@.len() == 0,
    {
        ErrorContext { file_name: None, source_text: None, related_errors: Vec::new(), suggestions: Vec::new() }
    }
}

/// The location of a compiler error: its offset, line and column, and the
/// length of the marked text, 1 when unknown.
pub open spec fn location_of(error: CompilerError) -> Location {
    Location {
        position: error.position,
        line: error.line,
        column: error.column,
        length: match error.token_length {
            Some(n) => n,
            None => 1,
        },
    }
}

fn location_from(error: &CompilerError) -> (l: Location)
    ensures
        l == location_of(*error),
{
    let length = match error.token_length {
        Some(n) => n,
        None => 1,
    };
    Location::new(error.position, error.line, error.column, length)
}

/// An error found while parsing.
#[derive(Debug)]
pub struct ParseError {
    pub error_code: ErrorCode,
    pub message: String,
    pub location: Location,
}

/// An error found by semantic analysis.
#[derive(Debug)]
pub struct SemanticError {
    pub error_code: ErrorCode,
    pub message: String,
    pub location: Location,
}

/// An error found while generating code.
#[derive(Debug)]
pub struct CodegenError {
    pub error_code: ErrorCode,
    pub message: String,
    pub location: Location,
}

/// An error of the type system.
#[derive(Debug)]
pub struct TypeError {
    pub error_code: ErrorCode,
    pub message: String,
    pub location: Location,
}

impl From<CompilerError> for ParseError {
    fn from(error: CompilerError) -> (r: ParseError) {
        let location = location_from(&error);
        ParseError { error_code: error.error_code, message: error.message, location }
    }
}

impl vstd::std_specs::convert::FromSpecImpl<CompilerError> for ParseError {
    open spec fn obeys_from_spec() -> bool {
        true
    }

    open spec fn from_spec(error: CompilerError) -> ParseError {
        ParseError { error_code: error.error_code, message: error.message, location: location_of(error) }
    }
}

impl From<CompilerError> for SemanticError {
    fn from(error: CompilerError) -> (r: SemanticError) {
        let location = location_from(&error);
        SemanticError { error_code: error.error_code, message: error.message, location }
    }
}

impl vstd::std_specs::convert::FromSpecImpl<CompilerError> for SemanticError {
    open spec fn obeys_from_spec() -> bool {
        true
    }

    open spec fn from_spec(error: CompilerError) -> SemanticError {
        SemanticError { error_code: error.error_code, message: error.message, location: location_of(error) }
    }
}

impl From<CompilerError> for CodegenError {
    fn from(error: CompilerError) -> (r: CodegenError) {
        let location = location_from(&error);
        CodegenError { error_code: error.error_code, message: error.message, location }
    }
}

impl vstd::std_specs::convert::FromSpecImpl<CompilerError> for CodegenError {
    open spec fn obeys_from_spec() -> bool {
        true
    }

    open spec fn from_spec(error: CompilerError) -> CodegenError {
        CodegenError { error_code: error.error_code, message: error.message, location: location_of(error) }
    }
}

impl From<CompilerError> for TypeError {
    fn from(error: CompilerError) -> (r: TypeError) {
        let location = location_from(&error);
        TypeError { error_code: error.error_code, message: error.message, location }
    }
}

impl vstd::std_specs::convert::FromSpecImpl<CompilerError> for TypeError {
    open spec fn obeys_from_spec() -> bool {
        true
    }

    open spec fn from_spec(error: CompilerError) -> TypeError {
        TypeError { error_code: error.error_code, message: error.message, location: location_of(error) }
    }
}

/// The errors of the compiler.
#[derive(Debug)]
pub enum SlangError {
    Parse(ParseError),
    Semantic(SemanticError),
    Codegen(CodegenError),
    Type(TypeError),
    Io(String),
    Multiple { errors: Vec<SlangError>, severity: ErrorSeverity },
    Compiler {
        error_code: ErrorCode,
        message: String,
        line: usize,
        column: usize,
        position: usize,
        token_length: Option<usize>,
    },
}

/// The text that describes `e`: the stage that failed, then the message.
pub open spec fn slang_error_text(e: SlangError) -> Seq<char> {
    match e {
        SlangError::Parse(p) => "Parse error: "@ + p.message@,
        SlangError::Semantic(s) => "Semantic analysis error: "@ + s.message@,
        SlangError::Codegen(c) => "Code generation error: "@ + c.message@,
        SlangError::Type(t) => "Type system error: "@ + t.message@,
        SlangError::Io(m) => "IO error: "@ + m@,
        SlangError::Multiple { .. } => "Multiple compilation errors"@,
        SlangError::Compiler { message, .. } => "Compiler error: "@ + message@,
    }
}

impl SlangError {
    /// The text that describes the error: the stage that failed, then the
    /// message.
    pub fn to_text(&self) -> (s: String)
        ensures
            s@ == slang_error_text(*self),
    {
        let (prefix, message): (&str, &String) = match self {
            SlangError::Parse(p) => ("Parse error: ", &p.message),
            SlangError::Semantic(s) => ("Semantic analysis error: ", &s.message),
            SlangError::Codegen(c) => ("Code generation error: ", &c.message),
            SlangError::Type(t) => ("Type system error: ", &t.message),
            SlangError::Io(m) => ("IO error: ", m),
            SlangError::Multiple { .. } => {
                return string_from("Multiple compilation errors");
            },
            SlangError::Compiler { message, .. } => ("Compiler error: ", message),
        };
        let mut s = string_from(prefix);
        push_str(&mut s, message.as_str());
        s
    }
}

impl From<CompilerError> for SlangError {
    fn from(error: CompilerError) -> (r: SlangError) {
        SlangError::Compiler {
            error_code: error.error_code,
            message: error.message,
            line: error.line,
            column: error.column,
            position: error.position,
            token_length: error.token_length,
        }
    }
}

impl vstd::std_specs::convert::FromSpecImpl<CompilerError> for SlangError {
    open spec fn obeys_from_spec() -> bool {
        true
    }

    open spec fn from_spec(error: CompilerError) -> SlangError {
        SlangError::Compiler {
            error_code: error.error_code,
            message: error.message,
            line: error.line,
            column: error.column,
            position: error.position,
            token_length: error.token_length,
        }
    }
}

} // verus!
