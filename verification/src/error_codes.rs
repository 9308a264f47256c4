//! Error codes shared by all phases of the compiler.
//!
//! Code ranges: 1000-1999 parse errors, 2000-2999 semantic analysis errors,
//! 3000-3999 generic compile errors.
use vstd::prelude::*;
use crate::text::{decimal, push_char, zero_padded, zero_padded_decimal};

verus! {

/// Error codes for all compilation errors; each variant has a unique numeric
/// code and a short description.
#[derive(Debug, Clone, Copy, PartialEq, Eq, Hash, Structural)]
pub enum ErrorCode {
    /// Expected a semicolon after a statement
    ExpectedSemicolon,
    /// Expected a closing brace
    ExpectedClosingBrace,
    /// Expected a closing parenthesis
    ExpectedClosingParen,
    /// Expected a closing bracket
    ExpectedClosingBracket,
    /// Expected an opening brace
    ExpectedOpeningBrace,
    /// Expected an opening parenthesis
    ExpectedOpeningParen,
    /// Expected an identifier
    ExpectedIdentifier,
    /// Expected a type annotation
    ExpectedType,
    /// Expected an expression
    ExpectedExpression,
    /// Expected a statement
    ExpectedStatement,
    /// Expected a function parameter
    ExpectedParameter,
    /// Expected an assignment operator
    ExpectedAssignment,
    /// Expected a comma separator
    ExpectedComma,
    /// Expected a colon
    ExpectedColon,
    /// Expected an equals sign
    ExpectedEquals,
    /// Expected a function body
    ExpectedFunctionBody,
    /// Expected a struct field
    ExpectedStructField,
    /// Expected end of file
    ExpectedEof,
    /// Unexpected token encountered
    UnexpectedToken,
    /// Invalid number literal format
    InvalidNumberLiteral,
    /// Invalid string literal format
    InvalidStringLiteral,
    /// Invalid character literal format
    InvalidCharLiteral,
    /// Invalid escape sequence in string
    InvalidEscapeSequence,
    /// Unterminated string literal
    UnterminatedString,
    /// Unterminated character literal
    UnterminatedChar,
    /// Malformed comment
    MalformedComment,
    /// Invalid token in input
    InvalidToken,
    /// Nested function definitions not allowed
    NestedFunction,
    /// Invalid syntax in expression
    InvalidSyntax,
    /// Encountered unknow type during parsing
    UnknownType,
    /// Expected 'else' keyword after if expression
    ExpectedElse,
    /// Expected a particular token
    ExpectedToken,
    /// Unexpected end of input
    UnexpectedEof,
    /// Invalid number
    InvalidNumber,
    /// General syntax error
    SyntaxError,
    /// Mismatched delimiters
    MismatchedDelimiters,
    /// Expected a closing quote of a string literal
    ExpectedClosingQuote,
    /// Variable used before being defined
    UndefinedVariable,
    /// Variable redefinition in the same scope
    VariableRedefinition,
    /// Symbol redefinition conflict
    SymbolRedefinition,
    /// Invalid type for struct field
    InvalidFieldType,
    /// Type mismatch between expected and actual types
    TypeMismatch,
    /// Incompatible types for operation
    OperationTypeMismatch,
    /// Logical operator used with non-boolean types
    LogicalOperatorTypeMismatch,
    /// Value out of range for target type
    ValueOutOfRange,
    /// Function called with wrong number of arguments
    ArgumentCountMismatch,
    /// Function argument has wrong type
    ArgumentTypeMismatch,
    /// Return statement used outside function
    ReturnOutsideFunction,
    /// Return type doesn't match function declaration
    ReturnTypeMismatch,
    /// Missing return value for non-void function
    MissingReturnValue,
    /// Function called but not defined
    UndefinedFunction,
    /// Invalid unary operation for type
    InvalidUnaryOperation,
    /// Assignment to immutable variable
    AssignmentToImmutableVariable,
    /// Expression has invalid form or context
    InvalidExpression,
    /// Generic compile error not categorized
    GenericCompileError,
}

impl ErrorCode {
    /// The numeric code of this error.
    pub open spec fn spec_code(self) -> u16 {
        match self {
            ErrorCode::ExpectedSemicolon => 1001,
            ErrorCode::ExpectedClosingBrace => 1002,
            ErrorCode::ExpectedClosingParen => 1003,
            ErrorCode::ExpectedClosingBracket => 1004,
            ErrorCode::ExpectedOpeningBrace => 1005,
            ErrorCode::ExpectedOpeningParen => 1006,
            ErrorCode::ExpectedIdentifier => 1007,
            ErrorCode::ExpectedType => 1008,
            ErrorCode::ExpectedExpression => 1009,
            ErrorCode::ExpectedStatement => 1010,
            ErrorCode::ExpectedParameter => 1011,
            ErrorCode::ExpectedAssignment => 1012,
            ErrorCode::ExpectedComma => 1013,
            ErrorCode::ExpectedColon => 1014,
            ErrorCode::ExpectedEquals => 1015,
            ErrorCode::ExpectedFunctionBody => 1016,
            ErrorCode::ExpectedStructField => 1017,
            ErrorCode::ExpectedEof => 1018,
            ErrorCode::UnexpectedToken => 1019,
            ErrorCode::InvalidNumberLiteral => 1020,
            ErrorCode::InvalidStringLiteral => 1021,
            ErrorCode::InvalidCharLiteral => 1022,
            ErrorCode::InvalidEscapeSequence => 1023,
            ErrorCode::UnterminatedString => 1024,
            ErrorCode::UnterminatedChar => 1025,
            ErrorCode::MalformedComment => 1026,
            ErrorCode::InvalidToken => 1027,
            ErrorCode::NestedFunction => 1028,
            ErrorCode::InvalidSyntax => 1029,
            ErrorCode::UnknownType => 1030,
            ErrorCode::ExpectedElse => 1031,
            ErrorCode::ExpectedToken => 1032,
            ErrorCode::UnexpectedEof => 1033,
            ErrorCode::InvalidNumber => 1034,
            ErrorCode::SyntaxError => 1035,
            ErrorCode::MismatchedDelimiters => 1036,
            ErrorCode::ExpectedClosingQuote => 1037,
            ErrorCode::UndefinedVariable => 2001,
            ErrorCode::VariableRedefinition => 2002,
            ErrorCode::SymbolRedefinition => 2003,
            ErrorCode::InvalidFieldType => 2004,
            ErrorCode::TypeMismatch => 2005,
            ErrorCode::OperationTypeMismatch => 2006,
            ErrorCode::LogicalOperatorTypeMismatch => 2007,
            ErrorCode::ValueOutOfRange => 2008,
            ErrorCode::ArgumentCountMismatch => 2009,
            ErrorCode::ArgumentTypeMismatch => 2010,
            ErrorCode::ReturnOutsideFunction => 2011,
            ErrorCode::ReturnTypeMismatch => 2012,
            ErrorCode::MissingReturnValue => 2013,
            ErrorCode::UndefinedFunction => 2014,
            ErrorCode::InvalidUnaryOperation => 2015,
            ErrorCode::AssignmentToImmutableVariable => 2016,
            ErrorCode::InvalidExpression => 2017,
            ErrorCode::GenericCompileError => 3000,
        }
    }

    /// The short description of this error.
    pub open spec fn spec_description(self) -> Seq<char> {
        match self {
            ErrorCode::ExpectedSemicolon => "Expected semicolon after statement"@,
            ErrorCode::ExpectedClosingBrace => "Expected closing brace '}'"@,
            ErrorCode::ExpectedClosingParen => "Expected closing parenthesis ')'"@,
            ErrorCode::ExpectedClosingBracket => "Expected closing bracket ']'"@,
            ErrorCode::ExpectedOpeningBrace => "Expected opening brace '{'"@,
            ErrorCode::ExpectedOpeningParen => "Expected opening parenthesis '('"@,
            ErrorCode::ExpectedIdentifier => "Expected identifier"@,
            ErrorCode::ExpectedType => "Expected type annotation"@,
            ErrorCode::ExpectedExpression => "Expected expression"@,
            ErrorCode::ExpectedStatement => "Expected statement"@,
            ErrorCode::ExpectedParameter => "Expected function parameter"@,
            ErrorCode::ExpectedAssignment => "Expected assignment operator"@,
            ErrorCode::ExpectedComma => "Expected comma separator"@,
            ErrorCode::ExpectedColon => "Expected colon ':'"@,
            ErrorCode::ExpectedEquals => "Expected equals sign '='"@,
            ErrorCode::ExpectedFunctionBody => "Expected function body"@,
            ErrorCode::ExpectedStructField => "Expected struct field"@,
            ErrorCode::ExpectedEof => "Expected end of file"@,
            ErrorCode::UnexpectedToken => "Unexpected token"@,
            ErrorCode::InvalidNumberLiteral => "Invalid number literal format"@,
            ErrorCode::InvalidStringLiteral => "Invalid string literal format"@,
            ErrorCode::InvalidCharLiteral => "Invalid character literal format"@,
            ErrorCode::InvalidEscapeSequence => "Invalid escape sequence"@,
            ErrorCode::UnterminatedString => "Unterminated string literal"@,
            ErrorCode::UnterminatedChar => "Unterminated character literal"@,
            ErrorCode::MalformedComment => "Malformed comment"@,
            ErrorCode::InvalidToken => "Invalid token"@,
            ErrorCode::NestedFunction => "Nested function definitions not allowed"@,
            ErrorCode::InvalidSyntax => "Invalid syntax"@,
            ErrorCode::UnknownType => "Unknow type"@,
            ErrorCode::ExpectedElse => "Expected 'else' after if expression"@,
            ErrorCode::ExpectedToken => "Expected token"@,
            ErrorCode::UnexpectedEof => "Unexpected end of file"@,
            ErrorCode::InvalidNumber => "Invalid number"@,
            ErrorCode::SyntaxError => "Syntax error"@,
            ErrorCode::MismatchedDelimiters => "Mismatched delimiters"@,
            ErrorCode::ExpectedClosingQuote => "Expected closing quote"@,
            ErrorCode::UndefinedVariable => "Undefined variable"@,
            ErrorCode::VariableRedefinition => "Variable already defined"@,
            ErrorCode::SymbolRedefinition => "Symbol redefinition"@,
            ErrorCode::InvalidFieldType => "Invalid field type"@,
            ErrorCode::TypeMismatch => "Type mismatch"@,
            ErrorCode::OperationTypeMismatch => "Incompatible types for operation"@,
            ErrorCode::LogicalOperatorTypeMismatch => "Logical operator requires boolean types"@,
            ErrorCode::ValueOutOfRange => "Value out of range for type"@,
            ErrorCode::ArgumentCountMismatch => "Wrong number of function arguments"@,
            ErrorCode::ArgumentTypeMismatch => "Function argument type mismatch"@,
            ErrorCode::ReturnOutsideFunction => "Return statement outside function"@,
            ErrorCode::ReturnTypeMismatch => "Return type mismatch"@,
            ErrorCode::MissingReturnValue => "Missing return value"@,
            ErrorCode::UndefinedFunction => "Undefined function"@,
            ErrorCode::InvalidUnaryOperation => "Invalid unary operation for type"@,
            ErrorCode::AssignmentToImmutableVariable => "Assignment to immutable variable"@,
            ErrorCode::InvalidExpression => "Invalid expression"@,
            ErrorCode::GenericCompileError => "Generic compile error"@,
        }
    }

    /// Whether the code lies in the parse error range (1000-1999).
    pub open spec fn spec_is_parse_error(self) -> bool {
        1000 <= self.spec_code() < 2000
    }

    /// Whether the code lies in the semantic error range (2000-2999).
    pub open spec fn spec_is_semantic_error(self) -> bool {
        2000 <= self.spec_code() < 3000
    }

    /// The label under which the code is displayed: `[E` followed by the code
    /// padded with zeros to four digits, followed by `]`.
    pub open spec fn spec_label(self) -> Seq<char> {
        seq!['[', 'E'] + zero_padded(decimal(self.spec_code() as nat), 4) + seq![']']
    }

    /// Returns the numeric error code.
    pub fn code(&self) -> (c: u16)
        ensures
            c == self.spec_code(),
    {
        match self {
            ErrorCode::ExpectedSemicolon => 1001,
            ErrorCode::ExpectedClosingBrace => 1002,
            ErrorCode::ExpectedClosingParen => 1003,
            ErrorCode::ExpectedClosingBracket => 1004,
            ErrorCode::ExpectedOpeningBrace => 1005,
            ErrorCode::ExpectedOpeningParen => 1006,
            ErrorCode::ExpectedIdentifier => 1007,
            ErrorCode::ExpectedType => 1008,
            ErrorCode::ExpectedExpression => 1009,
            ErrorCode::ExpectedStatement => 1010,
            ErrorCode::ExpectedParameter => 1011,
            ErrorCode::ExpectedAssignment => 1012,
            ErrorCode::ExpectedComma => 1013,
            ErrorCode::ExpectedColon => 1014,
            ErrorCode::ExpectedEquals => 1015,
            ErrorCode::ExpectedFunctionBody => 1016,
            ErrorCode::ExpectedStructField => 1017,
            ErrorCode::ExpectedEof => 1018,
            ErrorCode::UnexpectedToken => 1019,
            ErrorCode::InvalidNumberLiteral => 1020,
            ErrorCode::InvalidStringLiteral => 1021,
            ErrorCode::InvalidCharLiteral => 1022,
            ErrorCode::InvalidEscapeSequence => 1023,
            ErrorCode::UnterminatedString => 1024,
            ErrorCode::UnterminatedChar => 1025,
            ErrorCode::MalformedComment => 1026,
            ErrorCode::InvalidToken => 1027,
            ErrorCode::NestedFunction => 1028,
            ErrorCode::InvalidSyntax => 1029,
            ErrorCode::UnknownType => 1030,
            ErrorCode::ExpectedElse => 1031,
            ErrorCode::ExpectedToken => 1032,
            ErrorCode::UnexpectedEof => 1033,
            ErrorCode::InvalidNumber => 1034,
            ErrorCode::SyntaxError => 1035,
            ErrorCode::MismatchedDelimiters => 1036,
            ErrorCode::ExpectedClosingQuote => 1037,
            ErrorCode::UndefinedVariable => 2001,
            ErrorCode::VariableRedefinition => 2002,
            ErrorCode::SymbolRedefinition => 2003,
            ErrorCode::InvalidFieldType => 2004,
            ErrorCode::TypeMismatch => 2005,
            ErrorCode::OperationTypeMismatch => 2006,
            ErrorCode::LogicalOperatorTypeMismatch => 2007,
            ErrorCode::ValueOutOfRange => 2008,
            ErrorCode::ArgumentCountMismatch => 2009,
            ErrorCode::ArgumentTypeMismatch => 2010,
            ErrorCode::ReturnOutsideFunction => 2011,
            ErrorCode::ReturnTypeMismatch => 2012,
            ErrorCode::MissingReturnValue => 2013,
            ErrorCode::UndefinedFunction => 2014,
            ErrorCode::InvalidUnaryOperation => 2015,
            ErrorCode::AssignmentToImmutableVariable => 2016,
            ErrorCode::InvalidExpression => 2017,
            ErrorCode::GenericCompileError => 3000,
        }
    }

    /// Returns a short description of the error.
    pub fn description(&self) -> (d: &'static str)
        ensures
            d@ == self.spec_description(),
    {
        match self {
            ErrorCode::ExpectedSemicolon => "Expected semicolon after statement",
            ErrorCode::ExpectedClosingBrace => "Expected closing brace '}'",
            ErrorCode::ExpectedClosingParen => "Expected closing parenthesis ')'",
            ErrorCode::ExpectedClosingBracket => "Expected closing bracket ']'",
            ErrorCode::ExpectedOpeningBrace => "Expected opening brace '{'",
            ErrorCode::ExpectedOpeningParen => "Expected opening parenthesis '('",
            ErrorCode::ExpectedIdentifier => "Expected identifier",
            ErrorCode::ExpectedType => "Expected type annotation",
            ErrorCode::ExpectedExpression => "Expected expression",
            ErrorCode::ExpectedStatement => "Expected statement",
            ErrorCode::ExpectedParameter => "Expected function parameter",
            ErrorCode::ExpectedAssignment => "Expected assignment operator",
            ErrorCode::ExpectedComma => "Expected comma separator",
            ErrorCode::ExpectedColon => "Expected colon ':'",
            ErrorCode::ExpectedEquals => "Expected equals sign '='",
            ErrorCode::ExpectedFunctionBody => "Expected function body",
            ErrorCode::ExpectedStructField => "Expected struct field",
            ErrorCode::ExpectedEof => "Expected end of file",
            ErrorCode::UnexpectedToken => "Unexpected token",
            ErrorCode::InvalidNumberLiteral => "Invalid number literal format",
            ErrorCode::InvalidStringLiteral => "Invalid string literal format",
            ErrorCode::InvalidCharLiteral => "Invalid character literal format",
            ErrorCode::InvalidEscapeSequence => "Invalid escape sequence",
            ErrorCode::UnterminatedString => "Unterminated string literal",
            ErrorCode::UnterminatedChar => "Unterminated character literal",
            ErrorCode::MalformedComment => "Malformed comment",
            ErrorCode::InvalidToken => "Invalid token",
            ErrorCode::NestedFunction => "Nested function definitions not allowed",
            ErrorCode::InvalidSyntax => "Invalid syntax",
            ErrorCode::UnknownType => "Unknow type",
            ErrorCode::ExpectedElse => "Expected 'else' after if expression",
            ErrorCode::ExpectedToken => "Expected token",
            ErrorCode::UnexpectedEof => "Unexpected end of file",
            ErrorCode::InvalidNumber => "Invalid number",
            ErrorCode::SyntaxError => "Syntax error",
            ErrorCode::MismatchedDelimiters => "Mismatched delimiters",
            ErrorCode::ExpectedClosingQuote => "Expected closing quote",
            ErrorCode::UndefinedVariable => "Undefined variable",
            ErrorCode::VariableRedefinition => "Variable already defined",
            ErrorCode::SymbolRedefinition => "Symbol redefinition",
            ErrorCode::InvalidFieldType => "Invalid field type",
            ErrorCode::TypeMismatch => "Type mismatch",
            ErrorCode::OperationTypeMismatch => "Incompatible types for operation",
            ErrorCode::LogicalOperatorTypeMismatch => "Logical operator requires boolean types",
            ErrorCode::ValueOutOfRange => "Value out of range for type",
            ErrorCode::ArgumentCountMismatch => "Wrong number of function arguments",
            ErrorCode::ArgumentTypeMismatch => "Function argument type mismatch",
            ErrorCode::ReturnOutsideFunction => "Return statement outside function",
            ErrorCode::ReturnTypeMismatch => "Return type mismatch",
            ErrorCode::MissingReturnValue => "Missing return value",
            ErrorCode::UndefinedFunction => "Undefined function",
            ErrorCode::InvalidUnaryOperation => "Invalid unary operation for type",
            ErrorCode::AssignmentToImmutableVariable => "Assignment to immutable variable",
            ErrorCode::InvalidExpression => "Invalid expression",
            ErrorCode::GenericCompileError => "Generic compile error",
        }
    }

    /// Whether this is a parse error (code in 1000-1999).
    pub fn is_parse_error(&self) -> (b: bool)
        ensures
            b == self.spec_is_parse_error(),
    {
        let code = self.code();
        code >= 1000 && code < 2000
    }

    /// Whether this is a semantic analysis error (code in 2000-2999).
    pub fn is_semantic_error(&self) -> (b: bool)
        ensures
            b == self.spec_is_semantic_error(),
    {
        let code = self.code();
        code >= 2000 && code < 3000
    }

    /// The display label of the code, such as `[E1001]`.
    pub fn label(&self) -> (s: String)
        ensures
            s@ == self.spec_label(),
    {
        let mut s = String::new();
        push_char(&mut s, '[');
        push_char(&mut s, 'E');
        let digits = zero_padded_decimal(self.code() as usize, 4);
        crate::text::push_str(&mut s, digits.as_str());
        push_char(&mut s, ']');
        assert(s@ =~= self.spec_label());
        s
    }
}

/// Distinct error codes have distinct numbers.
pub proof fn lemma_code_injective(a: ErrorCode, b: ErrorCode)
    requires
        a.spec_code() == b.spec_code(),
    ensures
        a == b,
{
}

/// Every code lies in exactly one of the three ranges: parse errors
/// (1000-1999), semantic errors (2000-2999) and generic errors (3000-3999).
pub proof fn lemma_code_ranges(e: ErrorCode)
    ensures
        1000 <= e.spec_code() < 4000,
        !(e.spec_is_parse_error() && e.spec_is_semantic_error()),
        e.spec_is_parse_error() || e.spec_is_semantic_error() || e == ErrorCode::GenericCompileError,
{
}

/// A few features of a description: its length, its first character and
/// its thirteenth character (-1 when it is shorter).
pub open spec fn description_key(d: Seq<char>) -> (int, int, int) {
    (d.len() as int, d[0] as int, if d.len() > 12 { d[12] as int } else { -1 })
}

/// The features of the description of each code.
spec fn key_of(e: ErrorCode) -> (int, int, int) {
    match e {
        ErrorCode::ExpectedSemicolon => (34, 69, 105),
        ErrorCode::ExpectedClosingBrace => (26, 69, 115),
        ErrorCode::ExpectedClosingParen => (32, 69, 115),
        ErrorCode::ExpectedClosingBracket => (28, 69, 115),
        ErrorCode::ExpectedOpeningBrace => (26, 69, 110),
        ErrorCode::ExpectedOpeningParen => (32, 69, 110),
        ErrorCode::ExpectedIdentifier => (19, 69, 110),
        ErrorCode::ExpectedType => (24, 69, 101),
        ErrorCode::ExpectedExpression => (19, 69, 114),
        ErrorCode::ExpectedStatement => (18, 69, 116),
        ErrorCode::ExpectedParameter => (27, 69, 99),
        ErrorCode::ExpectedAssignment => (28, 69, 105),
        ErrorCode::ExpectedComma => (24, 69, 109),
        ErrorCode::ExpectedColon => (18, 69, 111),
        ErrorCode::ExpectedEquals => (24, 69, 97),
        ErrorCode::ExpectedFunctionBody => (22, 69, 99),
        ErrorCode::ExpectedStructField => (21, 69, 117),
        ErrorCode::ExpectedEof => (20, 69, 32),
        ErrorCode::UnexpectedToken => (16, 85, 111),
        ErrorCode::InvalidNumberLiteral => (29, 73, 101),
        ErrorCode::InvalidStringLiteral => (29, 73, 110),
        ErrorCode::InvalidCharLiteral => (32, 73, 97),
        ErrorCode::InvalidEscapeSequence => (23, 73, 112),
        ErrorCode::UnterminatedString => (27, 85, 32),
        ErrorCode::UnterminatedChar => (30, 85, 32),
        ErrorCode::MalformedComment => (17, 77, 109),
        ErrorCode::InvalidToken => (13, 73, 110),
        ErrorCode::NestedFunction => (39, 78, 105),
        ErrorCode::InvalidSyntax => (14, 73, 97),
        ErrorCode::UnknownType => (11, 85, -1),
        ErrorCode::ExpectedElse => (35, 69, 115),
        ErrorCode::ExpectedToken => (14, 69, 101),
        ErrorCode::UnexpectedEof => (22, 85, 110),
        ErrorCode::InvalidNumber => (14, 73, 101),
        ErrorCode::SyntaxError => (12, 83, -1),
        ErrorCode::MismatchedDelimiters => (21, 77, 101),
        ErrorCode::ExpectedClosingQuote => (22, 69, 115),
        ErrorCode::UndefinedVariable => (18, 85, 114),
        ErrorCode::VariableRedefinition => (24, 86, 101),
        ErrorCode::SymbolRedefinition => (19, 83, 105),
        ErrorCode::InvalidFieldType => (18, 73, 100),
        ErrorCode::TypeMismatch => (13, 84, 104),
        ErrorCode::OperationTypeMismatch => (32, 73, 32),
        ErrorCode::LogicalOperatorTypeMismatch => (39, 76, 97),
        ErrorCode::ValueOutOfRange => (27, 86, 32),
        ErrorCode::ArgumentCountMismatch => (34, 87, 32),
        ErrorCode::ArgumentTypeMismatch => (31, 70, 117),
        ErrorCode::ReturnOutsideFunction => (33, 82, 109),
        ErrorCode::ReturnTypeMismatch => (20, 82, 109),
        ErrorCode::MissingReturnValue => (20, 77, 114),
        ErrorCode::UndefinedFunction => (18, 85, 110),
        ErrorCode::InvalidUnaryOperation => (32, 73, 121),
        ErrorCode::AssignmentToImmutableVariable => (32, 65, 111),
        ErrorCode::InvalidExpression => (18, 73, 101),
        ErrorCode::GenericCompileError => (21, 71, 105),
    }
}

/// The description of each code has the features `key_of` lists.
proof fn lemma_description_keys(e: ErrorCode)
    ensures
        e.spec_description().len() > 0,
        description_key(e.spec_description()) == key_of(e),
{
    reveal_strlit("Expected semicolon after statement");
    reveal_strlit("Expected closing brace '}'");
    reveal_strlit("Expected closing parenthesis ')'");
    reveal_strlit("Expected closing bracket ']'");
    reveal_strlit("Expected opening brace '{'");
    reveal_strlit("Expected opening parenthesis '('");
    reveal_strlit("Expected identifier");
    reveal_strlit("Expected type annotation");
    reveal_strlit("Expected expression");
    reveal_strlit("Expected statement");
    reveal_strlit("Expected function parameter");
    reveal_strlit("Expected assignment operator");
    reveal_strlit("Expected comma separator");
    reveal_strlit("Expected colon ':'");
    reveal_strlit("Expected equals sign '='");
    reveal_strlit("Expected function body");
    reveal_strlit("Expected struct field");
    reveal_strlit("Expected end of file");
    reveal_strlit("Unexpected token");
    reveal_strlit("Invalid number literal format");
    reveal_strlit("Invalid string literal format");
    reveal_strlit("Invalid character literal format");
    reveal_strlit("Invalid escape sequence");
    reveal_strlit("Unterminated string literal");
    reveal_strlit("Unterminated character literal");
    reveal_strlit("Malformed comment");
    reveal_strlit("Invalid token");
    reveal_strlit("Nested function definitions not allowed");
    reveal_strlit("Invalid syntax");
    reveal_strlit("Unknow type");
    reveal_strlit("Expected 'else' after if expression");
    reveal_strlit("Expected token");
    reveal_strlit("Unexpected end of file");
    reveal_strlit("Invalid number");
    reveal_strlit("Syntax error");
    reveal_strlit("Mismatched delimiters");
    reveal_strlit("Expected closing quote");
    reveal_strlit("Undefined variable");
    reveal_strlit("Variable already defined");
    reveal_strlit("Symbol redefinition");
    reveal_strlit("Invalid field type");
    reveal_strlit("Type mismatch");
    reveal_strlit("Incompatible types for operation");
    reveal_strlit("Logical operator requires boolean types");
    reveal_strlit("Value out of range for type");
    reveal_strlit("Wrong number of function arguments");
    reveal_strlit("Function argument type mismatch");
    reveal_strlit("Return statement outside function");
    reveal_strlit("Return type mismatch");
    reveal_strlit("Missing return value");
    reveal_strlit("Undefined function");
    reveal_strlit("Invalid unary operation for type");
    reveal_strlit("Assignment to immutable variable");
    reveal_strlit("Invalid expression");
    reveal_strlit("Generic compile error");
}

/// Every error code has a description, and distinct codes have distinct
/// descriptions.
pub proof fn lemma_descriptions_distinct(a: ErrorCode, b: ErrorCode)
    ensures
        a.spec_description().len() > 0,
        a != b ==> a.spec_description() != b.spec_description(),
{
    lemma_description_keys(a);
    lemma_description_keys(b);
}

} // verus!
