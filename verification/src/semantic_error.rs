//! Semantic analysis errors with their context, and their conversion to
//! compiler errors.
use vstd::prelude::*;
use crate::compiler_error::CompilerError;
use crate::error_codes::ErrorCode;
use crate::location::Location;
use crate::parse_error::{DomainError, ErrorCategory};
use crate::text::{decimal, push_decimal, push_str};

verus! {

/// The ways a function call can be wrong.
#[derive(Debug, Clone)]
pub enum FunctionCallErrorKind {
    /// The function is not defined; similar names are suggested.
    UndefinedFunction { suggestions: Vec<String> },
    /// The call has the wrong number of arguments.
    ArgumentCountMismatch { expected: usize, found: usize },
    /// An argument has the wrong type.
    ArgumentTypeMismatch {
        argument_index: usize,
        expected: String,
        found: String,
        can_convert: bool,
    },
}

/// Semantic analysis errors with their context.
#[derive(Debug, Clone)]
pub enum SemanticError {
    /// A symbol that is not defined; similar names are suggested.
    UndefinedSymbol { name: String, suggestions: Vec<String>, location: Location },
    /// A symbol defined twice.
    SymbolRedefinition {
        name: String,
        kind: String,
        original_location: Location,
        redefinition_location: Location,
    },
    /// A type mismatch.
    TypeMismatch {
        expected: String,
        found: String,
        context: String,
        can_convert: bool,
        location: Location,
    },
    /// An operation that the types of its operands do not allow.
    InvalidOperation {
        operation: String,
        left_type: String,
        right_type: String,
        suggestion: Option<String>,
        location: Location,
    },
    /// A wrong function call.
    FunctionCallError { function_name: String, error_kind: FunctionCallErrorKind, location: Location },
}

/// The result of a semantic operation.
pub type SemanticResult<T> = Result<T, SemanticError>;

/// The texts of `items` separated by `sep`.
pub open spec fn join(items: Seq<Seq<char>>, sep: Seq<char>) -> Seq<char>
    decreases items.len(),
{
    if items.len() == 0 {
        seq![]
    } else if items.len() == 1 {
        items[0]
    } else {
        join(items.drop_last(), sep) + sep + items.last()
    }
}

/// The views of a sequence of strings.
pub open spec fn strings_view(v: Seq<String>) -> Seq<Seq<char>> {
    v.map_values(|s: String| s@)
}

/// `base`, followed by the suggestions when there are any.
pub open spec fn with_suggestions(base: Seq<char>, suggestions: Seq<String>) -> Seq<char> {
    if suggestions.len() == 0 {
        base
    } else {
        base + ". Did you mean: "@ + join(strings_view(suggestions), ", "@) + "?"@
    }
}

/// `base`, followed by a hint at explicit conversion when one is possible.
pub open spec fn with_conversion_hint(base: Seq<char>, can_convert: bool) -> Seq<char> {
    if can_convert {
        base + ". Consider explicit type conversion."@
    } else {
        base
    }
}

/// Appends the texts of `items` separated by `sep` to `s`.
fn push_joined(s: &mut String, items: &Vec<String>, sep: &str)
    ensures
        final(s)@ == old(s)@ + join(strings_view(items@), sep@),
{
    let mut i: usize = 0;
    while i < items.len()
        invariant
            i <= items@.len(),
            s@ == old(s)@ + join(strings_view(items@.take(i as int)), sep@),
        decreases items@.len() - i,
    {
        proof {
            assert(strings_view(items@.take(i + 1)).drop_last() =~= strings_view(items@.take(i as int)));
            assert(strings_view(items@.take(i + 1)).last() == items@[i as int]@);
        }
        if i > 0 {
            push_str(s, sep);
        } else {
            assert(strings_view(items@.take(i as int)) =~= seq![]);
        }
        push_str(s, items[i].as_str());
        i = i + 1;
        assert(s@ =~= old(s)@ + join(strings_view(items@.take(i as int)), sep@));
    }
    assert(items@.take(items@.len() as int) =~= items@);
}

fn push_suggestions(s: &mut String, suggestions: &Vec<String>)
    ensures
        final(s)@ == with_suggestions(old(s)@, suggestions@),
{
    if suggestions.len() > 0 {
        push_str(s, ". Did you mean: ");
        push_joined(s, suggestions, ", ");
        push_str(s, "?");
    }
}

fn push_conversion_hint(s: &mut String, can_convert: bool)
    ensures
        final(s)@ == with_conversion_hint(old(s)@, can_convert),
{
    if can_convert {
        push_str(s, ". Consider explicit type conversion.");
    }
}

impl SemanticError {
    /// The code reported for this error.
    pub open spec fn spec_code(&self) -> ErrorCode {
        match self {
            SemanticError::UndefinedSymbol { .. } => ErrorCode::UndefinedVariable,
            SemanticError::SymbolRedefinition { .. } => ErrorCode::SymbolRedefinition,
            SemanticError::TypeMismatch { .. } => ErrorCode::TypeMismatch,
            SemanticError::InvalidOperation { .. } => ErrorCode::OperationTypeMismatch,
            SemanticError::FunctionCallError { .. } => ErrorCode::UndefinedFunction,
        }
    }

    /// The message reported for this error.
    pub open spec fn spec_message(&self) -> Seq<char> {
        match self {
            SemanticError::UndefinedSymbol { name, suggestions, .. } =>
                with_suggestions("Undefined symbol: "@ + name@, suggestions@),
            SemanticError::SymbolRedefinition { name, kind, .. } =>
                kind@ + " '"@ + name@ + "' is already defined in the current scope"@,
            SemanticError::TypeMismatch { expected, found, context, can_convert, .. } =>
                with_conversion_hint(
                    "Type mismatch: expected "@ + expected@ + ", found "@ + found@
                        + crate::parse_error::context_suffix(context@),
                    *can_convert,
                ),
            SemanticError::InvalidOperation { operation, left_type, right_type, suggestion, .. } => {
                let base = "Invalid operation '"@ + operation@ + "' between "@ + left_type@ + " and "@
                    + right_type@;
                match suggestion {
                    Some(sg) => base + ". "@ + sg@,
                    None => base,
                }
            },
            SemanticError::FunctionCallError { function_name, error_kind, .. } => match error_kind {
                FunctionCallErrorKind::UndefinedFunction { suggestions } =>
                    with_suggestions("Undefined function: "@ + function_name@, suggestions@),
                FunctionCallErrorKind::ArgumentCountMismatch { expected, found } =>
                    "Function '"@ + function_name@ + "' expects "@ + decimal(*expected as nat)
                        + " arguments, but "@ + decimal(*found as nat) + " were provided"@,
                FunctionCallErrorKind::ArgumentTypeMismatch { argument_index, expected, found, can_convert } =>
                    with_conversion_hint(
                        "Argument "@ + decimal((*argument_index + 1) as nat) + " of function '"@
                            + function_name@ + "': expected "@ + expected@ + ", found "@ + found@,
                        *can_convert,
                    ),
            },
        }
    }

    /// The location reported for this error: that of the redefinition for a
    /// redefined symbol.
    pub open spec fn spec_location(&self) -> Location {
        match self {
            SemanticError::UndefinedSymbol { location, .. } => *location,
            SemanticError::SymbolRedefinition { redefinition_location, .. } => *redefinition_location,
            SemanticError::TypeMismatch { location, .. } => *location,
            SemanticError::InvalidOperation { location, .. } => *location,
            SemanticError::FunctionCallError { location, .. } => *location,
        }
    }

    /// The argument index of an argument type mismatch can be counted from 1.
    pub open spec fn wf(&self) -> bool {
        match self {
            SemanticError::FunctionCallError {
                error_kind: FunctionCallErrorKind::ArgumentTypeMismatch { argument_index, .. },
                ..
            } => *argument_index < usize::MAX,
            _ => true,
        }
    }

    /// The short description of this error.
    pub open spec fn spec_short_description(&self) -> Seq<char> {
        match self {
            SemanticError::UndefinedSymbol { name, .. } => "Undefined symbol: "@ + name@,
            SemanticError::SymbolRedefinition { name, .. } => "Symbol redefinition: "@ + name@,
            SemanticError::TypeMismatch { .. } => "Type mismatch"@,
            SemanticError::InvalidOperation { operation, .. } => "Invalid operation: "@ + operation@,
            SemanticError::FunctionCallError { function_name, .. } => "Function call error: "@ + function_name@,
        }
    }

    fn message(&self) -> (s: String)
        requires
            self.wf(),
        ensures
            s@ == self.spec_message(),
    {
        let mut s = String::new();
        match self {
            SemanticError::UndefinedSymbol { name, suggestions, .. } => {
                push_str(&mut s, "Undefined symbol: ");
                push_str(&mut s, name.as_str());
                push_suggestions(&mut s, suggestions);
            },
            SemanticError::SymbolRedefinition { name, kind, .. } => {
                push_str(&mut s, kind.as_str());
                push_str(&mut s, " '");
                push_str(&mut s, name.as_str());
                push_str(&mut s, "' is already defined in the current scope");
            },
            SemanticError::TypeMismatch { expected, found, context, can_convert, .. } => {
                push_str(&mut s, "Type mismatch: expected ");
                push_str(&mut s, expected.as_str());
                push_str(&mut s, ", found ");
                push_str(&mut s, found.as_str());
                push_str(&mut s, " ");
                if context.as_str().unicode_len() > 0 {
                    push_str(&mut s, "(");
                    push_str(&mut s, context.as_str());
                    push_str(&mut s, ")");
                }
                proof {
                    reveal_strlit(" ");
                    reveal_strlit("(");
                    reveal_strlit(")");
                    assert(s@ =~= "Type mismatch: expected "@ + expected@ + ", found "@ + found@
                        + crate::parse_error::context_suffix(context@));
                }
                push_conversion_hint(&mut s, *can_convert);
            },
            SemanticError::InvalidOperation { operation, left_type, right_type, suggestion, .. } => {
                push_str(&mut s, "Invalid operation '");
                push_str(&mut s, operation.as_str());
                push_str(&mut s, "' between ");
                push_str(&mut s, left_type.as_str());
                push_str(&mut s, " and ");
                push_str(&mut s, right_type.as_str());
                match suggestion {
                    Some(sg) => {
                        push_str(&mut s, ". ");
                        push_str(&mut s, sg.as_str());
                    },
                    None => {},
                }
            },
            SemanticError::FunctionCallError { function_name, error_kind, .. } => match error_kind {
                FunctionCallErrorKind::UndefinedFunction { suggestions } => {
                    push_str(&mut s, "Undefined function: ");
                    push_str(&mut s, function_name.as_str());
                    push_suggestions(&mut s, suggestions);
                },
                FunctionCallErrorKind::ArgumentCountMismatch { expected, found } => {
                    push_str(&mut s, "Function '");
                    push_str(&mut s, function_name.as_str());
                    push_str(&mut s, "' expects ");
                    push_decimal(&mut s, *expected);
                    push_str(&mut s, " arguments, but ");
                    push_decimal(&mut s, *found);
                    push_str(&mut s, " were provided");
                },
                FunctionCallErrorKind::ArgumentTypeMismatch { argument_index, expected, found, can_convert } => {
                    push_str(&mut s, "Argument ");
                    push_decimal(&mut s, *argument_index + 1);
                    push_str(&mut s, " of function '");
                    push_str(&mut s, function_name.as_str());
                    push_str(&mut s, "': expected ");
                    push_str(&mut s, expected.as_str());
                    push_str(&mut s, ", found ");
                    push_str(&mut s, found.as_str());
                    push_conversion_hint(&mut s, *can_convert);
                },
            },
        }
        assert(s@ =~= self.spec_message());
        s
    }
}

impl DomainError for SemanticError {
    open spec fn reportable(&self) -> bool {
        self.wf()
    }

    /// The compiler error for this semantic error: its code, its message,
    /// the line, column and position of its location, and length 1.
    fn to_compiler_error(&self) -> (e: CompilerError)
        ensures
            e.error_code == self.spec_code(),
            e.message@ == self.spec_message(),
            e.line == self.spec_location().line,
            e.column == self.spec_location().column,
            e.position == self.spec_location().position,
            e.token_length == Some(1usize),
    {
        let code = match self {
            SemanticError::UndefinedSymbol { .. } => ErrorCode::UndefinedVariable,
            SemanticError::SymbolRedefinition { .. } => ErrorCode::SymbolRedefinition,
            SemanticError::TypeMismatch { .. } => ErrorCode::TypeMismatch,
            SemanticError::InvalidOperation { .. } => ErrorCode::OperationTypeMismatch,
            SemanticError::FunctionCallError { .. } => ErrorCode::UndefinedFunction,
        };
        let message = self.message();
        let loc = self.location();
        CompilerError::new(code, message, loc.line, loc.column, loc.position, Some(1))
    }

    fn location(&self) -> (l: &Location)
        ensures
            *l == self.spec_location(),
    {
        match self {
            SemanticError::UndefinedSymbol { location, .. } => location,
            SemanticError::SymbolRedefinition { redefinition_location, .. } => redefinition_location,
            SemanticError::TypeMismatch { location, .. } => location,
            SemanticError::InvalidOperation { location, .. } => location,
            SemanticError::FunctionCallError { location, .. } => location,
        }
    }

    fn category(&self) -> (c: ErrorCategory)
        ensures
            c == ErrorCategory::Semantic,
    {
        ErrorCategory::Semantic
    }

    fn short_description(&self) -> (s: String)
        ensures
            s@ == self.spec_short_description(),
    {
        let mut s = String::new();
        match self {
            SemanticError::UndefinedSymbol { name, .. } => {
                push_str(&mut s, "Undefined symbol: ");
                push_str(&mut s, name.as_str());
            },
            SemanticError::SymbolRedefinition { name, .. } => {
                push_str(&mut s, "Symbol redefinition: ");
                push_str(&mut s, name.as_str());
            },
            SemanticError::TypeMismatch { .. } => push_str(&mut s, "Type mismatch"),
            SemanticError::InvalidOperation { operation, .. } => {
                push_str(&mut s, "Invalid operation: ");
                push_str(&mut s, operation.as_str());
            },
            SemanticError::FunctionCallError { function_name, .. } => {
                push_str(&mut s, "Function call error: ");
                push_str(&mut s, function_name.as_str());
            },
        }
        assert(s@ =~= self.spec_short_description());
        s
    }
}

} // verus!
