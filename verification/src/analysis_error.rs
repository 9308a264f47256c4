//! Errors found by semantic analysis, their messages, and their
//! conversion to compiler errors.
use vstd::prelude::*;
use crate::ast::{name_of_type_in, SymbolTable, TypeId};
use crate::compiler_error::{chars_len, CompilerError, SpecCompilerError};
use crate::error_codes::ErrorCode;
use crate::location::Location;
use crate::text::{decimal, push_decimal, push_str, string_from};

verus! {

/// Errors found by semantic analysis, with what their messages need.
#[derive(Debug)]
pub enum SemanticAnalysisError {
    /// A variable used but not defined in scope.
    UndefinedVariable { name: String, location: Location },
    /// A variable defined twice in the same scope.
    VariableRedefinition { name: String, location: Location },
    /// A symbol (type, variable, function) defined again.
    SymbolRedefinition { name: String, kind: String, location: Location },
    /// A struct field of a type that fields cannot have.
    InvalidFieldType { struct_name: String, field_name: String, type_id: TypeId, location: Location },
    /// An expression of another type than expected, with the variable it is assigned to, if any.
    TypeMismatch { expected: TypeId, actual: TypeId, context: Option<String>, location: Location },
    /// Operand types that an operator does not accept.
    OperationTypeMismatch { operator: String, left_type: TypeId, right_type: TypeId, location: Location },
    /// A logical operator applied to operands that are not boolean.
    LogicalOperatorTypeMismatch { operator: String, left_type: TypeId, right_type: TypeId, location: Location },
    /// A literal out of the range of its target type.
    ValueOutOfRange { value: String, target_type: TypeId, is_float: bool, location: Location },
    /// A call with the wrong number of arguments.
    ArgumentCountMismatch { function_name: String, expected: usize, actual: usize, location: Location },
    /// A call argument (counted from 1) of the wrong type.
    ArgumentTypeMismatch { function_name: String, argument_position: usize, expected: TypeId, actual: TypeId, location: Location },
    /// A return statement outside of a function.
    ReturnOutsideFunction { location: Location },
    /// A returned value of another type than the function's.
    ReturnTypeMismatch { expected: TypeId, actual: TypeId, location: Location },
    /// A return without value in a function that returns one.
    MissingReturnValue { expected: TypeId, location: Location },
    /// A call of a function that is not defined.
    UndefinedFunction { name: String, location: Location },
    /// A unary operator applied to a type it does not accept.
    InvalidUnaryOperation { operator: String, operand_type: TypeId, location: Location },
    /// An assignment to a variable that is not mutable.
    AssignmentToImmutableVariable { name: String, location: Location },
    /// An expression of an unexpected form, with a description.
    InvalidExpression { message: String, location: Location },
}

/// The mathematical content of a semantic analysis error.
pub enum SpecAnalysisError {
    UndefinedVariable { name: Seq<char>, location: Location },
    VariableRedefinition { name: Seq<char>, location: Location },
    SymbolRedefinition { name: Seq<char>, kind: Seq<char>, location: Location },
    InvalidFieldType { struct_name: Seq<char>, field_name: Seq<char>, type_id: TypeId, location: Location },
    TypeMismatch { expected: TypeId, actual: TypeId, context: Option<Seq<char>>, location: Location },
    OperationTypeMismatch { operator: Seq<char>, left_type: TypeId, right_type: TypeId, location: Location },
    LogicalOperatorTypeMismatch { operator: Seq<char>, left_type: TypeId, right_type: TypeId, location: Location },
    ValueOutOfRange { value: Seq<char>, target_type: TypeId, is_float: bool, location: Location },
    ArgumentCountMismatch { function_name: Seq<char>, expected: usize, actual: usize, location: Location },
    ArgumentTypeMismatch {
        function_name: Seq<char>,
        argument_position: usize,
        expected: TypeId,
        actual: TypeId,
        location: Location,
    },
    ReturnOutsideFunction { location: Location },
    ReturnTypeMismatch { expected: TypeId, actual: TypeId, location: Location },
    MissingReturnValue { expected: TypeId, location: Location },
    UndefinedFunction { name: Seq<char>, location: Location },
    InvalidUnaryOperation { operator: Seq<char>, operand_type: TypeId, location: Location },
    AssignmentToImmutableVariable { name: Seq<char>, location: Location },
    InvalidExpression { message: Seq<char>, location: Location },
}

impl View for SemanticAnalysisError {
    type V = SpecAnalysisError;

    open spec fn view(&self) -> SpecAnalysisError {
        match self {
            SemanticAnalysisError::UndefinedVariable { name, location } => SpecAnalysisError::UndefinedVariable {
                name: name@,
                location: *location,
            },
            SemanticAnalysisError::VariableRedefinition { name, location } => SpecAnalysisError::VariableRedefinition {
                name: name@,
                location: *location,
            },
            SemanticAnalysisError::SymbolRedefinition { name, kind, location } => SpecAnalysisError::SymbolRedefinition {
                name: name@,
                kind: kind@,
                location: *location,
            },
            SemanticAnalysisError::InvalidFieldType { struct_name, field_name, type_id, location } =>
                SpecAnalysisError::InvalidFieldType {
                struct_name: struct_name@,
                field_name: field_name@,
                type_id: *type_id,
                location: *location,
            },
            SemanticAnalysisError::TypeMismatch { expected, actual, context, location } => SpecAnalysisError::TypeMismatch {
                expected: *expected,
                actual: *actual,
                context: match context {
                    Some(c) => Some(c@),
                    None => None,
                },
                location: *location,
            },
            SemanticAnalysisError::OperationTypeMismatch { operator, left_type, right_type, location } =>
                SpecAnalysisError::OperationTypeMismatch {
                operator: operator@,
                left_type: *left_type,
                right_type: *right_type,
                location: *location,
            },
            SemanticAnalysisError::LogicalOperatorTypeMismatch { operator, left_type, right_type, location } =>
                SpecAnalysisError::LogicalOperatorTypeMismatch {
                operator: operator@,
                left_type: *left_type,
                right_type: *right_type,
                location: *location,
            },
            SemanticAnalysisError::ValueOutOfRange { value, target_type, is_float, location } =>
                SpecAnalysisError::ValueOutOfRange {
                value: value@,
                target_type: *target_type,
                is_float: *is_float,
                location: *location,
            },
            SemanticAnalysisError::ArgumentCountMismatch { function_name, expected, actual, location } =>
                SpecAnalysisError::ArgumentCountMismatch {
                function_name: function_name@,
                expected: *expected,
                actual: *actual,
                location: *location,
            },
            SemanticAnalysisError::ArgumentTypeMismatch {
                function_name,
                argument_position,
                expected,
                actual,
                location,
            } => SpecAnalysisError::ArgumentTypeMismatch {
                function_name: function_name@,
                argument_position: *argument_position,
                expected: *expected,
                actual: *actual,
                location: *location,
            },
            SemanticAnalysisError::ReturnOutsideFunction { location } => SpecAnalysisError::ReturnOutsideFunction {
                location: *location,
            },
            SemanticAnalysisError::ReturnTypeMismatch { expected, actual, location } =>
                SpecAnalysisError::ReturnTypeMismatch { expected: *expected, actual: *actual, location: *location },
            SemanticAnalysisError::MissingReturnValue { expected, location } => SpecAnalysisError::MissingReturnValue {
                expected: *expected,
                location: *location,
            },
            SemanticAnalysisError::UndefinedFunction { name, location } => SpecAnalysisError::UndefinedFunction {
                name: name@,
                location: *location,
            },
            SemanticAnalysisError::InvalidUnaryOperation { operator, operand_type, location } =>
                SpecAnalysisError::InvalidUnaryOperation {
                operator: operator@,
                operand_type: *operand_type,
                location: *location,
            },
            SemanticAnalysisError::AssignmentToImmutableVariable { name, location } =>
                SpecAnalysisError::AssignmentToImmutableVariable { name: name@, location: *location },
            SemanticAnalysisError::InvalidExpression { message, location } => SpecAnalysisError::InvalidExpression {
                message: message@,
                location: *location,
            },
        }
    }
}

/// The message of `e`, with the names of types taken from `symbols`.
pub open spec fn analysis_message(e: SpecAnalysisError, symbols: Seq<crate::ast::SpecSymbol>) -> Seq<char> {
    let tn = |t: TypeId| name_of_type_in(symbols, t);
    match e {
        SpecAnalysisError::UndefinedVariable { name, .. } => "Undefined variable: "@ + name,
        SpecAnalysisError::VariableRedefinition { name, .. } => "Variable '"@ + name + "' already defined"@,
        SpecAnalysisError::SymbolRedefinition { name, kind, .. } => "Symbol '"@ + name + "' of kind '"@ + kind
            + "' is already defined or conflicts with an existing symbol."@,
        SpecAnalysisError::InvalidFieldType { struct_name, field_name, type_id, .. } => "Invalid type '"@ + tn(
            type_id,
        ) + "' for field '"@ + field_name + "' in struct '"@ + struct_name
            + "'. Fields cannot be of unknown or unspecified type."@,
        SpecAnalysisError::TypeMismatch { expected, actual, context, .. } => match context {
            Some(ctx) => "Type mismatch: variable "@ + ctx + " is "@ + tn(expected) + " but expression is "@ + tn(actual),
            None => "Type mismatch: expected "@ + tn(expected) + ", got "@ + tn(actual),
        },
        SpecAnalysisError::OperationTypeMismatch { operator, left_type, right_type, .. } =>
            "Type mismatch: cannot apply '"@ + operator + "' operator on "@ + tn(left_type) + " and "@ + tn(right_type),
        SpecAnalysisError::LogicalOperatorTypeMismatch { operator, left_type, right_type, .. } =>
            "Logical operator '"@ + operator + "' requires boolean operands, got "@ + tn(left_type) + " and "@ + tn(
            right_type,
        ),
        SpecAnalysisError::ValueOutOfRange { value, target_type, is_float, .. } => if is_float {
            "Float literal "@ + value + " is out of range for type "@ + tn(target_type)
        } else {
            "Integer literal "@ + value + " is out of range for type "@ + tn(target_type)
        },
        SpecAnalysisError::ArgumentCountMismatch { function_name, expected, actual, .. } => "Function '"@
            + function_name + "' expects "@ + decimal(expected as nat) + " arguments, but got "@ + decimal(
            actual as nat,
        ),
        SpecAnalysisError::ArgumentTypeMismatch { function_name, argument_position, expected, actual, .. } =>
            "Type mismatch: function '"@ + function_name + "' expects argument "@ + decimal(argument_position as nat)
            + " to be "@ + tn(expected) + ", but got "@ + tn(actual),
        SpecAnalysisError::ReturnOutsideFunction { .. } => "Return statement outside of function"@,
        SpecAnalysisError::ReturnTypeMismatch { expected, actual, .. } => "Type mismatch: function returns "@ + tn(
            expected,
        ) + " but got "@ + tn(actual),
        SpecAnalysisError::MissingReturnValue { expected, .. } => "Type mismatch: function returns "@ + tn(expected)
            + " but no return value provided"@,
        SpecAnalysisError::UndefinedFunction { name, .. } => "Undefined function: "@ + name,
        SpecAnalysisError::InvalidUnaryOperation { operator, operand_type, .. } => if operator == "!"@ {
            "Boolean not operator '!' can only be applied to boolean types, but got "@ + tn(operand_type)
        } else if operator == "-"@ {
            if tn(operand_type) == "u32"@ || tn(operand_type) == "u64"@ {
                "Cannot negate unsigned type"@
            } else {
                "Cannot negate non-numeric type '"@ + tn(operand_type) + "'"@
            }
        } else {
            "Cannot apply operator '"@ + operator + "' to type "@ + tn(operand_type)
        },
        SpecAnalysisError::AssignmentToImmutableVariable { name, .. } => "Cannot assign to immutable variable '"@
            + name + "'"@,
        SpecAnalysisError::InvalidExpression { message, .. } => message,
    }
}

/// The location of `e`.
pub open spec fn analysis_location(e: SpecAnalysisError) -> Location {
    match e {
        SpecAnalysisError::UndefinedVariable { location, .. } => location,
        SpecAnalysisError::VariableRedefinition { location, .. } => location,
        SpecAnalysisError::SymbolRedefinition { location, .. } => location,
        SpecAnalysisError::InvalidFieldType { location, .. } => location,
        SpecAnalysisError::TypeMismatch { location, .. } => location,
        SpecAnalysisError::OperationTypeMismatch { location, .. } => location,
        SpecAnalysisError::LogicalOperatorTypeMismatch { location, .. } => location,
        SpecAnalysisError::ValueOutOfRange { location, .. } => location,
        SpecAnalysisError::ArgumentCountMismatch { location, .. } => location,
        SpecAnalysisError::ArgumentTypeMismatch { location, .. } => location,
        SpecAnalysisError::ReturnOutsideFunction { location, .. } => location,
        SpecAnalysisError::ReturnTypeMismatch { location, .. } => location,
        SpecAnalysisError::MissingReturnValue { location, .. } => location,
        SpecAnalysisError::UndefinedFunction { location, .. } => location,
        SpecAnalysisError::InvalidUnaryOperation { location, .. } => location,
        SpecAnalysisError::AssignmentToImmutableVariable { location, .. } => location,
        SpecAnalysisError::InvalidExpression { location, .. } => location,
    }
}

/// The length of the source text that `e` marks: the length of its
/// location when that is not zero, else the length of the name, operator
/// or value the error is about, if it has one.
pub open spec fn analysis_token_length(e: SpecAnalysisError) -> Option<usize> {
    let location = analysis_location(e);
    if location.length > 0 {
        Some(location.length)
    } else {
        match e {
            SpecAnalysisError::UndefinedVariable { name, .. } => Some(name.len() as usize),
            SpecAnalysisError::VariableRedefinition { name, .. } => Some(name.len() as usize),
            SpecAnalysisError::SymbolRedefinition { name, .. } => Some(name.len() as usize),
            SpecAnalysisError::InvalidFieldType { field_name, .. } => Some(field_name.len() as usize),
            SpecAnalysisError::TypeMismatch { context, .. } => match context {
                Some(ctx) => Some(ctx.len() as usize),
                None => None,
            },
            SpecAnalysisError::OperationTypeMismatch { operator, .. } => Some(operator.len() as usize),
            SpecAnalysisError::LogicalOperatorTypeMismatch { operator, .. } => Some(operator.len() as usize),
            SpecAnalysisError::ValueOutOfRange { value, .. } => Some(value.len() as usize),
            SpecAnalysisError::ArgumentCountMismatch { function_name, .. } => Some(function_name.len() as usize),
            SpecAnalysisError::ArgumentTypeMismatch { function_name, .. } => Some(function_name.len() as usize),
            SpecAnalysisError::ReturnOutsideFunction { .. } => Some(6),
            SpecAnalysisError::ReturnTypeMismatch { .. } => None,
            SpecAnalysisError::MissingReturnValue { .. } => Some(6),
            SpecAnalysisError::UndefinedFunction { name, .. } => Some(name.len() as usize),
            SpecAnalysisError::InvalidUnaryOperation { operator, .. } => Some(operator.len() as usize),
            SpecAnalysisError::AssignmentToImmutableVariable { name, .. } => Some(name.len() as usize),
            SpecAnalysisError::InvalidExpression { .. } => None,
        }
    }
}

/// The error code of `e`: the code of the same name.
pub open spec fn analysis_code(e: SpecAnalysisError) -> ErrorCode {
    match e {
        SpecAnalysisError::UndefinedVariable { .. } => ErrorCode::UndefinedVariable,
        SpecAnalysisError::VariableRedefinition { .. } => ErrorCode::VariableRedefinition,
        SpecAnalysisError::SymbolRedefinition { .. } => ErrorCode::SymbolRedefinition,
        SpecAnalysisError::InvalidFieldType { .. } => ErrorCode::InvalidFieldType,
        SpecAnalysisError::TypeMismatch { .. } => ErrorCode::TypeMismatch,
        SpecAnalysisError::OperationTypeMismatch { .. } => ErrorCode::OperationTypeMismatch,
        SpecAnalysisError::LogicalOperatorTypeMismatch { .. } => ErrorCode::LogicalOperatorTypeMismatch,
        SpecAnalysisError::ValueOutOfRange { .. } => ErrorCode::ValueOutOfRange,
        SpecAnalysisError::ArgumentCountMismatch { .. } => ErrorCode::ArgumentCountMismatch,
        SpecAnalysisError::ArgumentTypeMismatch { .. } => ErrorCode::ArgumentTypeMismatch,
        SpecAnalysisError::ReturnOutsideFunction { .. } => ErrorCode::ReturnOutsideFunction,
        SpecAnalysisError::ReturnTypeMismatch { .. } => ErrorCode::ReturnTypeMismatch,
        SpecAnalysisError::MissingReturnValue { .. } => ErrorCode::MissingReturnValue,
        SpecAnalysisError::UndefinedFunction { .. } => ErrorCode::UndefinedFunction,
        SpecAnalysisError::InvalidUnaryOperation { .. } => ErrorCode::InvalidUnaryOperation,
        SpecAnalysisError::AssignmentToImmutableVariable { .. } => ErrorCode::AssignmentToImmutableVariable,
        SpecAnalysisError::InvalidExpression { .. } => ErrorCode::InvalidExpression,
    }
}

/// The compiler error that `e` becomes: its code, message, line, column
/// and offset, and the length of the text it marks.
pub open spec fn analysis_compiler_error(e: SpecAnalysisError, symbols: Seq<crate::ast::SpecSymbol>) -> SpecCompilerError {
    SpecCompilerError {
        error_code: analysis_code(e),
        message: analysis_message(e, symbols),
        line: analysis_location(e).line as int,
        column: analysis_location(e).column as int,
        position: analysis_location(e).position as int,
        token_length: analysis_token_length(e),
    }
}

impl SemanticAnalysisError {
    /// The message of the error, with the names of types taken from `types`.
    pub fn format_message(&self, types: &SymbolTable) -> (s: String)
        ensures
            s@ == analysis_message(self@, types@),
    {
        match self {
            SemanticAnalysisError::UndefinedVariable { name, .. } => {
                let mut s = string_from("Undefined variable: ");
                push_str(&mut s, name.as_str());
                s
            },
            SemanticAnalysisError::VariableRedefinition { name, .. } => {
                let mut s = string_from("Variable '");
                push_str(&mut s, name.as_str());
                push_str(&mut s, "' already defined");
                s
            },
            SemanticAnalysisError::SymbolRedefinition { name, kind, .. } => {
                let mut s = string_from("Symbol '");
                push_str(&mut s, name.as_str());
                push_str(&mut s, "' of kind '");
                push_str(&mut s, kind.as_str());
                push_str(&mut s, "' is already defined or conflicts with an existing symbol.");
                s
            },
            SemanticAnalysisError::InvalidFieldType { struct_name, field_name, type_id, .. } => {
                let mut s = string_from("Invalid type '");
                push_str(&mut s, types.name_of_type(*type_id).as_str());
                push_str(&mut s, "' for field '");
                push_str(&mut s, field_name.as_str());
                push_str(&mut s, "' in struct '");
                push_str(&mut s, struct_name.as_str());
                push_str(&mut s, "'. Fields cannot be of unknown or unspecified type.");
                s
            },
            SemanticAnalysisError::TypeMismatch { expected, actual, context, .. } => match context {
                Some(ctx) => {
                    let mut s = string_from("Type mismatch: variable ");
                    push_str(&mut s, ctx.as_str());
                    push_str(&mut s, " is ");
                    push_str(&mut s, types.name_of_type(*expected).as_str());
                    push_str(&mut s, " but expression is ");
                    push_str(&mut s, types.name_of_type(*actual).as_str());
                    s
                },
                None => {
                    let mut s = string_from("Type mismatch: expected ");
                    push_str(&mut s, types.name_of_type(*expected).as_str());
                    push_str(&mut s, ", got ");
                    push_str(&mut s, types.name_of_type(*actual).as_str());
                    s
                },
            },
            SemanticAnalysisError::OperationTypeMismatch { operator, left_type, right_type, .. } => {
                let mut s = string_from("Type mismatch: cannot apply '");
                push_str(&mut s, operator.as_str());
                push_str(&mut s, "' operator on ");
                push_str(&mut s, types.name_of_type(*left_type).as_str());
                push_str(&mut s, " and ");
                push_str(&mut s, types.name_of_type(*right_type).as_str());
                s
            },
            SemanticAnalysisError::LogicalOperatorTypeMismatch { operator, left_type, right_type, .. } => {
                let mut s = string_from("Logical operator '");
                push_str(&mut s, operator.as_str());
                push_str(&mut s, "' requires boolean operands, got ");
                push_str(&mut s, types.name_of_type(*left_type).as_str());
                push_str(&mut s, " and ");
                push_str(&mut s, types.name_of_type(*right_type).as_str());
                s
            },
            SemanticAnalysisError::ValueOutOfRange { value, target_type, is_float, .. } => {
                let mut s = if *is_float {
                    string_from("Float literal ")
                } else {
                    string_from("Integer literal ")
                };
                push_str(&mut s, value.as_str());
                push_str(&mut s, " is out of range for type ");
                push_str(&mut s, types.name_of_type(*target_type).as_str());
                s
            },
            SemanticAnalysisError::ArgumentCountMismatch { function_name, expected, actual, .. } => {
                let mut s = string_from("Function '");
                push_str(&mut s, function_name.as_str());
                push_str(&mut s, "' expects ");
                push_decimal(&mut s, *expected);
                push_str(&mut s, " arguments, but got ");
                push_decimal(&mut s, *actual);
                s
            },
            SemanticAnalysisError::ArgumentTypeMismatch { function_name, argument_position, expected, actual, .. } => {
                let mut s = string_from("Type mismatch: function '");
                push_str(&mut s, function_name.as_str());
                push_str(&mut s, "' expects argument ");
                push_decimal(&mut s, *argument_position);
                push_str(&mut s, " to be ");
                push_str(&mut s, types.name_of_type(*expected).as_str());
                push_str(&mut s, ", but got ");
                push_str(&mut s, types.name_of_type(*actual).as_str());
                s
            },
            SemanticAnalysisError::ReturnOutsideFunction { .. } => string_from("Return statement outside of function"),
            SemanticAnalysisError::ReturnTypeMismatch { expected, actual, .. } => {
                let mut s = string_from("Type mismatch: function returns ");
                push_str(&mut s, types.name_of_type(*expected).as_str());
                push_str(&mut s, " but got ");
                push_str(&mut s, types.name_of_type(*actual).as_str());
                s
            },
            SemanticAnalysisError::MissingReturnValue { expected, .. } => {
                let mut s = string_from("Type mismatch: function returns ");
                push_str(&mut s, types.name_of_type(*expected).as_str());
                push_str(&mut s, " but no return value provided");
                s
            },
            SemanticAnalysisError::UndefinedFunction { name, .. } => {
                let mut s = string_from("Undefined function: ");
                push_str(&mut s, name.as_str());
                s
            },
            SemanticAnalysisError::InvalidUnaryOperation { operator, operand_type, .. } => {
                let operand = types.name_of_type(*operand_type);
                if crate::text::str_eq(operator.as_str(), "!") {
                    let mut s = string_from("Boolean not operator '!' can only be applied to boolean types, but got ");
                    push_str(&mut s, operand.as_str());
                    s
                } else if crate::text::str_eq(operator.as_str(), "-") {
                    if crate::text::str_eq(operand.as_str(), "u32") || crate::text::str_eq(operand.as_str(), "u64") {
                        string_from("Cannot negate unsigned type")
                    } else {
                        let mut s = string_from("Cannot negate non-numeric type '");
                        push_str(&mut s, operand.as_str());
                        push_str(&mut s, "'");
                        s
                    }
                } else {
                    let mut s = string_from("Cannot apply operator '");
                    push_str(&mut s, operator.as_str());
                    push_str(&mut s, "' to type ");
                    push_str(&mut s, operand.as_str());
                    s
                }
            },
            SemanticAnalysisError::AssignmentToImmutableVariable { name, .. } => {
                let mut s = string_from("Cannot assign to immutable variable '");
                push_str(&mut s, name.as_str());
                push_str(&mut s, "'");
                s
            },
            SemanticAnalysisError::InvalidExpression { message, .. } => message.clone(),
        }
    }

    /// The location of the error.
    pub fn get_location(&self) -> (l: Location)
        ensures
            l == analysis_location(self@),
    {
        match self {
            SemanticAnalysisError::UndefinedVariable { location, .. } => *location,
            SemanticAnalysisError::VariableRedefinition { location, .. } => *location,
            SemanticAnalysisError::SymbolRedefinition { location, .. } => *location,
            SemanticAnalysisError::InvalidFieldType { location, .. } => *location,
            SemanticAnalysisError::TypeMismatch { location, .. } => *location,
            SemanticAnalysisError::OperationTypeMismatch { location, .. } => *location,
            SemanticAnalysisError::LogicalOperatorTypeMismatch { location, .. } => *location,
            SemanticAnalysisError::ValueOutOfRange { location, .. } => *location,
            SemanticAnalysisError::ArgumentCountMismatch { location, .. } => *location,
            SemanticAnalysisError::ArgumentTypeMismatch { location, .. } => *location,
            SemanticAnalysisError::ReturnOutsideFunction { location, .. } => *location,
            SemanticAnalysisError::ReturnTypeMismatch { location, .. } => *location,
            SemanticAnalysisError::MissingReturnValue { location, .. } => *location,
            SemanticAnalysisError::UndefinedFunction { location, .. } => *location,
            SemanticAnalysisError::InvalidUnaryOperation { location, .. } => *location,
            SemanticAnalysisError::AssignmentToImmutableVariable { location, .. } => *location,
            SemanticAnalysisError::InvalidExpression { location, .. } => *location,
        }
    }

    /// The length of the source text the error marks.
    pub fn get_token_length(&self) -> (n: Option<usize>)
        ensures
            n == analysis_token_length(self@),
    {
        let location = self.get_location();
        if location.length > 0 {
            return Some(location.length);
        }
        match self {
            SemanticAnalysisError::UndefinedVariable { name, .. } => Some(chars_len(name)),
            SemanticAnalysisError::VariableRedefinition { name, .. } => Some(chars_len(name)),
            SemanticAnalysisError::SymbolRedefinition { name, .. } => Some(chars_len(name)),
            SemanticAnalysisError::InvalidFieldType { field_name, .. } => Some(chars_len(field_name)),
            SemanticAnalysisError::TypeMismatch { context, .. } => match context {
                Some(ctx) => Some(chars_len(ctx)),
                None => None,
            },
            SemanticAnalysisError::OperationTypeMismatch { operator, .. } => Some(chars_len(operator)),
            SemanticAnalysisError::LogicalOperatorTypeMismatch { operator, .. } => Some(chars_len(operator)),
            SemanticAnalysisError::ValueOutOfRange { value, .. } => Some(chars_len(value)),
            SemanticAnalysisError::ArgumentCountMismatch { function_name, .. } => Some(chars_len(function_name)),
            SemanticAnalysisError::ArgumentTypeMismatch { function_name, .. } => Some(chars_len(function_name)),
            SemanticAnalysisError::ReturnOutsideFunction { .. } => Some(6),
            SemanticAnalysisError::ReturnTypeMismatch { .. } => None,
            SemanticAnalysisError::MissingReturnValue { .. } => Some(6),
            SemanticAnalysisError::UndefinedFunction { name, .. } => Some(chars_len(name)),
            SemanticAnalysisError::InvalidUnaryOperation { operator, .. } => Some(chars_len(operator)),
            SemanticAnalysisError::AssignmentToImmutableVariable { name, .. } => Some(chars_len(name)),
            SemanticAnalysisError::InvalidExpression { .. } => None,
        }
    }

    /// The error code of the error.
    pub fn code(&self) -> (c: ErrorCode)
        ensures
            c == analysis_code(self@),
    {
        match self {
            SemanticAnalysisError::UndefinedVariable { .. } => ErrorCode::UndefinedVariable,
            SemanticAnalysisError::VariableRedefinition { .. } => ErrorCode::VariableRedefinition,
            SemanticAnalysisError::SymbolRedefinition { .. } => ErrorCode::SymbolRedefinition,
            SemanticAnalysisError::InvalidFieldType { .. } => ErrorCode::InvalidFieldType,
            SemanticAnalysisError::TypeMismatch { .. } => ErrorCode::TypeMismatch,
            SemanticAnalysisError::OperationTypeMismatch { .. } => ErrorCode::OperationTypeMismatch,
            SemanticAnalysisError::LogicalOperatorTypeMismatch { .. } => ErrorCode::LogicalOperatorTypeMismatch,
            SemanticAnalysisError::ValueOutOfRange { .. } => ErrorCode::ValueOutOfRange,
            SemanticAnalysisError::ArgumentCountMismatch { .. } => ErrorCode::ArgumentCountMismatch,
            SemanticAnalysisError::ArgumentTypeMismatch { .. } => ErrorCode::ArgumentTypeMismatch,
            SemanticAnalysisError::ReturnOutsideFunction { .. } => ErrorCode::ReturnOutsideFunction,
            SemanticAnalysisError::ReturnTypeMismatch { .. } => ErrorCode::ReturnTypeMismatch,
            SemanticAnalysisError::MissingReturnValue { .. } => ErrorCode::MissingReturnValue,
            SemanticAnalysisError::UndefinedFunction { .. } => ErrorCode::UndefinedFunction,
            SemanticAnalysisError::InvalidUnaryOperation { .. } => ErrorCode::InvalidUnaryOperation,
            SemanticAnalysisError::AssignmentToImmutableVariable { .. } => ErrorCode::AssignmentToImmutableVariable,
            SemanticAnalysisError::InvalidExpression { .. } => ErrorCode::InvalidExpression,
        }
    }

    /// The compiler error that this error becomes: its code, message,
    /// line, column and offset, and the length of the text it marks.
    pub fn to_compiler_error(&self, types: &SymbolTable) -> (c: CompilerError)
        ensures
            c@ == analysis_compiler_error(self@, types@),
    {
        let location = self.get_location();
        CompilerError::new(
            self.code(),
            self.format_message(types),
            location.line,
            location.column,
            location.position,
            self.get_token_length(),
        )
    }
}

} // verus!
