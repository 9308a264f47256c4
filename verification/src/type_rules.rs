//! Rules on types that need nothing but the identities of the primitive
//! types: the type of a literal, the type an unspecified literal settles
//! on, and the errors for mismatched operand types.
use vstd::prelude::*;
use crate::analysis_error::SemanticAnalysisError;
use crate::ast::{PrimitiveType, TypeId};
use crate::location::Location;
use crate::syntax::LiteralValue;
use crate::text::string_from;

verus! {

/// The type of a literal value.
pub open spec fn literal_type(v: LiteralValue) -> TypeId {
    match v {
        LiteralValue::Boolean(_) => PrimitiveType::Bool.spec_type_id(),
        LiteralValue::UnspecifiedInteger(_) => PrimitiveType::UnspecifiedInt.spec_type_id(),
        LiteralValue::UnspecifiedFloat(_) => PrimitiveType::UnspecifiedFloat.spec_type_id(),
        LiteralValue::I32(_) => PrimitiveType::I32.spec_type_id(),
        LiteralValue::I64(_) => PrimitiveType::I64.spec_type_id(),
        LiteralValue::U32(_) => PrimitiveType::U32.spec_type_id(),
        LiteralValue::U64(_) => PrimitiveType::U64.spec_type_id(),
        LiteralValue::F32(_) => PrimitiveType::F32.spec_type_id(),
        LiteralValue::F64(_) => PrimitiveType::F64.spec_type_id(),
        LiteralValue::String(_) => PrimitiveType::String.spec_type_id(),
    }
}

/// The type of an unspecified literal once it settles: `i64` for integers,
/// `f64` for floats; any other type stays as it is.
pub open spec fn finalized(t: TypeId) -> TypeId {
    if t == PrimitiveType::UnspecifiedInt.spec_type_id() {
        PrimitiveType::I64.spec_type_id()
    } else if t == PrimitiveType::UnspecifiedFloat.spec_type_id() {
        PrimitiveType::F64.spec_type_id()
    } else {
        t
    }
}

/// Infers the types of literals.
pub struct TypeInference {}

impl TypeInference {
    /// The type of a literal value.
    pub fn infer_literal_type(&self, literal_value: &LiteralValue) -> (t: TypeId)
        ensures
            t == literal_type(*literal_value),
    {
        match literal_value {
            LiteralValue::Boolean(_) => PrimitiveType::Bool.type_id(),
            LiteralValue::UnspecifiedInteger(_) => PrimitiveType::UnspecifiedInt.type_id(),
            LiteralValue::UnspecifiedFloat(_) => PrimitiveType::UnspecifiedFloat.type_id(),
            LiteralValue::I32(_) => PrimitiveType::I32.type_id(),
            LiteralValue::I64(_) => PrimitiveType::I64.type_id(),
            LiteralValue::U32(_) => PrimitiveType::U32.type_id(),
            LiteralValue::U64(_) => PrimitiveType::U64.type_id(),
            LiteralValue::F32(_) => PrimitiveType::F32.type_id(),
            LiteralValue::F64(_) => PrimitiveType::F64.type_id(),
            LiteralValue::String(_) => PrimitiveType::String.type_id(),
        }
    }

    /// Whether a type is one of the unsigned integer types `u32` and `u64`.
    pub fn is_unsigned_type(&self, type_id: &TypeId) -> (b: bool)
        ensures
            b == (*type_id == PrimitiveType::U32.spec_type_id() || *type_id == PrimitiveType::U64.spec_type_id()),
    {
        *type_id == PrimitiveType::U32.type_id() || *type_id == PrimitiveType::U64.type_id()
    }
}

/// The type an unspecified literal settles on: `i64` for integers, `f64`
/// for floats; any other type stays as it is.
pub fn finalize_inferred_type(type_id: TypeId) -> (t: TypeId)
    ensures
        t == finalized(type_id),
{
    if type_id == PrimitiveType::UnspecifiedInt.type_id() {
        PrimitiveType::I64.type_id()
    } else if type_id == PrimitiveType::UnspecifiedFloat.type_id() {
        PrimitiveType::F64.type_id()
    } else {
        type_id
    }
}

/// The boolean type.
pub fn bool_type() -> (t: TypeId)
    ensures
        t == PrimitiveType::Bool.spec_type_id(),
{
    PrimitiveType::Bool.type_id()
}

/// Whether two types are the same.
pub fn types_are_identical(left_type: &TypeId, right_type: &TypeId) -> (b: bool)
    ensures
        b == (*left_type == *right_type),
{
    *left_type == *right_type
}

/// Whether a type is the boolean type.
pub fn is_boolean_type(type_id: &TypeId) -> (b: bool)
    ensures
        b == (*type_id == PrimitiveType::Bool.spec_type_id()),
{
    *type_id == PrimitiveType::Bool.type_id()
}

/// Whether a type is the unit type.
pub fn is_unit_type(type_id: &TypeId) -> (b: bool)
    ensures
        b == (*type_id == PrimitiveType::Unit.spec_type_id()),
{
    *type_id == PrimitiveType::Unit.type_id()
}

/// Whether a type is the string type.
pub fn is_string_type(type_id: &TypeId) -> (b: bool)
    ensures
        b == (*type_id == PrimitiveType::String.spec_type_id()),
{
    *type_id == PrimitiveType::String.type_id()
}

/// Whether a type is that of integer literals without suffix.
pub fn is_unspecified_integer_type(type_id: &TypeId) -> (b: bool)
    ensures
        b == (*type_id == PrimitiveType::UnspecifiedInt.spec_type_id()),
{
    *type_id == PrimitiveType::UnspecifiedInt.type_id()
}

/// Whether a type is that of float literals without suffix.
pub fn is_unspecified_float_type(type_id: &TypeId) -> (b: bool)
    ensures
        b == (*type_id == PrimitiveType::UnspecifiedFloat.spec_type_id()),
{
    *type_id == PrimitiveType::UnspecifiedFloat.type_id()
}

/// The error for an operator applied to operands of types it does not accept.
pub fn operation_type_mismatch_error(
    operator: &str,
    left_type: &TypeId,
    right_type: &TypeId,
    location: &Location,
) -> (e: SemanticAnalysisError)
    ensures
        e matches SemanticAnalysisError::OperationTypeMismatch { operator: op, left_type: l, right_type: r, location: loc }
            && op@ == operator@ && l == *left_type && r == *right_type && loc == *location,
{
    SemanticAnalysisError::OperationTypeMismatch {
        operator: string_from(operator),
        left_type: *left_type,
        right_type: *right_type,
        location: *location,
    }
}

/// The error for a logical operator applied to operands that are not boolean.
pub fn logical_operator_type_mismatch_error(
    operator: &str,
    left_type: &TypeId,
    right_type: &TypeId,
    location: &Location,
) -> (e: SemanticAnalysisError)
    ensures
        e matches SemanticAnalysisError::LogicalOperatorTypeMismatch {
            operator: op,
            left_type: l,
            right_type: r,
            location: loc,
        } && op@ == operator@ && l == *left_type && r == *right_type && loc == *location,
{
    SemanticAnalysisError::LogicalOperatorTypeMismatch {
        operator: string_from(operator),
        left_type: *left_type,
        right_type: *right_type,
        location: *location,
    }
}

} // verus!
