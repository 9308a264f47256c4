//! The type rules of operators: logical operators, comparisons, arithmetic
//! on operands of the same type, negation and `!`.
use vstd::prelude::*;
use crate::analysis_context::AnalysisContext;
use crate::analysis_error::SemanticAnalysisError;
use crate::ast::{PrimitiveType, TypeId};
use crate::location::Location;
use crate::semantic_analyzer::{
    check_comparison, check_logical, check_negation, check_not, check_unary, is_numeric, prim, res_view,
    same_type_arithmetic,
};
use crate::syntax::{BinaryOperator, UnaryExpr, UnaryOperator};
use crate::text::string_from;
use crate::type_rules::{bool_type, logical_operator_type_mismatch_error, operation_type_mismatch_error};
use crate::type_system::{int_literal_of, is_literal_expr, prim_id};

verus! {

/// Whether a type is numeric: an integer or float type, or the type of a
/// literal without suffix.
pub fn is_numeric_type(context: &AnalysisContext, type_id: &TypeId) -> (b: bool)
    ensures
        b == is_numeric(*type_id),
{
    let t = *type_id;
    context.is_integer_type(t) || context.is_float_type(t) || t == prim_id(PrimitiveType::UnspecifiedInt) || t == prim_id(
        PrimitiveType::UnspecifiedFloat,
    )
}

/// Whether a type may be negated: `i32`, `i64`, `f32`, `f64`.
pub fn is_signed_numeric_type(type_id: &TypeId) -> (b: bool)
    ensures
        b == (*type_id == prim(PrimitiveType::I32) || *type_id == prim(PrimitiveType::I64) || *type_id == prim(
            PrimitiveType::F32,
        ) || *type_id == prim(PrimitiveType::F64)),
{
    *type_id == prim_id(PrimitiveType::I32) || *type_id == prim_id(PrimitiveType::I64) || *type_id == prim_id(
        PrimitiveType::F32,
    ) || *type_id == prim_id(PrimitiveType::F64)
}

/// Whether a type is `u32` or `u64`.
pub fn is_unsigned_integer_type(type_id: &TypeId) -> (b: bool)
    ensures
        b == (*type_id == prim(PrimitiveType::U32) || *type_id == prim(PrimitiveType::U64)),
{
    *type_id == prim_id(PrimitiveType::U32) || *type_id == prim_id(PrimitiveType::U64)
}

/// The type of a logical operation: both operands must be boolean.
pub fn check_logical_operation(
    left_type: &TypeId,
    right_type: &TypeId,
    operator: &BinaryOperator,
    location: &Location,
) -> (r: Result<TypeId, SemanticAnalysisError>)
    ensures
        res_view(r) == check_logical(*operator, *left_type, *right_type, *location),
{
    let bool_t = bool_type();
    if *left_type == bool_t && *right_type == bool_t {
        Ok(bool_t)
    } else {
        Err(logical_operator_type_mismatch_error(operator.symbol(), left_type, right_type, location))
    }
}

/// The type of a comparison: ordering needs numeric operands, and the
/// operands must have the same type (not unit), or be a literal without
/// suffix beside a type of its kind.
pub fn check_relational_operation(
    context: &AnalysisContext,
    left_type: &TypeId,
    right_type: &TypeId,
    operator: &BinaryOperator,
    location: &Location,
) -> (r: Result<TypeId, SemanticAnalysisError>)
    ensures
        res_view(r) == check_comparison(*operator, *left_type, *right_type, *location),
{
    let lt = *left_type;
    let rt = *right_type;
    let op = *operator;
    let uint = prim_id(PrimitiveType::UnspecifiedInt);
    let ufloat = prim_id(PrimitiveType::UnspecifiedFloat);
    let ordering = op == BinaryOperator::GreaterThan || op == BinaryOperator::LessThan || op
        == BinaryOperator::GreaterThanOrEqual || op == BinaryOperator::LessThanOrEqual;
    if ordering && (!is_numeric_type(context, &lt) || !is_numeric_type(context, &rt)) {
        Err(operation_type_mismatch_error(op.symbol(), left_type, right_type, location))
    } else if (lt == rt && lt != prim_id(PrimitiveType::Unit)) || (lt == uint && context.is_integer_type(rt)) || (rt
        == uint && context.is_integer_type(lt)) || (lt == ufloat && context.is_float_type(rt)) || (rt == ufloat
        && context.is_float_type(lt)) {
        Ok(bool_type())
    } else {
        Err(operation_type_mismatch_error(op.symbol(), left_type, right_type, location))
    }
}

/// The type of arithmetic on two operands of type `type_id`: not on
/// booleans, unit or functions, and on strings only `+`.
pub fn check_same_type_arithmetic(
    context: &AnalysisContext,
    type_id: &TypeId,
    operator: &BinaryOperator,
    location: &Location,
) -> (r: Result<TypeId, SemanticAnalysisError>)
    ensures
        res_view(r) == same_type_arithmetic(context@, *operator, *type_id, *location),
{
    let t = *type_id;
    if t == prim_id(PrimitiveType::Bool) || t == prim_id(PrimitiveType::Unit) || (*operator != BinaryOperator::Add && t
        == prim_id(PrimitiveType::String)) || context.is_function_type(t) {
        Err(operation_type_mismatch_error(operator.symbol(), type_id, type_id, location))
    } else {
        Ok(t)
    }
}

/// The type of the negation `unary_expr` of an operand of type
/// `operand_type`: a negated literal without suffix keeps its kind;
/// otherwise the operand must be of a signed integer or float type.
pub fn check_negation_operation(
    context: &AnalysisContext,
    unary_expr: &UnaryExpr,
    operand_type: &TypeId,
) -> (r: Result<TypeId, SemanticAnalysisError>)
    ensures
        res_view(r) == check_negation((*unary_expr.right)@, *operand_type, unary_expr.location),
{
    let ot = *operand_type;
    if ot == prim_id(PrimitiveType::UnspecifiedInt) && is_literal_expr(&*unary_expr.right) {
        if int_literal_of(&*unary_expr.right).is_some() {
            Ok(prim_id(PrimitiveType::UnspecifiedInt))
        } else {
            Ok(prim_id(PrimitiveType::UnspecifiedFloat))
        }
    } else if ot == prim_id(PrimitiveType::UnspecifiedFloat) && is_literal_expr(&*unary_expr.right) {
        Ok(prim_id(PrimitiveType::UnspecifiedFloat))
    } else if is_signed_numeric_type(&ot) {
        Ok(ot)
    } else {
        Err(SemanticAnalysisError::InvalidUnaryOperation { operator: string_from("-"), operand_type: ot, location: unary_expr.location })
    }
}

/// The type of `!` on an operand of type `operand_type`: it must be
/// boolean.
pub fn check_logical_not_operation(operand_type: &TypeId, location: &Location) -> (r: Result<TypeId, SemanticAnalysisError>)
    ensures
        res_view(r) == check_not(*operand_type, *location),
{
    if *operand_type == prim_id(PrimitiveType::Bool) {
        Ok(prim_id(PrimitiveType::Bool))
    } else {
        Err(SemanticAnalysisError::InvalidUnaryOperation { operator: string_from("!"), operand_type: *operand_type, location: *location })
    }
}

/// The type of a unary operation on an operand of type `operand_type`.
pub fn check_unary_operation(
    context: &AnalysisContext,
    unary_expr: &UnaryExpr,
    operand_type: &TypeId,
) -> (r: Result<TypeId, SemanticAnalysisError>)
    ensures
        res_view(r) == check_unary(unary_expr.operator, (*unary_expr.right)@, *operand_type, unary_expr.location),
{
    match unary_expr.operator {
        UnaryOperator::Negate => check_negation_operation(context, unary_expr, operand_type),
        UnaryOperator::Not => check_logical_not_operation(operand_type, &unary_expr.location),
    }
}

} // verus!
