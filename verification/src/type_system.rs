//! The type rules of semantic analysis that concern literals without
//! suffix: the kinds of types, the range checks of such literals against a
//! target type, the type a variable declaration settles on, and arithmetic
//! between a literal and an operand of another type.
use vstd::prelude::*;
use crate::analysis_context::{is_float, is_integer, is_unsigned, AnalysisContext};
use crate::analysis_error::SemanticAnalysisError;
use crate::ast::{PrimitiveType, TypeId};
use crate::semantic_analyzer::{
    check_float_literal, check_int_literal, check_mixed_arithmetic, float_literal, float_text, handle_float_assignment,
    handle_int_assignment, int_literal, is_literal, let_type, negated_int_literal, prim, res_view,
};
use crate::syntax::{BinaryExpr, Expression, FloatLiteral, LetStatement, LiteralValue, UnaryOperator};
use crate::text::{push_char, push_decimal_u64, push_signed_decimal, signed_decimal};

verus! {

/// The identifier of a primitive type.
pub(crate) fn prim_id(p: PrimitiveType) -> (t: TypeId)
    ensures
        t == prim(p),
{
    p.type_id()
}

/// The value of an integer literal without suffix, if `e` is one.
pub(crate) fn int_literal_of(e: &Expression) -> (r: Option<i64>)
    ensures
        r == int_literal(e@),
{
    match e {
        Expression::Literal(lit) => match &lit.value {
            LiteralValue::UnspecifiedInteger(n) => Some(*n),
            _ => None,
        },
        _ => None,
    }
}

/// The value of the integer literal without suffix that `e` negates, if
/// `e` is such a negation.
pub(crate) fn negated_int_literal_of(e: &Expression) -> (r: Option<i64>)
    ensures
        r == negated_int_literal(e@),
{
    match e {
        Expression::Unary(u) => if u.operator == UnaryOperator::Negate {
            int_literal_of(&*u.right)
        } else {
            None
        },
        _ => None,
    }
}

/// The float literal without suffix that `e` is, if it is one.
pub(crate) fn float_literal_of(e: &Expression) -> (r: Option<&FloatLiteral>)
    ensures
        match r {
            Some(f) => float_literal(e@) == Some(f@),
            None => float_literal(e@) is None,
        },
{
    match e {
        Expression::Literal(lit) => match &lit.value {
            LiteralValue::UnspecifiedFloat(f) => Some(f),
            _ => None,
        },
        _ => None,
    }
}

/// Whether `e` is a literal.
pub(crate) fn is_literal_expr(e: &Expression) -> (b: bool)
    ensures
        b == is_literal(e@),
{
    match e {
        Expression::Literal(_) => true,
        _ => false,
    }
}

/// The text of a float literal in messages.
pub(crate) fn float_text_of(f: &FloatLiteral) -> (s: String)
    ensures
        s@ == float_text(f@),
{
    match f {
        FloatLiteral::Integer(n) => {
            let mut s = String::new();
            push_signed_decimal(&mut s, *n);
            s
        },
        FloatLiteral::Text(t) => t.clone(),
    }
}

/// The decimal text of `-n`.
pub(crate) fn negated_text(n: i64) -> (s: String)
    ensures
        s@ == signed_decimal(-(n as int)),
{
    let mut s = String::new();
    if n > 0 {
        push_char(&mut s, '-');
        push_decimal_u64(&mut s, n as u64);
        assert(s@ =~= signed_decimal(-(n as int)));
    } else {
        let magnitude: u64 = if n == i64::MIN {
            9223372036854775808u64
        } else {
            (-n) as u64
        };
        push_decimal_u64(&mut s, magnitude);
        assert(s@ =~= signed_decimal(-(n as int)));
    }
    s
}

/// `-` followed by the decimal text of `n`.
fn minus_text(n: i64) -> (s: String)
    ensures
        s@ == seq!['-'] + signed_decimal(n as int),
{
    let mut s = String::new();
    push_char(&mut s, '-');
    push_signed_decimal(&mut s, n);
    assert(s@ =~= seq!['-'] + signed_decimal(n as int));
    s
}

/// Whether a type is one of the integer types `i32`, `i64`, `u32`, `u64`.
pub fn is_integer_type(context: &AnalysisContext, type_id: &TypeId) -> (b: bool)
    ensures
        b == is_integer(*type_id),
{
    context.is_integer_type(*type_id)
}

/// Whether a type is one of the float types `f32`, `f64`.
pub fn is_float_type(context: &AnalysisContext, type_id: &TypeId) -> (b: bool)
    ensures
        b == is_float(*type_id),
{
    context.is_float_type(*type_id)
}

/// Whether a type is one of the unsigned integer types `u32`, `u64`.
pub fn is_unsigned_type(context: &AnalysisContext, type_id: &TypeId) -> (b: bool)
    ensures
        b == is_unsigned(*type_id),
{
    context.is_unsigned_type(*type_id)
}

/// Checks that an integer literal without suffix suits `target_type`: a
/// negated one never suits an unsigned type, and a plain one must lie in
/// its range; any other expression passes.
pub fn check_unspecified_int_for_type(
    context: &AnalysisContext,
    expr: &Expression,
    target_type: &TypeId,
) -> (r: Result<TypeId, SemanticAnalysisError>)
    ensures
        res_view(r) == check_int_literal(expr@, *target_type),
{
    let target = *target_type;
    match negated_int_literal_of(expr) {
        Some(n) => if context.is_unsigned_type(target) {
            return Err(
                SemanticAnalysisError::ValueOutOfRange {
                    value: minus_text(n),
                    target_type: target,
                    is_float: false,
                    location: expr.location(),
                },
            );
        },
        None => {},
    }
    match int_literal_of(expr) {
        Some(n) => if context.check_value_in_range(n, target) {
            Ok(target)
        } else {
            let mut value = String::new();
            push_signed_decimal(&mut value, n);
            assert(value@ =~= signed_decimal(n as int));
            Err(SemanticAnalysisError::ValueOutOfRange { value, target_type: target, is_float: false, location: expr.location() })
        },
        None => Ok(target),
    }
}

/// Checks that a float literal without suffix suits `target_type`; any
/// other expression passes.
pub fn check_unspecified_float_for_type(
    context: &AnalysisContext,
    expr: &Expression,
    target_type: &TypeId,
) -> (r: Result<TypeId, SemanticAnalysisError>)
    ensures
        res_view(r) == check_float_literal(expr@, *target_type),
{
    let target = *target_type;
    match float_literal_of(expr) {
        Some(f) => if context.check_float_value_in_range(f, target) {
            Ok(target)
        } else {
            Err(
                SemanticAnalysisError::ValueOutOfRange {
                    value: float_text_of(f),
                    target_type: target,
                    is_float: true,
                    location: expr.location(),
                },
            )
        },
        None => Ok(target),
    }
}

/// The type a variable declared of an integer type takes from an integer
/// literal without suffix: its declared type, if the literal suits it.
pub fn handle_unspecified_int_assignment(
    context: &AnalysisContext,
    let_stmt: &LetStatement,
    _expr_type: &TypeId,
) -> (r: Result<TypeId, SemanticAnalysisError>)
    ensures
        res_view(r) == handle_int_assignment(let_stmt.name@, let_stmt.expr_type, let_stmt.value@, let_stmt.location),
{
    if context.is_integer_type(let_stmt.expr_type) {
        check_unspecified_int_for_type(context, &let_stmt.value, &let_stmt.expr_type)
    } else {
        Err(
            SemanticAnalysisError::TypeMismatch {
                expected: let_stmt.expr_type,
                actual: prim_id(PrimitiveType::UnspecifiedInt),
                context: Some(let_stmt.name.clone()),
                location: let_stmt.location,
            },
        )
    }
}

/// The type a variable declared of a float type takes from a float literal
/// without suffix: its declared type, if the literal suits it.
pub fn handle_unspecified_float_assignment(
    context: &AnalysisContext,
    let_stmt: &LetStatement,
    _expr_type: &TypeId,
) -> (r: Result<TypeId, SemanticAnalysisError>)
    ensures
        res_view(r) == handle_float_assignment(let_stmt.name@, let_stmt.expr_type, let_stmt.value@, let_stmt.location),
{
    if context.is_float_type(let_stmt.expr_type) {
        check_unspecified_float_for_type(context, &let_stmt.value, &let_stmt.expr_type)
    } else {
        Err(
            SemanticAnalysisError::TypeMismatch {
                expected: let_stmt.expr_type,
                actual: prim_id(PrimitiveType::UnspecifiedFloat),
                context: Some(let_stmt.name.clone()),
                location: let_stmt.location,
            },
        )
    }
}

/// The type a variable declaration settles on, given the type of its
/// initial value.
pub fn determine_let_statement_type(context: &AnalysisContext, let_stmt: &LetStatement, expr_type: TypeId) -> (r: Result<
    TypeId,
    SemanticAnalysisError,
>)
    ensures
        res_view(r) == let_type(context@, let_stmt.name@, let_stmt.expr_type, let_stmt.value@, let_stmt.location, expr_type),
{
    let declared = let_stmt.expr_type;
    if declared == prim_id(PrimitiveType::Unknown) {
        Ok(expr_type)
    } else if declared == expr_type {
        if context.is_unsigned_type(declared) {
            match check_unspecified_int_for_type(context, &let_stmt.value, &declared) {
                Err(x) => Err(x),
                Ok(_) => Ok(declared),
            }
        } else {
            Ok(declared)
        }
    } else if context.is_function_type(declared) && context.is_function_type(expr_type) {
        Err(
            SemanticAnalysisError::TypeMismatch {
                expected: declared,
                actual: expr_type,
                context: Some(let_stmt.name.clone()),
                location: let_stmt.location,
            },
        )
    } else if expr_type == prim_id(PrimitiveType::UnspecifiedInt) {
        handle_unspecified_int_assignment(context, let_stmt, &expr_type)
    } else if expr_type == prim_id(PrimitiveType::UnspecifiedFloat) {
        handle_unspecified_float_assignment(context, let_stmt, &expr_type)
    } else {
        Err(
            SemanticAnalysisError::TypeMismatch {
                expected: declared,
                actual: expr_type,
                context: Some(let_stmt.name.clone()),
                location: let_stmt.location,
            },
        )
    }
}

/// The type of arithmetic on operands of different types: a literal
/// without suffix takes the integer or float type of the other operand, if
/// it suits that type; strings concatenate.
pub fn check_mixed_arithmetic_operation(
    context: &AnalysisContext,
    left_type: &TypeId,
    right_type: &TypeId,
    bin_expr: &BinaryExpr,
) -> (r: Result<TypeId, SemanticAnalysisError>)
    ensures
        res_view(r) == check_mixed_arithmetic(
            bin_expr.operator,
            (*bin_expr.left)@,
            *left_type,
            (*bin_expr.right)@,
            *right_type,
            bin_expr.location,
        ),
{
    let lt = *left_type;
    let rt = *right_type;
    let uint = prim_id(PrimitiveType::UnspecifiedInt);
    let ufloat = prim_id(PrimitiveType::UnspecifiedFloat);
    let string_t = prim_id(PrimitiveType::String);
    if lt == uint && context.is_integer_type(rt) {
        check_unspecified_int_for_type(context, &*bin_expr.left, &rt)
    } else if rt == uint && context.is_integer_type(lt) {
        check_unspecified_int_for_type(context, &*bin_expr.right, &lt)
    } else if lt == ufloat && context.is_float_type(rt) {
        check_unspecified_float_for_type(context, &*bin_expr.left, &rt)
    } else if rt == ufloat && context.is_float_type(lt) {
        check_unspecified_float_for_type(context, &*bin_expr.right, &lt)
    } else if bin_expr.operator == crate::syntax::BinaryOperator::Add && lt == string_t && rt == string_t {
        Ok(string_t)
    } else {
        Err(
            SemanticAnalysisError::OperationTypeMismatch {
                operator: crate::text::string_from(bin_expr.operator.symbol()),
                left_type: lt,
                right_type: rt,
                location: bin_expr.location,
            },
        )
    }
}

} // verus!
