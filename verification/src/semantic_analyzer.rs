//! Semantic analysis: the types of expressions, the checks of statements
//! against the symbols in scope, and the collection of the errors found in
//! a program, one per message and position.
use vstd::prelude::*;
use crate::analysis_context::{
    float_fits, int_fits, is_float, is_integer, is_unsigned, AnalysisContext, SpecContext, SpecScopedSymbol,
};
use crate::analysis_error::{analysis_compiler_error, SemanticAnalysisError, SpecAnalysisError};
use crate::ast::{PrimitiveType, SymbolKind, TypeId};
use crate::compiler_error::{CompilerError, SpecCompilerError};
use crate::location::Location;
use crate::syntax::{
    exprs_view, fields_view, params_view, stmts_view, AssignmentStatement, BinaryOperator, Expression, LetStatement,
    Parameter, SpecExpr, SpecFloat, SpecLiteral, SpecParameter, SpecStmt, Statement, TypeDefinitionStmt,
    UnaryOperator,
};
use crate::operations::{check_logical_operation, check_relational_operation, check_same_type_arithmetic, check_unary_operation};
use crate::text::str_eq;
use crate::type_rules::finalize_inferred_type;
use crate::type_system::{
    check_mixed_arithmetic_operation, check_unspecified_float_for_type, check_unspecified_int_for_type,
    determine_let_statement_type, float_literal_of, int_literal_of, negated_int_literal_of, negated_text, prim_id,
};
use crate::text::{push_str, signed_decimal, string_from};
use crate::type_rules::finalized;

verus! {

/// The identifier of a primitive type.
pub open spec fn prim(p: PrimitiveType) -> TypeId {
    p.spec_type_id()
}

/// The state analysis is in: the context, and the return type of the
/// function whose body is being analysed, if any.
pub struct AnalysisState {
    pub ctx: SpecContext,
    pub return_type: Option<TypeId>,
}

/// The value of an integer literal without suffix, if `e` is one.
pub open spec fn int_literal(e: SpecExpr) -> Option<i64> {
    match e {
        SpecExpr::Literal { value: SpecLiteral::UnspecifiedInteger(n), .. } => Some(n),
        _ => None,
    }
}

/// The value of a float literal without suffix, if `e` is one.
pub open spec fn float_literal(e: SpecExpr) -> Option<SpecFloat> {
    match e {
        SpecExpr::Literal { value: SpecLiteral::UnspecifiedFloat(f), .. } => Some(f),
        _ => None,
    }
}

/// Whether `e` is a literal.
pub open spec fn is_literal(e: SpecExpr) -> bool {
    e is Literal
}

/// The value of the integer literal without suffix that `e` negates, if
/// `e` is such a negation.
pub open spec fn negated_int_literal(e: SpecExpr) -> Option<i64> {
    match e {
        SpecExpr::Unary { operator: UnaryOperator::Negate, right, .. } => int_literal(*right),
        _ => None,
    }
}

/// The text of a float literal in messages.
pub open spec fn float_text(f: SpecFloat) -> Seq<char> {
    match f {
        SpecFloat::Integer(n) => signed_decimal(n as int),
        SpecFloat::Text(t) => t,
    }
}

/// The location given to errors about a `return` without value, which
/// carries no location of its own.
pub open spec fn no_location() -> Location {
    Location { position: 0, line: 0, column: 0, length: 0 }
}

/// Checking that an integer literal without suffix suits `target`: a
/// negated one never suits an unsigned type, and a plain one must lie in the
/// range of `target`; any other expression passes.
pub open spec fn check_int_literal(e: SpecExpr, target: TypeId) -> Result<TypeId, SpecAnalysisError> {
    if negated_int_literal(e) is Some && is_unsigned(target) {
        Err(
            SpecAnalysisError::ValueOutOfRange {
                value: seq!['-'] + signed_decimal(negated_int_literal(e)->0 as int),
                target_type: target,
                is_float: false,
                location: e.location(),
            },
        )
    } else {
        match int_literal(e) {
            Some(n) => if int_fits(n, target) {
                Ok(target)
            } else {
                Err(
                    SpecAnalysisError::ValueOutOfRange {
                        value: signed_decimal(n as int),
                        target_type: target,
                        is_float: false,
                        location: e.location(),
                    },
                )
            },
            None => Ok(target),
        }
    }
}

/// Checking that a float literal without suffix suits `target`; any other
/// expression passes.
pub open spec fn check_float_literal(e: SpecExpr, target: TypeId) -> Result<TypeId, SpecAnalysisError> {
    match float_literal(e) {
        Some(f) => if float_fits(f, target) {
            Ok(target)
        } else {
            Err(
                SpecAnalysisError::ValueOutOfRange {
                    value: float_text(f),
                    target_type: target,
                    is_float: true,
                    location: e.location(),
                },
            )
        },
        None => Ok(target),
    }
}

/// Whether `op` compares by order: `>`, `<`, `>=`, `<=`.
pub open spec fn is_ordering(op: BinaryOperator) -> bool {
    op == BinaryOperator::GreaterThan || op == BinaryOperator::LessThan || op == BinaryOperator::GreaterThanOrEqual
        || op == BinaryOperator::LessThanOrEqual
}

/// Whether `op` compares: by order, or `==`, `!=`.
pub open spec fn is_comparison(op: BinaryOperator) -> bool {
    is_ordering(op) || op == BinaryOperator::Equal || op == BinaryOperator::NotEqual
}

/// Whether `t` is a numeric type: an integer or float type, or the type of
/// a literal without suffix.
pub open spec fn is_numeric(t: TypeId) -> bool {
    is_integer(t) || is_float(t) || t == prim(PrimitiveType::UnspecifiedInt) || t == prim(
        PrimitiveType::UnspecifiedFloat,
    )
}

/// The type of a logical operation: both operands must be boolean.
pub open spec fn check_logical(op: BinaryOperator, lt: TypeId, rt: TypeId, location: Location) -> Result<TypeId, SpecAnalysisError> {
    if lt == prim(PrimitiveType::Bool) && rt == prim(PrimitiveType::Bool) {
        Ok(prim(PrimitiveType::Bool))
    } else {
        Err(
            SpecAnalysisError::LogicalOperatorTypeMismatch {
                operator: op.spec_symbol(),
                left_type: lt,
                right_type: rt,
                location,
            },
        )
    }
}

/// The type of a comparison: ordering needs numeric operands, and the
/// operands must have the same type (not unit), or be a literal without
/// suffix beside a type of its kind.
pub open spec fn check_comparison(op: BinaryOperator, lt: TypeId, rt: TypeId, location: Location) -> Result<TypeId, SpecAnalysisError> {
    let mismatch = SpecAnalysisError::OperationTypeMismatch {
        operator: op.spec_symbol(),
        left_type: lt,
        right_type: rt,
        location,
    };
    if is_ordering(op) && (!is_numeric(lt) || !is_numeric(rt)) {
        Err(mismatch)
    } else if (lt == rt && lt != prim(PrimitiveType::Unit)) || (lt == prim(PrimitiveType::UnspecifiedInt) && is_integer(rt))
        || (rt == prim(PrimitiveType::UnspecifiedInt) && is_integer(lt)) || (lt == prim(PrimitiveType::UnspecifiedFloat)
        && is_float(rt)) || (rt == prim(PrimitiveType::UnspecifiedFloat) && is_float(lt)) {
        Ok(prim(PrimitiveType::Bool))
    } else {
        Err(mismatch)
    }
}

/// The type of arithmetic on two operands of type `t`: not on booleans,
/// unit or functions, and on strings only `+`.
pub open spec fn same_type_arithmetic(ctx: SpecContext, op: BinaryOperator, t: TypeId, location: Location) -> Result<TypeId, SpecAnalysisError> {
    if t == prim(PrimitiveType::Bool) || t == prim(PrimitiveType::Unit) || (op != BinaryOperator::Add && t == prim(
        PrimitiveType::String,
    )) || ctx.is_function_type(t) {
        Err(SpecAnalysisError::OperationTypeMismatch { operator: op.spec_symbol(), left_type: t, right_type: t, location })
    } else {
        Ok(t)
    }
}

/// The type of arithmetic on operands of different types: a literal
/// without suffix takes the integer or float type of the other operand, if
/// it suits that type.
pub open spec fn check_mixed_arithmetic(
    op: BinaryOperator,
    left: SpecExpr,
    lt: TypeId,
    right: SpecExpr,
    rt: TypeId,
    location: Location,
) -> Result<TypeId, SpecAnalysisError> {
    if lt == prim(PrimitiveType::UnspecifiedInt) && is_integer(rt) {
        check_int_literal(left, rt)
    } else if rt == prim(PrimitiveType::UnspecifiedInt) && is_integer(lt) {
        check_int_literal(right, lt)
    } else if lt == prim(PrimitiveType::UnspecifiedFloat) && is_float(rt) {
        check_float_literal(left, rt)
    } else if rt == prim(PrimitiveType::UnspecifiedFloat) && is_float(lt) {
        check_float_literal(right, lt)
    } else if op == BinaryOperator::Add && lt == prim(PrimitiveType::String) && rt == prim(PrimitiveType::String) {
        Ok(prim(PrimitiveType::String))
    } else {
        Err(SpecAnalysisError::OperationTypeMismatch { operator: op.spec_symbol(), left_type: lt, right_type: rt, location })
    }
}

/// The type of a binary operation on operands of types `lt` and `rt`.
pub open spec fn check_binary(
    ctx: SpecContext,
    op: BinaryOperator,
    left: SpecExpr,
    lt: TypeId,
    right: SpecExpr,
    rt: TypeId,
    location: Location,
) -> Result<TypeId, SpecAnalysisError> {
    if op == BinaryOperator::And || op == BinaryOperator::Or {
        check_logical(op, lt, rt, location)
    } else if is_comparison(op) {
        check_comparison(op, lt, rt, location)
    } else if lt == rt {
        same_type_arithmetic(ctx, op, lt, location)
    } else {
        check_mixed_arithmetic(op, left, lt, right, rt, location)
    }
}

/// The type of a negation of an operand of type `ot`: a negated literal
/// without suffix keeps its kind; otherwise the operand must be of a signed
/// integer or float type.
pub open spec fn check_negation(right: SpecExpr, ot: TypeId, location: Location) -> Result<TypeId, SpecAnalysisError> {
    if ot == prim(PrimitiveType::UnspecifiedInt) && is_literal(right) {
        if int_literal(right) is Some {
            Ok(prim(PrimitiveType::UnspecifiedInt))
        } else {
            Ok(prim(PrimitiveType::UnspecifiedFloat))
        }
    } else if ot == prim(PrimitiveType::UnspecifiedFloat) && is_literal(right) {
        Ok(prim(PrimitiveType::UnspecifiedFloat))
    } else if ot == prim(PrimitiveType::I32) || ot == prim(PrimitiveType::I64) || ot == prim(PrimitiveType::F32) || ot
        == prim(PrimitiveType::F64) {
        Ok(ot)
    } else {
        Err(SpecAnalysisError::InvalidUnaryOperation { operator: "-"@, operand_type: ot, location })
    }
}

/// The type of `!` on an operand of type `ot`: it must be boolean.
pub open spec fn check_not(ot: TypeId, location: Location) -> Result<TypeId, SpecAnalysisError> {
    if ot == prim(PrimitiveType::Bool) {
        Ok(prim(PrimitiveType::Bool))
    } else {
        Err(SpecAnalysisError::InvalidUnaryOperation { operator: "!"@, operand_type: ot, location })
    }
}

/// The type of a unary operation on an operand of type `ot`.
pub open spec fn check_unary(op: UnaryOperator, right: SpecExpr, ot: TypeId, location: Location) -> Result<TypeId, SpecAnalysisError> {
    match op {
        UnaryOperator::Negate => check_negation(right, ot, location),
        UnaryOperator::Not => check_not(ot, location),
    }
}

/// The type of a conditional expression whose condition, branches have
/// types `ct`, `tt`, `et`: the condition must be boolean, and the branches
/// of the same type unless one is `unknown`.
pub open spec fn check_conditional(
    condition: SpecExpr,
    ct: TypeId,
    tt: TypeId,
    et: TypeId,
    location: Location,
) -> Result<TypeId, SpecAnalysisError> {
    if tt == prim(PrimitiveType::Unknown) {
        Ok(et)
    } else if et == prim(PrimitiveType::Unknown) || tt == et {
        Ok(tt)
    } else {
        Err(
            SpecAnalysisError::TypeMismatch {
                expected: tt,
                actual: et,
                context: Some("conditional expression branches must have the same type"@),
                location,
            },
        )
    }
}

/// The parameter and return types of the function a call by `name`
/// reaches: a function, or a variable of function type, found in scope.
pub open spec fn called_function(ctx: SpecContext, name: Seq<char>) -> Option<(Seq<TypeId>, TypeId)> {
    match ctx.lookup(name) {
        Some(s) => if s.kind == SymbolKind::Function || s.kind == SymbolKind::Variable {
            ctx.function_type(s.type_id)
        } else {
            None
        },
        None => None,
    }
}

/// The type of an expression in a context; the first error found, in the
/// order in which operands are analysed, otherwise.
pub open spec fn check_expr(ctx: SpecContext, e: SpecExpr) -> Result<TypeId, SpecAnalysisError>
    decreases e, 0nat,
{
    match e {
        SpecExpr::Literal { expr_type, .. } => Ok(expr_type),
        SpecExpr::Variable { name, location } => match ctx.lookup(name) {
            Some(s) => if s.kind == SymbolKind::Variable || s.kind == SymbolKind::Function {
                Ok(s.type_id)
            } else {
                Err(SpecAnalysisError::UndefinedVariable { name, location })
            },
            None => Err(SpecAnalysisError::UndefinedVariable { name, location }),
        },
        SpecExpr::Binary { left, operator, right, location, .. } => match check_expr(ctx, *left) {
            Err(x) => Err(x),
            Ok(lt) => match check_expr(ctx, *right) {
                Err(x) => Err(x),
                Ok(rt) => check_binary(ctx, operator, *left, lt, *right, rt, location),
            },
        },
        SpecExpr::Unary { operator, right, location, .. } => match check_expr(ctx, *right) {
            Err(x) => Err(x),
            Ok(ot) => check_unary(operator, *right, ot, location),
        },
        SpecExpr::Call { name, arguments, location, .. } => match called_function(ctx, name) {
            Some(ft) => if ft.0.len() != arguments.len() {
                Err(
                    SpecAnalysisError::ArgumentCountMismatch {
                        function_name: name,
                        expected: ft.0.len() as usize,
                        actual: arguments.len() as usize,
                        location,
                    },
                )
            } else {
                match check_args(ctx, name, ft.0, arguments, 0) {
                    Err(x) => Err(x),
                    Ok(_) => Ok(ft.1),
                }
            },
            None => Err(SpecAnalysisError::UndefinedFunction { name, location }),
        },
        SpecExpr::Conditional { condition, then_branch, else_branch, location, .. } => match check_expr(
            ctx,
            *condition,
        ) {
            Err(x) => Err(x),
            Ok(ct) => if ct != prim(PrimitiveType::Bool) {
                Err(
                    SpecAnalysisError::TypeMismatch {
                        expected: prim(PrimitiveType::Bool),
                        actual: ct,
                        context: Some("if condition"@),
                        location: condition.location(),
                    },
                )
            } else {
                match check_expr(ctx, *then_branch) {
                    Err(x) => Err(x),
                    Ok(tt) => match check_expr(ctx, *else_branch) {
                        Err(x) => Err(x),
                        Ok(et) => check_conditional(*condition, ct, tt, et, location),
                    },
                }
            },
        },
    }
}

/// Whether an argument of type `at` may be passed for a parameter of type
/// `p`: any argument for an `unknown` parameter, an argument of the same
/// type, or a literal without suffix that suits the parameter type.
pub open spec fn argument_accepted(arg: SpecExpr, at: TypeId, p: TypeId) -> bool {
    ||| p == prim(PrimitiveType::Unknown)
    ||| at == p
    ||| at == prim(PrimitiveType::UnspecifiedInt) && check_int_literal(arg, p) is Ok
    ||| at == prim(PrimitiveType::UnspecifiedFloat) && check_float_literal(arg, p) is Ok
}

/// Checking the arguments of a call from the `i`-th on, in order, against
/// the parameter types.
pub open spec fn check_args(
    ctx: SpecContext,
    fname: Seq<char>,
    params: Seq<TypeId>,
    args: Seq<SpecExpr>,
    i: int,
) -> Result<(), SpecAnalysisError>
    decreases args, args.len() - i,
{
    if i < 0 || i >= args.len() {
        Ok(())
    } else {
        match check_expr(ctx, args[i]) {
            Err(x) => Err(x),
            Ok(at) => if argument_accepted(args[i], at, params[i]) {
                check_args(ctx, fname, params, args, i + 1)
            } else {
                Err(
                    SpecAnalysisError::ArgumentTypeMismatch {
                        function_name: fname,
                        argument_position: (i + 1) as usize,
                        expected: params[i],
                        actual: at,
                        location: args[i].location(),
                    },
                )
            },
        }
    }
}

/// A literal without suffix given for a variable declared of type
/// `declared`: an integer literal needs an integer type, and must suit it.
pub open spec fn handle_int_assignment(name: Seq<char>, declared: TypeId, value: SpecExpr, location: Location) -> Result<TypeId, SpecAnalysisError> {
    if is_integer(declared) {
        check_int_literal(value, declared)
    } else {
        Err(
            SpecAnalysisError::TypeMismatch {
                expected: declared,
                actual: prim(PrimitiveType::UnspecifiedInt),
                context: Some(name),
                location,
            },
        )
    }
}

/// A float literal without suffix given for a variable declared of type
/// `declared`: it needs a float type, and must suit it.
pub open spec fn handle_float_assignment(name: Seq<char>, declared: TypeId, value: SpecExpr, location: Location) -> Result<TypeId, SpecAnalysisError> {
    if is_float(declared) {
        check_float_literal(value, declared)
    } else {
        Err(
            SpecAnalysisError::TypeMismatch {
                expected: declared,
                actual: prim(PrimitiveType::UnspecifiedFloat),
                context: Some(name),
                location,
            },
        )
    }
}

/// The declared type of a variable settled against the type `et` of its
/// initial value: an undeclared variable takes `et`; a declared one keeps
/// its type when `et` is the same, or when the value is a literal without
/// suffix that suits it; any other difference is a mismatch.
pub open spec fn let_type(
    ctx: SpecContext,
    name: Seq<char>,
    declared: TypeId,
    value: SpecExpr,
    location: Location,
    et: TypeId,
) -> Result<TypeId, SpecAnalysisError> {
    if declared == prim(PrimitiveType::Unknown) {
        Ok(et)
    } else if declared == et {
        if is_unsigned(declared) {
            match check_int_literal(value, declared) {
                Err(x) => Err(x),
                Ok(_) => Ok(declared),
            }
        } else {
            Ok(declared)
        }
    } else if ctx.is_function_type(declared) && ctx.is_function_type(et) {
        Err(SpecAnalysisError::TypeMismatch { expected: declared, actual: et, context: Some(name), location })
    } else if et == prim(PrimitiveType::UnspecifiedInt) {
        handle_int_assignment(name, declared, value, location)
    } else if et == prim(PrimitiveType::UnspecifiedFloat) {
        handle_float_assignment(name, declared, value, location)
    } else {
        Err(SpecAnalysisError::TypeMismatch { expected: declared, actual: et, context: Some(name), location })
    }
}

/// The type of a returned expression in a function returning `t`.
pub open spec fn check_return(ctx: SpecContext, e: SpecExpr, t: TypeId) -> Result<TypeId, SpecAnalysisError> {
    match check_expr(ctx, e) {
        Err(x) => Err(x),
        Ok(at) => if at == t {
            Ok(at)
        } else if at == prim(PrimitiveType::UnspecifiedInt) && int_literal(e) is Some && int_fits(int_literal(e)->0, t) {
            Ok(t)
        } else if at == prim(PrimitiveType::UnspecifiedFloat) && float_literal(e) is Some && float_fits(
            float_literal(e)->0,
            t,
        ) {
            Ok(t)
        } else {
            Err(SpecAnalysisError::ReturnTypeMismatch { expected: t, actual: at, location: e.location() })
        },
    }
}

/// Whether a struct field may not have type `t`: `unknown`, or the type of
/// a literal without suffix.
pub open spec fn invalid_field_type(t: TypeId) -> bool {
    t == prim(PrimitiveType::Unknown) || t == prim(PrimitiveType::UnspecifiedInt) || t == prim(
        PrimitiveType::UnspecifiedFloat,
    )
}

/// The index of the first field, from the `i`-th on, of a type it may not
/// have.
pub open spec fn first_invalid_field(fields: Seq<(Seq<char>, TypeId)>, i: int) -> Option<int>
    decreases fields.len() - i,
{
    if i < 0 || i >= fields.len() {
        None
    } else if invalid_field_type(fields[i].1) {
        Some(i)
    } else {
        first_invalid_field(fields, i + 1)
    }
}

/// Defining the parameters from the `i`-th on as mutable variables, in
/// order: the context after, and the name of the parameter whose
/// definition was refused, if one was.
pub open spec fn define_params(c: SpecContext, ps: Seq<SpecParameter>, i: int) -> (SpecContext, Option<Seq<char>>)
    decreases ps.len() - i,
{
    if i < 0 || i >= ps.len() {
        (c, None)
    } else {
        match c.define(
            SpecScopedSymbol { name: ps[i].name, kind: SymbolKind::Variable, type_id: ps[i].param_type, is_mutable: true },
        ) {
            None => (c, Some(ps[i].name)),
            Some(c2) => define_params(c2, ps, i + 1),
        }
    }
}

/// The parameter types of a list of parameters.
pub open spec fn param_types(ps: Seq<SpecParameter>) -> Seq<TypeId> {
    ps.map_values(|p: SpecParameter| p.param_type)
}

/// The state with another context.
pub open spec fn with_ctx(st: AnalysisState, ctx: SpecContext) -> AnalysisState {
    AnalysisState { ctx, return_type: st.return_type }
}

/// Analysing a block: in a new scope, the statements in order up to the
/// first error; the scope is closed only when there is none, and the block
/// then has the unit type.
pub open spec fn check_block(st: AnalysisState, ss: Seq<SpecStmt>) -> (AnalysisState, Result<TypeId, SpecAnalysisError>)
    decreases ss, ss.len() + 1,
{
    let (st2, r) = check_stmts(with_ctx(st, st.ctx.begun()), ss, 0);
    match r {
        Err(x) => (st2, Err(x)),
        Ok(_) => (with_ctx(st2, st2.ctx.ended()), Ok(prim(PrimitiveType::Unit))),
    }
}

/// Analysing the statements from the `i`-th on, in order, up to the first
/// error.
pub open spec fn check_stmts(st: AnalysisState, ss: Seq<SpecStmt>, i: int) -> (AnalysisState, Result<(), SpecAnalysisError>)
    decreases ss, ss.len() - i,
{
    if i < 0 || i >= ss.len() {
        (st, Ok(()))
    } else {
        let (st1, r) = check_stmt(st, ss[i]);
        match r {
            Err(x) => (st1, Err(x)),
            Ok(_) => check_stmts(st1, ss, i + 1),
        }
    }
}

/// Analysing a `let` statement.
pub open spec fn check_let(
    st: AnalysisState,
    name: Seq<char>,
    is_mutable: bool,
    value: SpecExpr,
    declared: TypeId,
    location: Location,
) -> (AnalysisState, Result<TypeId, SpecAnalysisError>) {
    if negated_int_literal(value) is Some && is_unsigned(declared) {
        (
            st,
            Err(
                SpecAnalysisError::ValueOutOfRange {
                    value: signed_decimal(-(negated_int_literal(value)->0 as int)),
                    target_type: declared,
                    is_float: false,
                    location,
                },
            ),
        )
    } else if st.ctx.lookup(name) is Some && st.ctx.lookup(name)->0.kind == SymbolKind::Type {
        (st, Err(SpecAnalysisError::SymbolRedefinition { name, kind: "variable (conflicts with type)"@, location }))
    } else if st.ctx.lookup(name) is Some && st.ctx.lookup(name)->0.kind == SymbolKind::Function {
        (st, Err(SpecAnalysisError::SymbolRedefinition { name, kind: "variable (conflicts with function)"@, location }))
    } else {
        match check_expr(st.ctx, value) {
            Err(x) => (st, Err(x)),
            Ok(et) => match let_type(st.ctx, name, declared, value, location, et) {
                Err(x) => (st, Err(x)),
                Ok(t) => match st.ctx.define(
                    SpecScopedSymbol { name, kind: SymbolKind::Variable, type_id: finalized(t), is_mutable },
                ) {
                    None => (st, Err(SpecAnalysisError::VariableRedefinition { name, location })),
                    Some(c) => (with_ctx(st, c), Ok(finalized(t))),
                },
            },
        }
    }
}

/// Analysing an assignment.
pub open spec fn check_assignment(ctx: SpecContext, name: Seq<char>, value: SpecExpr, location: Location) -> Result<TypeId, SpecAnalysisError> {
    match ctx.lookup(name) {
        Some(s) => if s.kind != SymbolKind::Variable {
            Err(SpecAnalysisError::UndefinedVariable { name, location })
        } else if !s.is_mutable {
            Err(SpecAnalysisError::AssignmentToImmutableVariable { name, location })
        } else {
            match check_expr(ctx, value) {
                Err(x) => Err(x),
                Ok(et) => if s.type_id == et || et == prim(PrimitiveType::UnspecifiedInt) || et == prim(
                    PrimitiveType::UnspecifiedFloat,
                ) {
                    Ok(s.type_id)
                } else {
                    Err(
                        SpecAnalysisError::TypeMismatch {
                            expected: s.type_id,
                            actual: et,
                            context: Some("assignment to variable '"@ + name + "'"@),
                            location,
                        },
                    )
                },
            }
        },
        None => Err(SpecAnalysisError::UndefinedVariable { name, location }),
    }
}

/// Analysing a struct type definition.
pub open spec fn check_type_definition(
    st: AnalysisState,
    name: Seq<char>,
    fields: Seq<(Seq<char>, TypeId)>,
    location: Location,
) -> (AnalysisState, Result<TypeId, SpecAnalysisError>) {
    let redefinition = SpecAnalysisError::SymbolRedefinition { name, kind: "type"@, location };
    if st.ctx.lookup(name) is Some {
        (st, Err(redefinition))
    } else {
        match first_invalid_field(fields, 0) {
            Some(k) => (
                st,
                Err(
                    SpecAnalysisError::InvalidFieldType {
                        struct_name: name,
                        field_name: fields[k].0,
                        type_id: fields[k].1,
                        location,
                    },
                ),
            ),
            None => match st.ctx.with_struct_type(name, fields) {
                None => (st, Err(redefinition)),
                Some((c, t)) => (with_ctx(st, c), Ok(t)),
            },
        }
    }
}

/// Analysing a `return` statement.
pub open spec fn check_return_statement(st: AnalysisState, value: Option<SpecExpr>) -> Result<TypeId, SpecAnalysisError> {
    match st.return_type {
        None => Err(
            SpecAnalysisError::ReturnOutsideFunction {
                location: match value {
                    Some(e) => e.location(),
                    None => no_location(),
                },
            },
        ),
        Some(t) => match value {
            Some(e) => check_return(st.ctx, e, t),
            None => if t != prim(PrimitiveType::Unknown) && t != prim(PrimitiveType::Unit) {
                Err(SpecAnalysisError::MissingReturnValue { expected: t, location: no_location() })
            } else {
                Ok(prim(PrimitiveType::Unit))
            },
        },
    }
}

/// Analysing a statement: the state after it, and its type or the first
/// error found in it.
pub open spec fn check_stmt(st: AnalysisState, s: SpecStmt) -> (AnalysisState, Result<TypeId, SpecAnalysisError>)
    decreases s, 0nat,
{
    match s {
        SpecStmt::Let { name, is_mutable, value, expr_type, location } => check_let(
            st,
            name,
            is_mutable,
            value,
            expr_type,
            location,
        ),
        SpecStmt::Assignment { name, value, location } => (st, check_assignment(st.ctx, name, value, location)),
        SpecStmt::Expression(e) => (st, check_expr(st.ctx, e)),
        SpecStmt::TypeDefinition { name, fields, location } => check_type_definition(st, name, fields, location),
        SpecStmt::FunctionDeclaration { name, parameters, return_type, body, location } => {
            let (c1, fid) = st.ctx.with_function_type(param_types(parameters), return_type);
            match c1.define(SpecScopedSymbol { name, kind: SymbolKind::Function, type_id: fid, is_mutable: false }) {
                None => (
                    with_ctx(st, c1),
                    Err(SpecAnalysisError::SymbolRedefinition { name, kind: "function"@, location }),
                ),
                Some(c2) => {
                    let (c3, refused) = define_params(c2.begun(), parameters, 0);
                    match refused {
                        Some(pname) => (
                            AnalysisState { ctx: c3, return_type: Some(return_type) },
                            Err(SpecAnalysisError::SymbolRedefinition { name: pname, kind: "parameter"@, location }),
                        ),
                        None => {
                            let (st4, r) = check_block(AnalysisState { ctx: c3, return_type: Some(return_type) }, body);
                            (
                                AnalysisState { ctx: st4.ctx.ended(), return_type: st.return_type },
                                match r {
                                    Err(x) => Err(x),
                                    Ok(_) => Ok(return_type),
                                },
                            )
                        },
                    }
                },
            }
        },
        SpecStmt::Block(ss) => check_block(st, ss),
        SpecStmt::Return(value) => (st, check_return_statement(st, value)),
        SpecStmt::If { condition, then_branch, else_branch, .. } => match check_expr(st.ctx, condition) {
            Err(x) => (st, Err(x)),
            Ok(ct) => if ct != prim(PrimitiveType::Bool) {
                (
                    st,
                    Err(
                        SpecAnalysisError::TypeMismatch {
                            expected: prim(PrimitiveType::Bool),
                            actual: ct,
                            context: Some("if condition"@),
                            location: condition.location(),
                        },
                    ),
                )
            } else {
                let (st1, r1) = check_block(st, then_branch);
                match r1 {
                    Err(x) => (st1, Err(x)),
                    Ok(_) => match else_branch {
                        None => (st1, Ok(prim(PrimitiveType::Unit))),
                        Some(eb) => {
                            let (st2, r2) = check_block(st1, eb);
                            match r2 {
                                Err(x) => (st2, Err(x)),
                                Ok(_) => (st2, Ok(prim(PrimitiveType::Unit))),
                            }
                        },
                    },
                }
            },
        },
    }
}

/// `errors` with `e` added at the end, unless an error with the same
/// message, line and column is already among them.
pub open spec fn add_unique(errors: Seq<SpecCompilerError>, e: SpecCompilerError) -> Seq<SpecCompilerError> {
    if exists|k: int|
        0 <= k < errors.len() && (#[trigger] errors[k]).message == e.message && errors[k].line == e.line
            && errors[k].column == e.column {
        errors
    } else {
        errors.push(e)
    }
}

/// Analysing the top-level statements from the `i`-th on: each statement
/// in order, whatever came before; the error a statement ends with, turned
/// into a compiler error with the type names of the moment, joins the
/// collected errors unless one with its message, line and column is there.
pub open spec fn analyze_from(
    st: AnalysisState,
    ss: Seq<SpecStmt>,
    i: int,
    errors: Seq<SpecCompilerError>,
) -> (AnalysisState, Seq<SpecCompilerError>)
    decreases ss.len() - i,
{
    if i < 0 || i >= ss.len() {
        (st, errors)
    } else {
        let (st1, r) = check_stmt(st, ss[i]);
        let errors1 = match r {
            Err(x) => add_unique(errors, analysis_compiler_error(x, st1.ctx.type_names)),
            Ok(_) => errors,
        };
        analyze_from(st1, ss, i + 1, errors1)
    }
}

/// The context with the native functions defined: `print_value`, which
/// takes a value of any type and returns an `i32`.
pub open spec fn with_native_functions(c: SpecContext) -> SpecContext {
    let (c1, fid) = c.with_function_type(seq![prim(PrimitiveType::Unknown)], prim(PrimitiveType::I32));
    match c1.define(SpecScopedSymbol { name: "print_value"@, kind: SymbolKind::Function, type_id: fid, is_mutable: false }) {
        Some(c2) => c2,
        None => c1,
    }
}

/// The mathematical content of the outcome of analysing an expression or
/// a statement.
pub open spec fn res_view(r: Result<TypeId, SemanticAnalysisError>) -> Result<TypeId, SpecAnalysisError> {
    match r {
        Ok(t) => Ok(t),
        Err(e) => Err(e@),
    }
}

/// The views of a list of expressions are those of its elements.
proof fn lemma_exprs_view(es: Seq<Expression>)
    ensures
        exprs_view(es).len() == es.len(),
        forall|i: int| 0 <= i < es.len() ==> exprs_view(es)[i] == #[trigger] es[i]@,
    decreases es.len(),
{
    if es.len() > 0 {
        let pre = es.subrange(0, es.len() - 1);
        lemma_exprs_view(pre);
        assert forall|i: int| 0 <= i < es.len() implies exprs_view(es)[i] == #[trigger] es[i]@ by {
            if i < es.len() - 1 {
                assert(pre[i] == es[i]);
            }
        }
    }
}

/// The views of a list of statements are those of its elements.
proof fn lemma_stmts_view(ss: Seq<Statement>)
    ensures
        stmts_view(ss).len() == ss.len(),
        forall|i: int| 0 <= i < ss.len() ==> stmts_view(ss)[i] == #[trigger] ss[i]@,
    decreases ss.len(),
{
    if ss.len() > 0 {
        let pre = ss.subrange(0, ss.len() - 1);
        lemma_stmts_view(pre);
        assert forall|i: int| 0 <= i < ss.len() implies stmts_view(ss)[i] == #[trigger] ss[i]@ by {
            if i < ss.len() - 1 {
                assert(pre[i] == ss[i]);
            }
        }
    }
}

/// The parameter and return types of the function a call by `name`
/// reaches.
fn called_function_exec(ctx: &AnalysisContext, name: &str) -> (r: Option<(Vec<TypeId>, TypeId)>)
    ensures
        match called_function(ctx@, name@) {
            Some(ft) => r matches Some(f) && f.0@ == ft.0 && f.1 == ft.1,
            None => r is None,
        },
{
    match ctx.lookup_symbol(name) {
        Some(info) => if info.kind == SymbolKind::Function || info.kind == SymbolKind::Variable {
            ctx.function_type(info.type_id)
        } else {
            None
        },
        None => None,
    }
}

/// Whether an argument of type `at` may be passed for a parameter of type
/// `p`.
fn argument_accepted_exec(ctx: &AnalysisContext, arg: &Expression, at: TypeId, p: TypeId) -> (b: bool)
    ensures
        b == argument_accepted(arg@, at, p),
{
    p == prim_id(PrimitiveType::Unknown) || at == p || (at == prim_id(PrimitiveType::UnspecifiedInt)
        && check_unspecified_int_for_type(ctx, arg, &p).is_ok()) || (at == prim_id(PrimitiveType::UnspecifiedFloat)
        && check_unspecified_float_for_type(ctx, arg, &p).is_ok())
}

/// The type of an expression in a context, or the first error found.
pub fn check_expression(ctx: &AnalysisContext, e: &Expression) -> (r: Result<TypeId, SemanticAnalysisError>)
    ensures
        res_view(r) == check_expr(ctx@, e@),
    decreases e@,
{
    match e {
        Expression::Literal(lit) => Ok(lit.expr_type),
        Expression::Variable(name, location) => match ctx.lookup_symbol(name.as_str()) {
            Some(info) => if info.kind == SymbolKind::Variable || info.kind == SymbolKind::Function {
                Ok(info.type_id)
            } else {
                Err(SemanticAnalysisError::UndefinedVariable { name: name.clone(), location: *location })
            },
            None => Err(SemanticAnalysisError::UndefinedVariable { name: name.clone(), location: *location }),
        },
        Expression::Binary(b) => {
            let lt = match check_expression(ctx, &*b.left) {
                Ok(t) => t,
                Err(x) => return Err(x),
            };
            let rt = match check_expression(ctx, &*b.right) {
                Ok(t) => t,
                Err(x) => return Err(x),
            };
            let op = b.operator;
            if op == BinaryOperator::And || op == BinaryOperator::Or {
                check_logical_operation(&lt, &rt, &op, &b.location)
            } else if op == BinaryOperator::GreaterThan || op == BinaryOperator::LessThan || op
                == BinaryOperator::GreaterThanOrEqual || op == BinaryOperator::LessThanOrEqual || op == BinaryOperator::Equal
                || op == BinaryOperator::NotEqual {
                check_relational_operation(ctx, &lt, &rt, &op, &b.location)
            } else if lt == rt {
                check_same_type_arithmetic(ctx, &lt, &op, &b.location)
            } else {
                check_mixed_arithmetic_operation(ctx, &lt, &rt, b)
            }
        },
        Expression::Unary(u) => {
            let ot = match check_expression(ctx, &*u.right) {
                Ok(t) => t,
                Err(x) => return Err(x),
            };
            check_unary_operation(ctx, u, &ot)
        },
        Expression::Call(c) => {
            let found = called_function_exec(ctx, c.name.as_str());
            match found {
                None => Err(SemanticAnalysisError::UndefinedFunction { name: c.name.clone(), location: c.location }),
                Some((params, ret)) => {
                    if params.len() != c.arguments.len() {
                        proof {
                            lemma_exprs_view(c.arguments@);
                        }
                        return Err(
                            SemanticAnalysisError::ArgumentCountMismatch {
                                function_name: c.name.clone(),
                                expected: params.len(),
                                actual: c.arguments.len(),
                                location: c.location,
                            },
                        );
                    }
                    let ghost args = exprs_view(c.arguments@);
                    proof {
                        lemma_exprs_view(c.arguments@);
                    }
                    let mut i: usize = 0;
                    while i < c.arguments.len()
                        invariant
                            i <= c.arguments@.len(),
                            params@.len() == c.arguments@.len(),
                            args == exprs_view(c.arguments@),
                            args.len() == c.arguments@.len(),
                            e@ == (SpecExpr::Call { name: c.name@, arguments: args, expr_type: c.expr_type, location: c.location }),
                            called_function(ctx@, c.name@) == Some((params@, ret)),
                            forall|k: int| 0 <= k < c.arguments@.len() ==> args[k] == #[trigger] c.arguments@[k]@,
                            check_args(ctx@, c.name@, params@, args, 0) == check_args(ctx@, c.name@, params@, args, i as int),
                        decreases c.arguments@.len() - i,
                    {
                        let arg = &c.arguments[i];
                        assert(args[i as int] == arg@);
                        proof {
                            assert(decreases_to!(e@ => e@->Call_arguments));
                            assert(decreases_to!(args => args[i as int]));
                        }
                        let at = match check_expression(ctx, arg) {
                            Ok(t) => t,
                            Err(x) => {
                                assert(check_args(ctx@, c.name@, params@, args, i as int) == Err::<(), SpecAnalysisError>(x@));
                                return Err(x);
                            },
                        };
                        let p = params[i];
                        if !argument_accepted_exec(ctx, arg, at, p) {
                            return Err(
                                SemanticAnalysisError::ArgumentTypeMismatch {
                                    function_name: c.name.clone(),
                                    argument_position: i + 1,
                                    expected: p,
                                    actual: at,
                                    location: arg.location(),
                                },
                            );
                        }
                        i = i + 1;
                    }
                    Ok(ret)
                },
            }
        },
        Expression::Conditional(c) => {
            let ct = match check_expression(ctx, &*c.condition) {
                Ok(t) => t,
                Err(x) => return Err(x),
            };
            if ct != prim_id(PrimitiveType::Bool) {
                return Err(
                    SemanticAnalysisError::TypeMismatch {
                        expected: prim_id(PrimitiveType::Bool),
                        actual: ct,
                        context: Some(string_from("if condition")),
                        location: c.condition.location(),
                    },
                );
            }
            let tt = match check_expression(ctx, &*c.then_branch) {
                Ok(t) => t,
                Err(x) => return Err(x),
            };
            let et = match check_expression(ctx, &*c.else_branch) {
                Ok(t) => t,
                Err(x) => return Err(x),
            };
            if tt == prim_id(PrimitiveType::Unknown) {
                Ok(et)
            } else if et == prim_id(PrimitiveType::Unknown) || tt == et {
                Ok(tt)
            } else {
                Err(
                    SemanticAnalysisError::TypeMismatch {
                        expected: tt,
                        actual: et,
                        context: Some(string_from("conditional expression branches must have the same type")),
                        location: c.location,
                    },
                )
            }
        },
    }
}

/// The type of a returned expression in a function returning `t`.
fn check_return_exec(ctx: &AnalysisContext, e: &Expression, t: TypeId) -> (r: Result<TypeId, SemanticAnalysisError>)
    ensures
        res_view(r) == check_return(ctx@, e@, t),
{
    let at = match check_expression(ctx, e) {
        Ok(at) => at,
        Err(x) => return Err(x),
    };
    if at == t {
        return Ok(at);
    }
    if at == prim_id(PrimitiveType::UnspecifiedInt) {
        match int_literal_of(e) {
            Some(n) => if ctx.check_value_in_range(n, t) {
                return Ok(t);
            },
            None => {},
        }
    }
    if at == prim_id(PrimitiveType::UnspecifiedFloat) {
        match float_literal_of(e) {
            Some(f) => if ctx.check_float_value_in_range(f, t) {
                return Ok(t);
            },
            None => {},
        }
    }
    Err(SemanticAnalysisError::ReturnTypeMismatch { expected: t, actual: at, location: e.location() })
}

/// Analyses an assignment.
fn check_assignment_exec(ctx: &AnalysisContext, a: &AssignmentStatement) -> (r: Result<TypeId, SemanticAnalysisError>)
    ensures
        res_view(r) == check_assignment(ctx@, a.name@, a.value@, a.location),
{
    let info = match ctx.lookup_symbol(a.name.as_str()) {
        Some(info) => info,
        None => return Err(SemanticAnalysisError::UndefinedVariable { name: a.name.clone(), location: a.location }),
    };
    if info.kind != SymbolKind::Variable {
        return Err(SemanticAnalysisError::UndefinedVariable { name: a.name.clone(), location: a.location });
    }
    if !info.is_mutable {
        return Err(SemanticAnalysisError::AssignmentToImmutableVariable { name: a.name.clone(), location: a.location });
    }
    let et = match check_expression(ctx, &a.value) {
        Ok(t) => t,
        Err(x) => return Err(x),
    };
    if info.type_id == et || et == prim_id(PrimitiveType::UnspecifiedInt) || et == prim_id(PrimitiveType::UnspecifiedFloat) {
        Ok(info.type_id)
    } else {
        let mut context = string_from("assignment to variable '");
        push_str(&mut context, a.name.as_str());
        push_str(&mut context, "'");
        Err(SemanticAnalysisError::TypeMismatch { expected: info.type_id, actual: et, context: Some(context), location: a.location })
    }
}

/// The parameter types of a list of parameters.
fn param_type_list(ps: &Vec<Parameter>) -> (v: Vec<TypeId>)
    ensures
        v@ == param_types(params_view(ps@)),
{
    let mut v: Vec<TypeId> = Vec::new();
    let mut i: usize = 0;
    while i < ps.len()
        invariant
            i <= ps@.len(),
            v@ == param_types(params_view(ps@)).take(i as int),
        decreases ps@.len() - i,
    {
        v.push(ps[i].param_type);
        i = i + 1;
        assert(v@ =~= param_types(params_view(ps@)).take(i as int));
    }
    assert(param_types(params_view(ps@)).take(ps@.len() as int) =~= param_types(params_view(ps@)));
    v
}

/// A copy of the fields of a type definition.
fn copy_fields(fields: &Vec<(String, TypeId)>) -> (v: Vec<(String, TypeId)>)
    ensures
        fields_view(v@) == fields_view(fields@),
{
    let mut v: Vec<(String, TypeId)> = Vec::new();
    let mut i: usize = 0;
    while i < fields.len()
        invariant
            i <= fields@.len(),
            fields_view(v@) == fields_view(fields@).take(i as int),
        decreases fields@.len() - i,
    {
        let name = fields[i].0.clone();
        let ghost before = v@;
        v.push((name, fields[i].1));
        assert(fields_view(v@) =~= fields_view(before).push((fields@[i as int].0@, fields@[i as int].1)));
        i = i + 1;
        assert(fields_view(v@) =~= fields_view(fields@).take(i as int));
    }
    assert(fields_view(fields@).take(fields@.len() as int) =~= fields_view(fields@));
    v
}

/// Analyses programs: checks the types of their expressions, and their
/// statements against the symbols in scope, and collects the errors found.
pub struct SemanticAnalyzer {
    context: AnalysisContext,
    current_return_type: Option<TypeId>,
    errors: Vec<CompilerError>,
}

impl SemanticAnalyzer {
    /// The state of the analysis.
    pub closed spec fn state(&self) -> AnalysisState {
        AnalysisState { ctx: self.context@, return_type: self.current_return_type }
    }

    /// The errors collected so far.
    pub closed spec fn collected(&self) -> Seq<SpecCompilerError> {
        self.errors@.map_values(|e: CompilerError| e@)
    }

    /// The context of the analysis has at least one scope.
    pub closed spec fn wf(&self) -> bool {
        self.context@.wf()
    }

    /// An analyzer working in `context`, with the native functions defined,
    /// outside of any function and with no error collected.
    pub fn new(context: AnalysisContext) -> (a: SemanticAnalyzer)
        requires
            context@.wf(),
        ensures
            a.wf(),
            a.state() == (AnalysisState { ctx: with_native_functions(context@), return_type: None }),
            a.collected() == Seq::<SpecCompilerError>::empty(),
    {
        let mut context = context;
        let mut params: Vec<TypeId> = Vec::new();
        params.push(prim_id(PrimitiveType::Unknown));
        assert(params@ =~= seq![prim(PrimitiveType::Unknown)]);
        let fid = context.register_function_type(params, prim_id(PrimitiveType::I32));
        let _ = context.define_symbol("print_value", SymbolKind::Function, fid, false);
        let a = SemanticAnalyzer { context, current_return_type: None, errors: Vec::new() };
        assert(a.collected() =~= Seq::<SpecCompilerError>::empty());
        a
    }

    /// The context the analyzer worked in.
    pub fn into_context(self) -> (c: AnalysisContext)
        ensures
            c@ == self.state().ctx,
    {
        self.context
    }

    /// Analyses a struct type definition.
    #[verifier::loop_isolation(false)]
    fn check_type_definition_exec(&mut self, t: &TypeDefinitionStmt) -> (r: Result<TypeId, SemanticAnalysisError>)
        requires
            old(self).wf(),
        ensures
            final(self).wf(),
            final(self).errors == old(self).errors,
            (final(self).state(), res_view(r)) == check_type_definition(old(self).state(), t.name@, fields_view(t.fields@), t.location),
    {
        if self.context.lookup_symbol(t.name.as_str()).is_some() {
            return Err(SemanticAnalysisError::SymbolRedefinition { name: t.name.clone(), kind: string_from("type"), location: t.location });
        }
        let ghost fv = fields_view(t.fields@);
        let mut i: usize = 0;
        while i < t.fields.len()
            invariant
                i <= t.fields@.len(),
                fv == fields_view(t.fields@),
                fv.len() == t.fields@.len(),
                first_invalid_field(fv, 0) == first_invalid_field(fv, i as int),
            decreases t.fields@.len() - i,
        {
            let ft = t.fields[i].1;
            if ft == prim_id(PrimitiveType::Unknown) || ft == prim_id(PrimitiveType::UnspecifiedInt) || ft == prim_id(
                PrimitiveType::UnspecifiedFloat,
            ) {
                return Err(
                    SemanticAnalysisError::InvalidFieldType {
                        struct_name: t.name.clone(),
                        field_name: t.fields[i].0.clone(),
                        type_id: ft,
                        location: t.location,
                    },
                );
            }
            i = i + 1;
        }
        let fields = copy_fields(&t.fields);
        match self.context.register_struct_type(t.name.as_str(), fields) {
            Some(id) => Ok(id),
            None => Err(SemanticAnalysisError::SymbolRedefinition { name: t.name.clone(), kind: string_from("type"), location: t.location }),
        }
    }

    /// Analyses a `let` statement.
    fn check_let_exec(&mut self, l: &LetStatement) -> (r: Result<TypeId, SemanticAnalysisError>)
        requires
            old(self).wf(),
        ensures
            final(self).wf(),
            final(self).errors == old(self).errors,
            (final(self).state(), res_view(r)) == check_let(old(self).state(), l.name@, l.is_mutable, l.value@, l.expr_type, l.location),
    {
        match negated_int_literal_of(&l.value) {
            Some(n) => if self.context.is_unsigned_type(l.expr_type) {
                return Err(
                    SemanticAnalysisError::ValueOutOfRange {
                        value: negated_text(n),
                        target_type: l.expr_type,
                        is_float: false,
                        location: l.location,
                    },
                );
            },
            None => {},
        }
        match self.context.lookup_symbol(l.name.as_str()) {
            Some(info) => {
                if info.kind == SymbolKind::Type {
                    return Err(
                        SemanticAnalysisError::SymbolRedefinition {
                            name: l.name.clone(),
                            kind: string_from("variable (conflicts with type)"),
                            location: l.location,
                        },
                    );
                }
                if info.kind == SymbolKind::Function {
                    return Err(
                        SemanticAnalysisError::SymbolRedefinition {
                            name: l.name.clone(),
                            kind: string_from("variable (conflicts with function)"),
                            location: l.location,
                        },
                    );
                }
            },
            None => {},
        }
        let et = match check_expression(&self.context, &l.value) {
            Ok(t) => t,
            Err(x) => return Err(x),
        };
        let t = match determine_let_statement_type(&self.context, l, et) {
            Ok(t) => t,
            Err(x) => return Err(x),
        };
        let ft = finalize_inferred_type(t);
        if !self.context.define_symbol(l.name.as_str(), SymbolKind::Variable, ft, l.is_mutable) {
            return Err(SemanticAnalysisError::VariableRedefinition { name: l.name.clone(), location: l.location });
        }
        Ok(ft)
    }

    /// Analyses a `return` statement.
    fn check_return_statement_exec(&self, value: &Option<Expression>) -> (r: Result<TypeId, SemanticAnalysisError>)
        ensures
            res_view(r) == check_return_statement(
                self.state(),
                match value {
                    Some(e) => Some(e@),
                    None => None,
                },
            ),
    {
        match self.current_return_type {
            None => {
                let location = match value {
                    Some(e) => e.location(),
                    None => Location::new(0, 0, 0, 0),
                };
                Err(SemanticAnalysisError::ReturnOutsideFunction { location })
            },
            Some(t) => match value {
                Some(e) => check_return_exec(&self.context, e, t),
                None => if t != prim_id(PrimitiveType::Unknown) && t != prim_id(PrimitiveType::Unit) {
                    Err(SemanticAnalysisError::MissingReturnValue { expected: t, location: Location::new(0, 0, 0, 0) })
                } else {
                    Ok(prim_id(PrimitiveType::Unit))
                },
            },
        }
    }

    /// Analyses a block: in a new scope, the statements in order up to the
    /// first error; the scope is closed when there is none.
    fn check_block_exec(&mut self, ss: &Vec<Statement>) -> (r: Result<TypeId, SemanticAnalysisError>)
        requires
            old(self).wf(),
        ensures
            final(self).wf(),
            final(self).errors == old(self).errors,
            (final(self).state(), res_view(r)) == check_block(old(self).state(), stmts_view(ss@)),
        decreases stmts_view(ss@), 1nat,
    {
        self.context.begin_scope();
        let ghost ssv = stmts_view(ss@);
        let ghost st1 = self.state();
        proof {
            lemma_stmts_view(ss@);
        }
        let mut i: usize = 0;
        while i < ss.len()
            invariant
                i <= ss@.len(),
                ssv == stmts_view(ss@),
                ssv.len() == ss@.len(),
                forall|k: int| 0 <= k < ss@.len() ==> ssv[k] == #[trigger] ss@[k]@,
                self.wf(),
                self.errors == old(self).errors,
                st1 == with_ctx(old(self).state(), old(self).state().ctx.begun()),
                check_stmts(st1, ssv, 0) == check_stmts(self.state(), ssv, i as int),
            decreases ss@.len() - i,
        {
            proof {
                assert(decreases_to!(ssv => ssv[i as int]));
            }
            match self.check_statement(&ss[i]) {
                Err(x) => return Err(x),
                Ok(_) => {},
            }
            i = i + 1;
        }
        self.context.end_scope();
        Ok(prim_id(PrimitiveType::Unit))
    }

    /// Analyses a statement: its type, or the first error found in it.
    #[verifier::loop_isolation(false)]
    fn check_statement(&mut self, s: &Statement) -> (r: Result<TypeId, SemanticAnalysisError>)
        requires
            old(self).wf(),
        ensures
            final(self).wf(),
            final(self).errors == old(self).errors,
            (final(self).state(), res_view(r)) == check_stmt(old(self).state(), s@),
        decreases s@, 0nat,
    {
        match s {
            Statement::Let(l) => self.check_let_exec(l),
            Statement::Assignment(a) => check_assignment_exec(&self.context, a),
            Statement::Expression(e) => check_expression(&self.context, e),
            Statement::TypeDefinition(t) => self.check_type_definition_exec(t),
            Statement::Block(ss) => {
                proof {
                    assert(decreases_to!(s@ => s@->Block_0));
                }
                self.check_block_exec(ss)
            },
            Statement::Return(value) => self.check_return_statement_exec(value),
            Statement::FunctionDeclaration(f) => {
                let params = param_type_list(&f.parameters);
                let fid = self.context.register_function_type(params, f.return_type);
                if !self.context.define_symbol(f.name.as_str(), SymbolKind::Function, fid, false) {
                    return Err(
                        SemanticAnalysisError::SymbolRedefinition {
                            name: f.name.clone(),
                            kind: string_from("function"),
                            location: f.location,
                        },
                    );
                }
                let previous = self.current_return_type;
                self.current_return_type = Some(f.return_type);
                self.context.begin_scope();
                let ghost pv = params_view(f.parameters@);
                let ghost c_start = self.context@;
                let mut i: usize = 0;
                while i < f.parameters.len()
                    invariant
                        i <= f.parameters@.len(),
                        pv == params_view(f.parameters@),
                        pv.len() == f.parameters@.len(),
                        self.wf(),
                        self.current_return_type == Some(f.return_type),
                        self.errors == old(self).errors,
                        define_params(c_start, pv, 0) == define_params(self.context@, pv, i as int),
                    decreases f.parameters@.len() - i,
                {
                    let p = &f.parameters[i];
                    if !self.context.define_symbol(p.name.as_str(), SymbolKind::Variable, p.param_type, true) {
                        return Err(
                            SemanticAnalysisError::SymbolRedefinition {
                                name: p.name.clone(),
                                kind: string_from("parameter"),
                                location: f.location,
                            },
                        );
                    }
                    i = i + 1;
                }
                let result = self.check_block_exec(&f.body);
                self.current_return_type = previous;
                self.context.end_scope();
                match result {
                    Err(x) => Err(x),
                    Ok(_) => Ok(f.return_type),
                }
            },
            Statement::If(ifs) => {
                let ct = match check_expression(&self.context, &ifs.condition) {
                    Ok(t) => t,
                    Err(x) => return Err(x),
                };
                if ct != prim_id(PrimitiveType::Bool) {
                    return Err(
                        SemanticAnalysisError::TypeMismatch {
                            expected: prim_id(PrimitiveType::Bool),
                            actual: ct,
                            context: Some(string_from("if condition")),
                            location: ifs.condition.location(),
                        },
                    );
                }
                match self.check_block_exec(&ifs.then_branch) {
                    Err(x) => return Err(x),
                    Ok(_) => {},
                }
                match &ifs.else_branch {
                    None => Ok(prim_id(PrimitiveType::Unit)),
                    Some(eb) => {
                        proof {
                            assert(decreases_to!(s@ => s@->If_else_branch));
                            assert(decreases_to!(s@->If_else_branch => s@->If_else_branch->0));
                        }
                        match self.check_block_exec(eb) {
                            Err(x) => Err(x),
                            Ok(_) => Ok(prim_id(PrimitiveType::Unit)),
                        }
                    },
                }
            },
        }
    }

    /// Adds a compiler error unless one with the same message, line and
    /// column was collected before.
    fn add_unique_error(&mut self, e: CompilerError)
        ensures
            final(self).collected() == add_unique(old(self).collected(), e@),
            final(self).state() == old(self).state(),
    {
        let ghost errs = self.collected();
        let mut k: usize = 0;
        while k < self.errors.len()
            invariant
                k <= self.errors@.len(),
                errs == self.collected(),
                errs.len() == self.errors@.len(),
                self.state() == old(self).state(),
                self.errors == old(self).errors,
                forall|j: int|
                    0 <= j < k ==> !((#[trigger] errs[j]).message == e@.message && errs[j].line == e@.line
                        && errs[j].column == e@.column),
            decreases self.errors@.len() - k,
        {
            assert(errs[k as int] == self.errors@[k as int]@);
            if str_eq(self.errors[k].message.as_str(), e.message.as_str()) && self.errors[k].line == e.line
                && self.errors[k].column == e.column {
                return;
            }
            k = k + 1;
        }
        let ghost before = self.errors@;
        self.errors.push(e);
        assert(self.collected() =~= errs.push(e@));
    }

    /// Analyses the statements of a program in order, each whatever came
    /// before, and collects the errors they end with, one per message,
    /// line and column; returns them, if there are any, and keeps none.
    pub fn analyze(&mut self, statements: &[Statement]) -> (r: Result<(), Vec<CompilerError>>)
        requires
            old(self).wf(),
        ensures
            final(self).wf(),
            final(self).state() == analyze_from(old(self).state(), stmts_view(statements@), 0, old(self).collected()).0,
            final(self).collected() == Seq::<SpecCompilerError>::empty(),
            match r {
                Ok(_) => analyze_from(old(self).state(), stmts_view(statements@), 0, old(self).collected()).1.len() == 0,
                Err(v) => v@.map_values(|e: CompilerError| e@) == analyze_from(
                    old(self).state(),
                    stmts_view(statements@),
                    0,
                    old(self).collected(),
                ).1 && v@.len() > 0,
            },
    {
        let ghost ssv = stmts_view(statements@);
        proof {
            lemma_stmts_view(statements@);
        }
        let mut i: usize = 0;
        while i < statements.len()
            invariant
                i <= statements@.len(),
                ssv == stmts_view(statements@),
                ssv.len() == statements@.len(),
                forall|k: int| 0 <= k < statements@.len() ==> ssv[k] == #[trigger] statements@[k]@,
                self.wf(),
                analyze_from(old(self).state(), ssv, 0, old(self).collected()) == analyze_from(
                    self.state(),
                    ssv,
                    i as int,
                    self.collected(),
                ),
            decreases statements@.len() - i,
        {
            let r = self.check_statement(&statements[i]);
            match r {
                Err(e) => {
                    let ce = e.to_compiler_error(self.context.type_names());
                    self.add_unique_error(ce);
                },
                Ok(_) => {},
            }
            i = i + 1;
        }
        if self.errors.len() > 0 {
            let mut taken: Vec<CompilerError> = Vec::new();
            core::mem::swap(&mut taken, &mut self.errors);
            assert(self.collected() =~= Seq::<SpecCompilerError>::empty());
            Err(taken)
        } else {
            assert(self.collected() =~= Seq::<SpecCompilerError>::empty());
            Ok(())
        }
    }
}

/// Analyses the statements of a program in `context`, with the native
/// functions defined first; returns the errors found, one per message,
/// line and column, if there are any. The context is left as the analysis
/// leaves it.
pub fn execute(statements: &[Statement], context: &mut AnalysisContext) -> (r: Result<(), Vec<CompilerError>>)
    requires
        old(context)@.wf(),
    ensures
        final(context)@ == analyze_from(
            AnalysisState { ctx: with_native_functions(old(context)@), return_type: None },
            stmts_view(statements@),
            0,
            Seq::empty(),
        ).0.ctx,
        final(context)@.wf(),
        match r {
            Ok(_) => analyze_from(
                AnalysisState { ctx: with_native_functions(old(context)@), return_type: None },
                stmts_view(statements@),
                0,
                Seq::empty(),
            ).1.len() == 0,
            Err(v) => v@.map_values(|e: CompilerError| e@) == analyze_from(
                AnalysisState { ctx: with_native_functions(old(context)@), return_type: None },
                stmts_view(statements@),
                0,
                Seq::empty(),
            ).1 && v@.len() > 0,
        },
{
    let mut owned = AnalysisContext::new();
    core::mem::swap(context, &mut owned);
    let mut analyzer = SemanticAnalyzer::new(owned);
    let r = analyzer.analyze(statements);
    let mut back = analyzer.into_context();
    core::mem::swap(context, &mut back);
    r
}

/// No two errors share their message, line and column.
pub open spec fn keys_unique(errors: Seq<SpecCompilerError>) -> bool {
    forall|i: int, j: int|
        0 <= i < j < errors.len() ==> !((#[trigger] errors[i]).message == (#[trigger] errors[j]).message
            && errors[i].line == errors[j].line && errors[i].column == errors[j].column)
}

/// The errors analysis collects never hold two with the same message, line
/// and column.
pub proof fn lemma_analysis_errors_unique(st: AnalysisState, ss: Seq<SpecStmt>, i: int, errors: Seq<SpecCompilerError>)
    requires
        keys_unique(errors),
    ensures
        keys_unique(analyze_from(st, ss, i, errors).1),
    decreases ss.len() - i,
{
    if 0 <= i < ss.len() {
        let (st1, r) = check_stmt(st, ss[i]);
        match r {
            Err(x) => {
                let e = analysis_compiler_error(x, st1.ctx.type_names);
                let next = add_unique(errors, e);
                assert(keys_unique(next)) by {
                    if next != errors {
                        assert forall|a: int, b: int| 0 <= a < b < next.len() implies !((#[trigger] next[a]).message == (
                        #[trigger] next[b]).message && next[a].line == next[b].line && next[a].column == next[b].column) by {
                            if b == errors.len() {
                                assert(next[a] == errors[a]);
                            } else {
                                assert(next[a] == errors[a] && next[b] == errors[b]);
                            }
                        }
                    }
                }
                lemma_analysis_errors_unique(st1, ss, i + 1, next);
            },
            Ok(_) => {
                lemma_analysis_errors_unique(st1, ss, i + 1, errors);
            },
        }
    }
}

/// Defining parameters keeps the number of scopes and the well-formedness
/// of the context.
proof fn lemma_define_params_depth(c: SpecContext, ps: Seq<SpecParameter>, i: int)
    requires
        c.wf(),
    ensures
        define_params(c, ps, i).0.wf(),
        define_params(c, ps, i).0.scopes.len() == c.scopes.len(),
    decreases ps.len() - i,
{
    if 0 <= i < ps.len() {
        match c.define(
            SpecScopedSymbol { name: ps[i].name, kind: SymbolKind::Variable, type_id: ps[i].param_type, is_mutable: true },
        ) {
            None => {},
            Some(c2) => lemma_define_params_depth(c2, ps, i + 1),
        }
    }
}

/// Analysing a statement keeps the context well formed; when the statement
/// passes, as many scopes are open after it as before, within the same
/// function.
pub proof fn lemma_statement_keeps_depth(st: AnalysisState, s: SpecStmt)
    requires
        st.ctx.wf(),
    ensures
        check_stmt(st, s).0.ctx.wf(),
        check_stmt(st, s).1 is Ok ==> check_stmt(st, s).0.ctx.scopes.len() == st.ctx.scopes.len()
            && check_stmt(st, s).0.return_type == st.return_type,
    decreases s, 0nat,
{
    match s {
        SpecStmt::TypeDefinition { name, fields, location } => {
            if st.ctx.lookup(name) is None && first_invalid_field(fields, 0) is None {
                match st.ctx.with_struct_type(name, fields) {
                    Some((c, t)) => {},
                    None => {},
                }
            }
        },
        SpecStmt::FunctionDeclaration { name, parameters, return_type, body, location } => {
            crate::analysis_context::lemma_function_type_registration(st.ctx, param_types(parameters), return_type);
            let (c1, fid) = st.ctx.with_function_type(param_types(parameters), return_type);
            match c1.define(SpecScopedSymbol { name, kind: SymbolKind::Function, type_id: fid, is_mutable: false }) {
                None => {},
                Some(c2) => {
                    lemma_define_params_depth(c2.begun(), parameters, 0);
                    let (c3, refused) = define_params(c2.begun(), parameters, 0);
                    if refused is None {
                        lemma_block_keeps_depth(AnalysisState { ctx: c3, return_type: Some(return_type) }, body);
                    }
                },
            }
        },
        SpecStmt::Block(ss) => {
            lemma_block_keeps_depth(st, ss);
        },
        SpecStmt::If { condition, then_branch, else_branch, .. } => {
            lemma_block_keeps_depth(st, then_branch);
            let (st1, r1) = check_block(st, then_branch);
            match else_branch {
                Some(eb) => {
                    lemma_block_keeps_depth(st1, eb);
                },
                None => {},
            }
        },
        _ => {},
    }
}

/// Analysing a block keeps the context well formed; when the block passes,
/// as many scopes are open after it as before, within the same function.
pub proof fn lemma_block_keeps_depth(st: AnalysisState, ss: Seq<SpecStmt>)
    requires
        st.ctx.wf(),
    ensures
        check_block(st, ss).0.ctx.wf(),
        check_block(st, ss).1 is Ok ==> check_block(st, ss).0.ctx.scopes.len() == st.ctx.scopes.len()
            && check_block(st, ss).0.return_type == st.return_type,
    decreases ss, ss.len() + 1,
{
    lemma_statements_keep_depth(with_ctx(st, st.ctx.begun()), ss, 0);
}

/// Analysing statements keeps the context well formed; when they all
/// pass, as many scopes are open after them as before, within the same
/// function.
pub proof fn lemma_statements_keep_depth(st: AnalysisState, ss: Seq<SpecStmt>, i: int)
    requires
        st.ctx.wf(),
    ensures
        check_stmts(st, ss, i).0.ctx.wf(),
        check_stmts(st, ss, i).1 is Ok ==> check_stmts(st, ss, i).0.ctx.scopes.len() == st.ctx.scopes.len()
            && check_stmts(st, ss, i).0.return_type == st.return_type,
    decreases ss, ss.len() - i,
{
    if 0 <= i < ss.len() {
        lemma_statement_keeps_depth(st, ss[i]);
        let (st1, r) = check_stmt(st, ss[i]);
        if r is Ok {
            lemma_statements_keep_depth(st1, ss, i + 1);
        }
    }
}

/// A variable declared without `mut` cannot be assigned: once its
/// declaration passes, any assignment to it is refused as an assignment to
/// an immutable variable.
pub proof fn lemma_immutable_variable_refuses_assignment(
    st: AnalysisState,
    name: Seq<char>,
    value: SpecExpr,
    declared: TypeId,
    location: Location,
    new_value: SpecExpr,
    assign_location: Location,
)
    requires
        st.ctx.wf(),
        check_let(st, name, false, value, declared, location).1 is Ok,
    ensures
        check_assignment(check_let(st, name, false, value, declared, location).0.ctx, name, new_value, assign_location)
            == Err::<TypeId, SpecAnalysisError>(
            SpecAnalysisError::AssignmentToImmutableVariable { name, location: assign_location },
        ),
{
    let t = check_let(st, name, false, value, declared, location).1->Ok_0;
    let sym = SpecScopedSymbol { name, kind: SymbolKind::Variable, type_id: t, is_mutable: false };
    crate::analysis_context::lemma_define_then_lookup(st.ctx, sym);
}

/// A variable declared with `mut` can be assigned a value of its type:
/// once its declaration passes, an assignment of a value of the type it
/// was given passes, with that type.
pub proof fn lemma_mutable_variable_accepts_its_type(
    st: AnalysisState,
    name: Seq<char>,
    value: SpecExpr,
    declared: TypeId,
    location: Location,
    new_value: SpecExpr,
    assign_location: Location,
)
    requires
        st.ctx.wf(),
        check_let(st, name, true, value, declared, location).1 is Ok,
        check_expr(check_let(st, name, true, value, declared, location).0.ctx, new_value) == check_let(
            st,
            name,
            true,
            value,
            declared,
            location,
        ).1,
    ensures
        check_assignment(check_let(st, name, true, value, declared, location).0.ctx, name, new_value, assign_location)
            == check_let(st, name, true, value, declared, location).1,
{
    let t = check_let(st, name, true, value, declared, location).1->Ok_0;
    let sym = SpecScopedSymbol { name, kind: SymbolKind::Variable, type_id: t, is_mutable: true };
    crate::analysis_context::lemma_define_then_lookup(st.ctx, sym);
}

/// A block may declare again any name of an enclosing scope: in a new
/// scope, defining a symbol always succeeds, and its name then refers to
/// it.
pub proof fn lemma_inner_scope_may_shadow(c: SpecContext, sym: SpecScopedSymbol)
    requires
        c.wf(),
    ensures
        c.begun().define(sym) is Some,
        c.begun().define(sym)->0.lookup(sym.name) == Some(sym),
{
    assert(c.begun().scopes.last() == Seq::<SpecScopedSymbol>::empty());
    crate::analysis_context::lemma_define_then_lookup(c.begun(), sym);
}

/// The arguments of a call from the `i`-th on pass exactly when each of
/// them analyses to a type that its parameter accepts.
pub proof fn lemma_call_arguments(ctx: SpecContext, fname: Seq<char>, params: Seq<TypeId>, args: Seq<SpecExpr>, i: int)
    requires
        0 <= i <= args.len(),
        params.len() == args.len(),
    ensures
        check_args(ctx, fname, params, args, i) is Ok <==> forall|j: int|
            i <= j < args.len() ==> (#[trigger] check_expr(ctx, args[j]) matches Ok(t) && argument_accepted(
                args[j],
                t,
                params[j],
            )),
    decreases args.len() - i,
{
    if i < args.len() {
        lemma_call_arguments(ctx, fname, params, args, i + 1);
        if check_args(ctx, fname, params, args, i) is Ok {
            assert forall|j: int| i <= j < args.len() implies (#[trigger] check_expr(ctx, args[j]) matches Ok(t)
                && argument_accepted(args[j], t, params[j])) by {
                if j > i {
                    assert(check_args(ctx, fname, params, args, i + 1) is Ok);
                }
            }
        }
        if forall|j: int|
            i <= j < args.len() ==> (#[trigger] check_expr(ctx, args[j]) matches Ok(t) && argument_accepted(
                args[j],
                t,
                params[j],
            )) {
            assert(check_expr(ctx, args[i]) matches Ok(t) && argument_accepted(args[i], t, params[i]));
            assert forall|j: int| i + 1 <= j < args.len() implies (#[trigger] check_expr(ctx, args[j]) matches Ok(t)
                && argument_accepted(args[j], t, params[j])) by {
                assert(i <= j);
            }
            assert(check_args(ctx, fname, params, args, i + 1) is Ok);
        }
    }
}

/// Whether `t` is one of the signed numeric types `i32`, `i64`, `f32`, `f64`.
pub open spec fn is_signed_numeric(t: TypeId) -> bool {
    t == prim(PrimitiveType::I32) || t == prim(PrimitiveType::I64) || t == prim(PrimitiveType::F32) || t == prim(
        PrimitiveType::F64,
    )
}

/// Negation keeps the type of an operand of a signed numeric type, and
/// refuses an operand of an unsigned integer type, of `bool`, `string` or
/// unit; in an expression, negating an operand whose type is signed
/// numeric has that type.
pub proof fn lemma_negation_of_signed_numbers(
    ctx: SpecContext,
    right: SpecExpr,
    t: TypeId,
    expr_type: TypeId,
    location: Location,
)
    ensures
        is_signed_numeric(t) ==> check_negation(right, t, location) == Ok::<TypeId, SpecAnalysisError>(t),
        (t == prim(PrimitiveType::U32) || t == prim(PrimitiveType::U64) || t == prim(PrimitiveType::Bool) || t
            == prim(PrimitiveType::String) || t == prim(PrimitiveType::Unit)) ==> check_negation(right, t, location)
            is Err,
        check_expr(ctx, right) == Ok::<TypeId, SpecAnalysisError>(t) && is_signed_numeric(t) ==> check_expr(
            ctx,
            SpecExpr::Unary { operator: UnaryOperator::Negate, right: Box::new(right), expr_type, location },
        ) == Ok::<TypeId, SpecAnalysisError>(t),
{
}

/// `==` and `!=` compare any two operands of one type other than unit,
/// giving `bool`; ordering compares any two operands of one integer or
/// float type, giving `bool`; and a comparison that succeeds always gives
/// `bool`. In an expression, comparing two operands of one type other than
/// unit with `==` or `!=` gives `bool`.
pub proof fn lemma_comparisons_of_equal_types(
    ctx: SpecContext,
    op: BinaryOperator,
    t: TypeId,
    u: TypeId,
    left: SpecExpr,
    right: SpecExpr,
    expr_type: TypeId,
    location: Location,
)
    ensures
        (op == BinaryOperator::Equal || op == BinaryOperator::NotEqual) && t != prim(PrimitiveType::Unit)
            ==> check_comparison(op, t, t, location) == Ok::<TypeId, SpecAnalysisError>(prim(PrimitiveType::Bool)),
        is_ordering(op) && (is_integer(t) || is_float(t)) ==> check_comparison(op, t, t, location) == Ok::<
            TypeId,
            SpecAnalysisError,
        >(prim(PrimitiveType::Bool)),
        check_comparison(op, t, u, location) matches Ok(r) ==> r == prim(PrimitiveType::Bool),
        (op == BinaryOperator::Equal || op == BinaryOperator::NotEqual) && t != prim(PrimitiveType::Unit) && check_expr(
            ctx,
            left,
        ) == Ok::<TypeId, SpecAnalysisError>(t) && check_expr(ctx, right) == Ok::<TypeId, SpecAnalysisError>(t)
            ==> check_expr(ctx, SpecExpr::Binary { left: Box::new(left), operator: op, right: Box::new(right), expr_type, location })
            == Ok::<TypeId, SpecAnalysisError>(prim(PrimitiveType::Bool)),
{
}

/// A literal without suffix returned from a function of an integer or
/// float type is accepted exactly when a variable of that type may be
/// declared with it: an integer literal when it fits an integer return
/// type, a float literal when it fits a float return type.
pub proof fn lemma_return_accepts_literals_as_let(
    ctx: SpecContext,
    value: SpecLiteral,
    expr_type: TypeId,
    location: Location,
    t: TypeId,
    name: Seq<char>,
    let_location: Location,
)
    requires
        (value is UnspecifiedInteger && expr_type == prim(PrimitiveType::UnspecifiedInt)) || (value is UnspecifiedFloat
            && expr_type == prim(PrimitiveType::UnspecifiedFloat)),
        is_integer(t) || is_float(t),
    ensures
        ({
            let e = SpecExpr::Literal { value, expr_type, location };
            &&& (check_return(ctx, e, t) is Ok <==> let_type(ctx, name, t, e, let_location, expr_type) is Ok)
            &&& (value matches SpecLiteral::UnspecifiedFloat(f) ==> (check_return(ctx, e, t) is Ok <==> float_fits(
                f,
                t,
            )))
            &&& (value matches SpecLiteral::UnspecifiedInteger(n) ==> (check_return(ctx, e, t) is Ok <==> int_fits(
                n,
                t,
            )))
            &&& (check_return(ctx, e, t) matches Ok(r) ==> r == t)
        }),
{
    let e = SpecExpr::Literal { value, expr_type, location };
    assert(!ctx.is_function_type(t));
    assert(negated_int_literal(e) is None);
}

} // verus!
