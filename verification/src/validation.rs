//! Type checking services over an analysis context: which types a value
//! may be assigned to, the type of a call from the types of its arguments,
//! the coercion of literals without suffix, and the validation of declared
//! types.
use vstd::prelude::*;
use crate::analysis_context::{float_fits, int_fits, is_float, is_integer, is_unsigned, AnalysisContext, SpecContext};
use crate::analysis_error::{SemanticAnalysisError, SpecAnalysisError};
use crate::ast::{PrimitiveType, TypeId};
use crate::location::Location;
use crate::semantic_analyzer::{
    check_float_literal, check_int_literal, check_mixed_arithmetic, float_text, is_numeric, let_type, no_location, prim, res_view,
};
use crate::syntax::{BinaryExpr, Expression, FunctionDeclarationStmt, LetStatement, LiteralValue, SpecLiteral, Statement};
use crate::text::{push_signed_decimal, signed_decimal, string_from};
use crate::type_rules::{finalize_inferred_type, finalized, TypeInference};
use crate::type_system::{
    check_mixed_arithmetic_operation, check_unspecified_float_for_type, check_unspecified_int_for_type,
    determine_let_statement_type, float_text_of, prim_id,
};

verus! {

/// Checking a literal against the range of `target`: an integer literal
/// without suffix that does not fit an integer target, or a float literal
/// without suffix that does not fit a float target, is out of range; every
/// other literal and target passes.
pub open spec fn literal_range(literal: SpecLiteral, target: TypeId) -> Result<TypeId, SpecAnalysisError> {
    match literal {
        SpecLiteral::UnspecifiedInteger(n) => if is_integer(target) && !int_fits(n, target) {
            Err(
                SpecAnalysisError::ValueOutOfRange {
                    value: signed_decimal(n as int),
                    target_type: target,
                    is_float: false,
                    location: no_location(),
                },
            )
        } else {
            Ok(target)
        },
        SpecLiteral::UnspecifiedFloat(f) => if is_float(target) && !float_fits(f, target) {
            Err(
                SpecAnalysisError::ValueOutOfRange {
                    value: float_text(f),
                    target_type: target,
                    is_float: true,
                    location: no_location(),
                },
            )
        } else {
            Ok(target)
        },
        _ => Ok(target),
    }
}

/// The location of an error about a value that carries none.
fn zero_location() -> (l: Location)
    ensures
        l == no_location(),
{
    Location { position: 0, line: 0, column: 0, length: 0 }
}

/// Whether a literal without suffix of type `source` may stand for a
/// value of type `target`: an integer literal for an integer type, a float
/// literal for a float type.
pub open spec fn can_coerce(source: TypeId, target: TypeId) -> bool {
    ||| source == prim(PrimitiveType::UnspecifiedInt) && is_integer(target)
    ||| source == prim(PrimitiveType::UnspecifiedFloat) && is_float(target)
}

/// Whether a value of type `source` may be assigned to a place of type
/// `target`: the same type, or a literal that may stand for it.
pub open spec fn assignment_compatible(target: TypeId, source: TypeId) -> bool {
    target == source || can_coerce(source, target)
}

/// The index of the first argument type, from the `i`-th on, that may not
/// be passed for its parameter type.
pub open spec fn first_incompatible_argument(params: Seq<TypeId>, args: Seq<TypeId>, i: int) -> Option<int>
    decreases args.len() - i,
{
    if i < 0 || i >= args.len() {
        None
    } else if !assignment_compatible(params[i], args[i]) {
        Some(i)
    } else {
        first_incompatible_argument(params, args, i + 1)
    }
}

/// The type of a call of a function of type `function_type` with arguments
/// of the types `args`: its return type when the arguments match the
/// parameters in number and, one by one, in type; the function is not
/// known by name here, and errors name it `unknown` and carry no location.
pub open spec fn function_call_type(ctx: SpecContext, function_type: TypeId, args: Seq<TypeId>) -> Result<TypeId, SpecAnalysisError> {
    match ctx.function_type(function_type) {
        Some(ft) => if ft.0.len() != args.len() {
            Err(
                SpecAnalysisError::ArgumentCountMismatch {
                    function_name: "unknown"@,
                    expected: ft.0.len() as usize,
                    actual: args.len() as usize,
                    location: no_location(),
                },
            )
        } else {
            match first_incompatible_argument(ft.0, args, 0) {
                Some(i) => Err(
                    SpecAnalysisError::ArgumentTypeMismatch {
                        function_name: "unknown"@,
                        argument_position: (i + 1) as usize,
                        expected: ft.0[i],
                        actual: args[i],
                        location: no_location(),
                    },
                ),
                None => Ok(ft.1),
            }
        },
        None => Err(SpecAnalysisError::UndefinedFunction { name: "unknown"@, location: no_location() }),
    }
}

/// Checks types for assignments and calls.
pub struct TypeChecker<'a> {
    context: &'a AnalysisContext,
}

impl<'a> TypeChecker<'a> {
    /// A type checker over `context`.
    pub fn new(context: &'a AnalysisContext) -> (c: TypeChecker<'a>)
        ensures
            c.ctx() == context,
    {
        TypeChecker { context }
    }

    /// The context the checker works over.
    pub closed spec fn ctx(&self) -> &'a AnalysisContext {
        self.context
    }

    /// Returns the context the checker works over.
    pub fn context(&self) -> (c: &'a AnalysisContext)
        ensures
            c == self.ctx(),
    {
        self.context
    }

    /// Whether a value of type `source` may be assigned to a place of type
    /// `target`.
    pub fn check_assignment_compatibility(&self, target: &TypeId, source: &TypeId) -> (b: bool)
        ensures
            b == assignment_compatible(*target, *source),
    {
        *target == *source || self.can_coerce_unspecified_literal(source, target)
    }

    /// The type of a call of a function of type `function_type` with
    /// arguments of the types `argument_types`.
    #[verifier::loop_isolation(false)]
    pub fn check_function_call(&self, function_type: &TypeId, argument_types: &[TypeId]) -> (r: Result<
        TypeId,
        SemanticAnalysisError,
    >)
        ensures
            res_view(r) == function_call_type(self.ctx()@, *function_type, argument_types@),
    {
        let found = self.context.function_type(*function_type);
        match found {
            None => Err(SemanticAnalysisError::UndefinedFunction { name: string_from("unknown"), location: Location::new(0, 0, 0, 0) }),
            Some((params, ret)) => {
                if params.len() != argument_types.len() {
                    return Err(
                        SemanticAnalysisError::ArgumentCountMismatch {
                            function_name: string_from("unknown"),
                            expected: params.len(),
                            actual: argument_types.len(),
                            location: Location::new(0, 0, 0, 0),
                        },
                    );
                }
                let mut i: usize = 0;
                while i < argument_types.len()
                    invariant
                        i <= argument_types@.len(),
                        params@.len() == argument_types@.len(),
                        first_incompatible_argument(params@, argument_types@, 0) == first_incompatible_argument(
                            params@,
                            argument_types@,
                            i as int,
                        ),
                    decreases argument_types@.len() - i,
                {
                    if !self.check_assignment_compatibility(&params[i], &argument_types[i]) {
                        return Err(
                            SemanticAnalysisError::ArgumentTypeMismatch {
                                function_name: string_from("unknown"),
                                argument_position: i + 1,
                                expected: params[i],
                                actual: argument_types[i],
                                location: Location::new(0, 0, 0, 0),
                            },
                        );
                    }
                    i = i + 1;
                }
                Ok(ret)
            },
        }
    }

    /// Whether a literal without suffix of type `source` may stand for a
    /// value of type `target`.
    pub fn can_coerce_unspecified_literal(&self, source: &TypeId, target: &TypeId) -> (b: bool)
        ensures
            b == can_coerce(*source, *target),
    {
        if *source == prim_id(PrimitiveType::UnspecifiedInt) {
            return self.context.is_integer_type(*target);
        }
        if *source == prim_id(PrimitiveType::UnspecifiedFloat) {
            return self.context.is_float_type(*target);
        }
        false
    }

    /// Whether a type is numeric.
    pub fn is_numeric_type(&self, type_id: &TypeId) -> (b: bool)
        ensures
            b == is_numeric(*type_id),
    {
        crate::operations::is_numeric_type(self.context, type_id)
    }

    /// Whether a type is one of the integer types.
    pub fn is_integer_type(&self, type_id: &TypeId) -> (b: bool)
        ensures
            b == is_integer(*type_id),
    {
        self.context.is_integer_type(*type_id)
    }

    /// Whether a type is one of the float types.
    pub fn is_float_type(&self, type_id: &TypeId) -> (b: bool)
        ensures
            b == is_float(*type_id),
    {
        self.context.is_float_type(*type_id)
    }

    /// Whether a type is one of the unsigned integer types.
    pub fn is_unsigned_integer_type(&self, type_id: &TypeId) -> (b: bool)
        ensures
            b == is_unsigned(*type_id),
    {
        self.context.is_unsigned_type(*type_id)
    }
}

/// The coercion of literals without suffix.
pub struct TypeCoercion<'a> {
    context: &'a AnalysisContext,
}

impl<'a> TypeCoercion<'a> {
    /// A coercion handler over `context`.
    pub fn new(context: &'a AnalysisContext) -> (c: TypeCoercion<'a>)
        ensures
            c.ctx() == context,
    {
        TypeCoercion { context }
    }

    /// The context the handler works over.
    pub closed spec fn ctx(&self) -> &'a AnalysisContext {
        self.context
    }

    /// Whether a literal without suffix of type `source_type` may stand
    /// for a value of type `target_type`.
    pub fn can_coerce(&self, source_type: &TypeId, target_type: &TypeId) -> (b: bool)
        ensures
            b == can_coerce(*source_type, *target_type),
    {
        if *source_type == prim_id(PrimitiveType::UnspecifiedInt) {
            return self.context.is_integer_type(*target_type);
        }
        if *source_type == prim_id(PrimitiveType::UnspecifiedFloat) {
            return self.context.is_float_type(*target_type);
        }
        false
    }

    /// The type of arithmetic on operands of different types.
    pub fn check_mixed_arithmetic_operation(&self, left_type: &TypeId, right_type: &TypeId, bin_expr: &BinaryExpr) -> (r:
        Result<TypeId, SemanticAnalysisError>)
        ensures
            res_view(r) == check_mixed_arithmetic(
                bin_expr.operator,
                (*bin_expr.left)@,
                *left_type,
                (*bin_expr.right)@,
                *right_type,
                bin_expr.location,
            ),
    {
        check_mixed_arithmetic_operation(self.context, left_type, right_type, bin_expr)
    }
}

/// The validation of literals against the ranges of their target types,
/// and of declared types. Every type a declaration names passes: the names
/// were resolved when the program was read.
pub struct TypeValidation<'a> {
    context: &'a AnalysisContext,
}

impl<'a> TypeValidation<'a> {
    /// A validator over `context`.
    pub fn new(context: &'a AnalysisContext) -> (v: TypeValidation<'a>)
        ensures
            v.ctx() == context,
    {
        TypeValidation { context }
    }

    /// The context the validator works over.
    pub closed spec fn ctx(&self) -> &'a AnalysisContext {
        self.context
    }

    /// Validates that a literal lies in the range of a target type: an
    /// integer literal without suffix must fit an integer target, a float
    /// literal without suffix a float target; any other literal, or a
    /// target of another kind, passes. A literal carries no location, so an
    /// error is reported at the zero location.
    pub fn validate_literal_range(&self, literal: &LiteralValue, target_type: TypeId) -> (r: Result<TypeId, SemanticAnalysisError>)
        ensures
            res_view(r) == literal_range(literal@, target_type),
    {
        match literal {
            LiteralValue::UnspecifiedInteger(n) => if self.context.is_integer_type(target_type)
                && !self.context.check_value_in_range(*n, target_type) {
                let mut value = String::new();
                push_signed_decimal(&mut value, *n);
                Err(SemanticAnalysisError::ValueOutOfRange { value, target_type, is_float: false, location: zero_location() })
            } else {
                Ok(target_type)
            },
            LiteralValue::UnspecifiedFloat(f) => if self.context.is_float_type(target_type)
                && !self.context.check_float_value_in_range(f, target_type) {
                Err(
                    SemanticAnalysisError::ValueOutOfRange {
                        value: float_text_of(f),
                        target_type,
                        is_float: true,
                        location: zero_location(),
                    },
                )
            } else {
                Ok(target_type)
            },
            _ => Ok(target_type),
        }
    }

    /// Validates the types a function declaration names; returns the unit
    /// type.
    pub fn validate_function_declaration(&self, func_decl: &FunctionDeclarationStmt) -> (r: Result<TypeId, SemanticAnalysisError>)
        ensures
            r matches Ok(t) && t == prim(PrimitiveType::Unit),
    {
        let mut i: usize = 0;
        while i < func_decl.parameters.len()
            invariant
                i <= func_decl.parameters@.len(),
            decreases func_decl.parameters@.len() - i,
        {
            match self.validate_type_exists(func_decl.parameters[i].param_type) {
                Ok(_) => {},
                Err(x) => return Err(x),
            }
            i = i + 1;
        }
        match self.validate_type_exists(func_decl.return_type) {
            Ok(_) => {},
            Err(x) => return Err(x),
        }
        Ok(prim_id(PrimitiveType::Unit))
    }

    /// Validates that a type exists: every type passes.
    pub fn validate_type_exists(&self, type_id: TypeId) -> (r: Result<TypeId, SemanticAnalysisError>)
        ensures
            r matches Ok(t) && t == type_id,
    {
        Ok(type_id)
    }

    /// Validates the type of a variable against that of its value: the
    /// variable's type passes.
    pub fn validate_variable_type_constraints(&self, var_type: TypeId, _value_type: TypeId) -> (r: Result<
        TypeId,
        SemanticAnalysisError,
    >)
        ensures
            r matches Ok(t) && t == var_type,
    {
        Ok(var_type)
    }

    /// Validates a type used in an expression: every type passes.
    pub fn validate_expression_type(&self, type_id: TypeId) -> (r: Result<TypeId, SemanticAnalysisError>)
        ensures
            r matches Ok(t) && t == type_id,
    {
        Ok(type_id)
    }

    /// Validates the types a statement names; returns the unit type.
    pub fn validate_statement_types(&self, statement: &Statement) -> (r: Result<TypeId, SemanticAnalysisError>)
        ensures
            r matches Ok(t) && t == prim(PrimitiveType::Unit),
    {
        match statement {
            Statement::FunctionDeclaration(func_decl) => self.validate_function_declaration(func_decl),
            Statement::Let(let_stmt) => {
                match self.validate_type_exists(let_stmt.expr_type) {
                    Ok(_) => {},
                    Err(x) => return Err(x),
                }
                Ok(prim_id(PrimitiveType::Unit))
            },
            _ => Ok(prim_id(PrimitiveType::Unit)),
        }
    }
}

/// The type checking services together: assignments and calls, coercion,
/// inference and validation.
pub struct TypeCheckingCoordinator<'a> {
    checker: TypeChecker<'a>,
    coercion: TypeCoercion<'a>,
    _inference: TypeInference,
    validation: TypeValidation<'a>,
}

impl<'a> TypeCheckingCoordinator<'a> {
    /// A coordinator over `context`.
    pub fn new(context: &'a AnalysisContext) -> (c: TypeCheckingCoordinator<'a>)
        ensures
            c.ctx() == context,
    {
        TypeCheckingCoordinator {
            checker: TypeChecker::new(context),
            coercion: TypeCoercion::new(context),
            _inference: TypeInference {},
            validation: TypeValidation::new(context),
        }
    }

    /// The context the coordinator works over.
    pub closed spec fn ctx(&self) -> &'a AnalysisContext {
        self.checker.ctx()
    }

    /// Whether a value of type `source` may be assigned to a place of type
    /// `target`.
    pub fn check_assignment_compatibility(&self, target: &TypeId, source: &TypeId) -> (b: bool)
        ensures
            b == assignment_compatible(*target, *source),
    {
        self.checker.check_assignment_compatibility(target, source)
    }

    /// The type of a call of a function of type `function_type` with
    /// arguments of the types `argument_types`.
    pub fn check_function_call(&self, function_type: &TypeId, argument_types: &[TypeId]) -> (r: Result<
        TypeId,
        SemanticAnalysisError,
    >)
        ensures
            res_view(r) == function_call_type(self.ctx()@, *function_type, argument_types@),
    {
        self.checker.check_function_call(function_type, argument_types)
    }

    /// The type of arithmetic on operands of different types.
    pub fn check_mixed_arithmetic_with_coercion(&self, left_type: &TypeId, right_type: &TypeId, bin_expr: &BinaryExpr) -> (r:
        Result<TypeId, SemanticAnalysisError>)
        ensures
            res_view(r) == check_mixed_arithmetic(
                bin_expr.operator,
                (*bin_expr.left)@,
                *left_type,
                (*bin_expr.right)@,
                *right_type,
                bin_expr.location,
            ),
    {
        self.coercion.check_mixed_arithmetic_operation(left_type, right_type, bin_expr)
    }

    /// The type a variable declaration settles on, given the type of its
    /// initial value.
    pub fn determine_let_statement_type(&self, let_stmt: &LetStatement, expr_type: TypeId) -> (r: Result<
        TypeId,
        SemanticAnalysisError,
    >)
        ensures
            res_view(r) == let_type(self.ctx()@, let_stmt.name@, let_stmt.expr_type, let_stmt.value@, let_stmt.location, expr_type),
    {
        determine_let_statement_type(self.checker.context(), let_stmt, expr_type)
    }

    /// The type an unspecified literal settles on.
    pub fn finalize_inferred_type(&self, type_id: TypeId) -> (t: TypeId)
        ensures
            t == finalized(type_id),
    {
        finalize_inferred_type(type_id)
    }

    /// Checks that a literal without suffix suits `target_type`, when that
    /// is an integer or a float type; any other target passes.
    pub fn validate_literal_range(&self, expr: &Expression, target_type: &TypeId) -> (r: Result<TypeId, SemanticAnalysisError>)
        ensures
            res_view(r) == if is_integer(*target_type) {
                check_int_literal(expr@, *target_type)
            } else if is_float(*target_type) {
                check_float_literal(expr@, *target_type)
            } else {
                Ok(*target_type)
            },
    {
        if self.checker.is_integer_type(target_type) {
            check_unspecified_int_for_type(self.checker.context(), expr, target_type)
        } else if self.checker.is_float_type(target_type) {
            check_unspecified_float_for_type(self.checker.context(), expr, target_type)
        } else {
            Ok(*target_type)
        }
    }

    /// Validates the types a function declaration names; returns the unit
    /// type.
    pub fn validate_function_declaration(&self, func_decl: &FunctionDeclarationStmt) -> (r: Result<TypeId, SemanticAnalysisError>)
        ensures
            r matches Ok(t) && t == prim(PrimitiveType::Unit),
    {
        self.validation.validate_function_declaration(func_decl)
    }

    /// Whether a type is numeric.
    pub fn is_numeric_type(&self, type_id: &TypeId) -> (b: bool)
        ensures
            b == is_numeric(*type_id),
    {
        self.checker.is_numeric_type(type_id)
    }

    /// Whether a type is one of the integer types.
    pub fn is_integer_type(&self, type_id: &TypeId) -> (b: bool)
        ensures
            b == is_integer(*type_id),
    {
        self.checker.is_integer_type(type_id)
    }

    /// Whether a type is one of the float types.
    pub fn is_float_type(&self, type_id: &TypeId) -> (b: bool)
        ensures
            b == is_float(*type_id),
    {
        self.checker.is_float_type(type_id)
    }

    /// Whether a type is one of the unsigned integer types.
    pub fn is_unsigned_integer_type(&self, type_id: &TypeId) -> (b: bool)
        ensures
            b == is_unsigned(*type_id),
    {
        self.checker.is_unsigned_integer_type(type_id)
    }

    /// Whether a literal without suffix of type `source` may stand for a
    /// value of type `target`.
    pub fn can_coerce_unspecified_literal(&self, source: &TypeId, target: &TypeId) -> (b: bool)
        ensures
            b == can_coerce(*source, *target),
    {
        self.coercion.can_coerce(source, target)
    }
}

} // verus!
