use slang::analysis_error::SemanticAnalysisError;
use slang::analysis_context::{AnalysisContext, SymbolInfo};
use slang::ast::{PrimitiveType, SymbolKind, SymbolTable, TypeId};
use slang::compiler_error::CompilerError;
use slang::error_codes::ErrorCode;
use slang::float_range::text_within_bound;
use slang::lexer::Lexer;
use slang::location::Location;
use slang::parser::{parse, tokens_fit_for_parsing};
use slang::semantic_analyzer::{check_expression, execute, SemanticAnalyzer};
use slang::operations::{
    check_logical_not_operation, check_logical_operation, check_negation_operation, check_relational_operation,
    check_same_type_arithmetic, check_unary_operation, is_numeric_type, is_signed_numeric_type, is_unsigned_integer_type,
};
use slang::syntax::{
    BinaryExpr, BinaryOperator, Expression, FloatLiteral, LetStatement, LiteralExpr, LiteralValue, Statement, UnaryExpr,
    UnaryOperator,
};
use slang::validation::{TypeChecker, TypeCheckingCoordinator, TypeCoercion, TypeValidation};
use slang::type_system::{
    check_mixed_arithmetic_operation, check_unspecified_float_for_type, check_unspecified_int_for_type,
    determine_let_statement_type, handle_unspecified_float_assignment, handle_unspecified_int_assignment,
    is_float_type, is_integer_type, is_unsigned_type,
};

fn parse_source(source: &str) -> Vec<Statement> {
    parse_in(source, &mut AnalysisContext::new())
}

fn parse_in(source: &str, context: &mut AnalysisContext) -> Vec<Statement> {
    let lexed = Lexer::new(source).tokenize().ok().unwrap();
    assert!(tokens_fit_for_parsing(&lexed.tokens));
    let symbols = SymbolTable::with_primitive_types();
    parse(&lexed.tokens, &lexed.line_info, &symbols, context).ok().unwrap()
}

fn analyze_source(source: &str) -> Result<(), Vec<CompilerError>> {
    let mut context = AnalysisContext::new();
    let statements = parse_in(source, &mut context);
    execute(&statements, &mut context)
}

fn single_error(source: &str) -> CompilerError {
    let mut errors = analyze_source(source).err().unwrap();
    assert_eq!(errors.len(), 1);
    errors.remove(0)
}

fn t(p: PrimitiveType) -> TypeId {
    p.type_id()
}

#[test]
fn well_typed_program_passes() {
    let source = "let x: i32 = 5;\nlet mut y = x + 1;\ny = 7;\nfn add(a: i32, b: i32) -> i32 { return a + b; }\nlet z: i32 = add(x, 2);\nprint_value(z);";
    assert!(analyze_source(source).is_ok());
}

#[test]
fn negated_literal_for_unsigned_variable_is_out_of_range() {
    let e = single_error("let x: u32 = -5;");
    assert_eq!(e.error_code, ErrorCode::ValueOutOfRange);
    assert_eq!(e.message, "Integer literal -5 is out of range for type u32");
}

#[test]
fn literal_beyond_i32_is_out_of_range() {
    let e = single_error("let x: i32 = 3000000000;");
    assert_eq!(e.error_code, ErrorCode::ValueOutOfRange);
    assert_eq!(e.message, "Integer literal 3000000000 is out of range for type i32");
}

#[test]
fn literal_within_u32_is_accepted() {
    assert!(analyze_source("let x: u32 = 4294967295;").is_ok());
    let e = single_error("let x: u32 = 4294967296;");
    assert_eq!(e.message, "Integer literal 4294967296 is out of range for type u32");
}

#[test]
fn unspecified_literals_settle_on_i64_and_f64() {
    let statements = parse_source("let a = 1; let b = 2.5;");
    let mut analyzer = SemanticAnalyzer::new(AnalysisContext::new());
    assert!(analyzer.analyze(&statements).is_ok());
    let context = analyzer.into_context();
    assert_eq!(
        context.lookup_symbol("a"),
        Some(SymbolInfo { kind: SymbolKind::Variable, type_id: t(PrimitiveType::I64), is_mutable: false })
    );
    assert_eq!(
        context.lookup_symbol("b"),
        Some(SymbolInfo { kind: SymbolKind::Variable, type_id: t(PrimitiveType::F64), is_mutable: false })
    );
}

#[test]
fn native_print_value_takes_one_argument_of_any_type() {
    assert!(analyze_source("print_value(true); print_value(\"text\"); print_value(1);").is_ok());
    let e = single_error("print_value(1, 2);");
    assert_eq!(e.error_code, ErrorCode::ArgumentCountMismatch);
    assert_eq!(e.message, "Function 'print_value' expects 1 arguments, but got 2");
}

#[test]
fn arithmetic_on_boolean_and_literal_is_a_mismatch() {
    let e = single_error("let a = true + 1;");
    assert_eq!(e.error_code, ErrorCode::OperationTypeMismatch);
    assert_eq!(e.message, "Type mismatch: cannot apply '+' operator on bool and int");
}

#[test]
fn arithmetic_on_two_booleans_is_a_mismatch() {
    let e = single_error("let a = true * false;");
    assert_eq!(e.message, "Type mismatch: cannot apply '*' operator on bool and bool");
}

#[test]
fn strings_concatenate_but_do_not_subtract() {
    assert!(analyze_source("let s = \"a\" + \"b\";").is_ok());
    let e = single_error("let s = \"a\" - \"b\";");
    assert_eq!(e.message, "Type mismatch: cannot apply '-' operator on string and string");
}

#[test]
fn logical_operators_need_booleans() {
    assert!(analyze_source("let b = true && false || true;").is_ok());
    let e = single_error("let b = 1 && true;");
    assert_eq!(e.error_code, ErrorCode::LogicalOperatorTypeMismatch);
    assert_eq!(e.message, "Logical operator '&&' requires boolean operands, got int and bool");
}

#[test]
fn ordering_needs_numbers() {
    assert!(analyze_source("let x: i32 = 1; let b = x < 2;").is_ok());
    let e = single_error("let b = true < false;");
    assert_eq!(e.error_code, ErrorCode::OperationTypeMismatch);
    assert_eq!(e.message, "Type mismatch: cannot apply '<' operator on bool and bool");
    assert!(analyze_source("let b = true == false;").is_ok());
}

#[test]
fn undefined_variable_is_reported() {
    let e = single_error("y;");
    assert_eq!(e.error_code, ErrorCode::UndefinedVariable);
    assert_eq!(e.message, "Undefined variable: y");
    assert_eq!(e.line, 1);
    assert_eq!(e.column, 1);
}

#[test]
fn undefined_function_is_reported() {
    let e = single_error("missing(1);");
    assert_eq!(e.error_code, ErrorCode::UndefinedFunction);
    assert_eq!(e.message, "Undefined function: missing");
}

#[test]
fn return_outside_function_is_reported() {
    let e = single_error("return 1;");
    assert_eq!(e.error_code, ErrorCode::ReturnOutsideFunction);
    assert_eq!(e.message, "Return statement outside of function");
}

#[test]
fn return_of_wrong_type_is_reported() {
    let e = single_error("fn f() -> bool { return 1; }");
    assert_eq!(e.error_code, ErrorCode::ReturnTypeMismatch);
    assert_eq!(e.message, "Type mismatch: function returns bool but got int");
    assert!(analyze_source("fn g() -> u32 { return 7; }").is_ok());
}

#[test]
fn missing_return_value_is_reported() {
    let e = single_error("fn f() -> i32 { return; }");
    assert_eq!(e.error_code, ErrorCode::MissingReturnValue);
    assert_eq!(e.message, "Type mismatch: function returns i32 but no return value provided");
    assert!(analyze_source("fn g() { return; }").is_ok());
}

#[test]
fn assignment_to_immutable_variable_is_reported() {
    let e = single_error("let x = 1; x = 2;");
    assert_eq!(e.error_code, ErrorCode::AssignmentToImmutableVariable);
    assert_eq!(e.message, "Cannot assign to immutable variable 'x'");
}

#[test]
fn assignment_of_another_type_is_reported() {
    let e = single_error("let mut x: i32 = 1; x = true;");
    assert_eq!(e.error_code, ErrorCode::TypeMismatch);
    assert_eq!(e.message, "Type mismatch: variable assignment to variable 'x' is i32 but expression is bool");
}

#[test]
fn variable_defined_twice_in_one_scope_is_reported() {
    let e = single_error("let x = 1; let x = 2;");
    assert_eq!(e.error_code, ErrorCode::VariableRedefinition);
    assert_eq!(e.message, "Variable 'x' already defined");
}

#[test]
fn variable_may_shadow_outer_variable() {
    assert!(analyze_source("let x = 1; { let x = true; }").is_ok());
}

#[test]
fn variable_named_like_type_conflicts() {
    let e = single_error("let i32 = 5;");
    assert_eq!(e.error_code, ErrorCode::SymbolRedefinition);
    assert_eq!(
        e.message,
        "Symbol 'i32' of kind 'variable (conflicts with type)' is already defined or conflicts with an existing symbol."
    );
}

#[test]
fn variable_named_like_function_conflicts() {
    let e = single_error("let print_value = 5;");
    assert_eq!(
        e.message,
        "Symbol 'print_value' of kind 'variable (conflicts with function)' is already defined or conflicts with an existing symbol."
    );
}

#[test]
fn function_defined_twice_is_reported() {
    let e = single_error("fn f() { } fn f() { }");
    assert_eq!(e.error_code, ErrorCode::SymbolRedefinition);
    assert_eq!(e.message, "Symbol 'f' of kind 'function' is already defined or conflicts with an existing symbol.");
}

#[test]
fn repeated_parameter_is_reported() {
    let e = single_error("fn f(a: i32, a: i32) { }");
    assert_eq!(e.message, "Symbol 'a' of kind 'parameter' is already defined or conflicts with an existing symbol.");
}

#[test]
fn struct_type_name_conflicts_with_later_variable() {
    let e = single_error("struct Point { x: i32, y: i32 }; let Point = 1;");
    assert_eq!(
        e.message,
        "Symbol 'Point' of kind 'variable (conflicts with type)' is already defined or conflicts with an existing symbol."
    );
    let e2 = single_error("struct Point { x: i32 }; struct Point { y: i32 };");
    assert_eq!(e2.message, "Symbol 'Point' of kind 'type' is already defined or conflicts with an existing symbol.");
}

#[test]
fn unary_operators_check_their_operand() {
    let e = single_error("!5;");
    assert_eq!(e.error_code, ErrorCode::InvalidUnaryOperation);
    assert_eq!(e.message, "Boolean not operator '!' can only be applied to boolean types, but got int");
    let e2 = single_error("-true;");
    assert_eq!(e2.message, "Cannot negate non-numeric type 'bool'");
    let e3 = single_error("let x: u32 = 1; let y = -x;");
    assert_eq!(e3.message, "Cannot negate unsigned type");
    assert!(analyze_source("let x: i32 = 1; let y = -x; let z = -5;").is_ok());
}

#[test]
fn conditional_branches_must_agree() {
    assert!(analyze_source("let c = true; let y = if c { 1 } else { 2 };").is_ok());
    let e = single_error("let c = true; let y = if c { 1 } else { false };");
    assert_eq!(e.error_code, ErrorCode::TypeMismatch);
    assert_eq!(
        e.message,
        "Type mismatch: variable conditional expression branches must have the same type is int but expression is bool"
    );
}

#[test]
fn if_condition_must_be_boolean() {
    let e = single_error("if 1 { print_value(1); }");
    assert_eq!(e.error_code, ErrorCode::TypeMismatch);
    assert_eq!(e.message, "Type mismatch: variable if condition is bool but expression is int");
}

#[test]
fn function_values_carry_their_function_type() {
    let e = single_error("fn f(a: i32) -> i32 { return a; }\nlet g = f;\nlet h: i32 = g;");
    assert_eq!(e.error_code, ErrorCode::TypeMismatch);
    assert_eq!(e.message, "Type mismatch: variable h is i32 but expression is fn(i32) -> i32");
    assert_eq!(e.line, 3);
    assert!(analyze_source("fn f(a: i32) -> i32 { return a; }\nlet g = f;\nlet h: i32 = g(2);").is_ok());
}

#[test]
fn argument_of_wrong_type_is_reported() {
    let e = single_error("fn f(a: bool) { }\nf(1);");
    assert_eq!(e.error_code, ErrorCode::ArgumentTypeMismatch);
    assert_eq!(e.message, "Type mismatch: function 'f' expects argument 1 to be bool, but got int");
}

#[test]
fn every_statement_is_analysed_after_an_error() {
    let errors = analyze_source("a;\nb;\nlet c = 1;\nc = 2;").err().unwrap();
    assert_eq!(errors.len(), 3);
    assert_eq!(errors[0].message, "Undefined variable: a");
    assert_eq!(errors[1].message, "Undefined variable: b");
    assert_eq!(errors[2].message, "Cannot assign to immutable variable 'c'");
    assert_eq!(errors[1].line, 2);
}

#[test]
fn field_of_unspecified_type_is_rejected() {
    let mut statements = parse_source("struct P { x: i32 };");
    match &mut statements[0] {
        Statement::TypeDefinition(d) => d.fields.push((String::from("y"), t(PrimitiveType::UnspecifiedInt))),
        _ => panic!("not a type definition"),
    }
    let mut context = AnalysisContext::new();
    let errors = execute(&statements, &mut context).err().unwrap();
    assert_eq!(errors[0].error_code, ErrorCode::InvalidFieldType);
    assert_eq!(
        errors[0].message,
        "Invalid type 'int' for field 'y' in struct 'P'. Fields cannot be of unknown or unspecified type."
    );
}

#[test]
fn literal_expressions_have_their_own_type() {
    let context = AnalysisContext::new();
    let lit = Expression::Literal(LiteralExpr {
        value: LiteralValue::UnspecifiedFloat(FloatLiteral::Text(String::from("2.5"))),
        expr_type: t(PrimitiveType::UnspecifiedFloat),
        location: Location::new(0, 1, 1, 3),
    });
    assert_eq!(check_expression(&context, &lit).ok(), Some(t(PrimitiveType::UnspecifiedFloat)));
}

#[test]
fn context_scopes_and_registry() {
    let mut context = AnalysisContext::new();
    assert_eq!(
        context.lookup_symbol("bool"),
        Some(SymbolInfo { kind: SymbolKind::Type, type_id: t(PrimitiveType::Bool), is_mutable: false })
    );
    assert!(context.define_symbol("v", SymbolKind::Variable, t(PrimitiveType::I32), true));
    assert!(!context.define_symbol("v", SymbolKind::Variable, t(PrimitiveType::I64), true));
    context.begin_scope();
    assert!(context.define_symbol("v", SymbolKind::Variable, t(PrimitiveType::I64), false));
    assert_eq!(context.lookup_symbol("v").unwrap().type_id, t(PrimitiveType::I64));
    context.end_scope();
    assert_eq!(context.lookup_symbol("v").unwrap().type_id, t(PrimitiveType::I32));
    let f1 = context.register_function_type(vec![t(PrimitiveType::I32)], t(PrimitiveType::Bool));
    let f2 = context.register_function_type(vec![t(PrimitiveType::I32)], t(PrimitiveType::Bool));
    let f3 = context.register_function_type(vec![], t(PrimitiveType::Bool));
    assert_eq!(f1, TypeId(12));
    assert_eq!(f1, f2);
    assert_eq!(f3, TypeId(13));
    assert!(context.is_function_type(f1));
    assert_eq!(context.get_type_name(f1), "fn(i32) -> bool");
    assert_eq!(context.get_type_name(f3), "fn() -> bool");
    assert_eq!(context.register_struct_type("P", vec![(String::from("x"), t(PrimitiveType::I32))]), Some(TypeId(14)));
    assert_eq!(context.register_struct_type("P", vec![]), None);
    assert_eq!(context.get_type_name(TypeId(14)), "P");
    assert!(context.check_value_in_range(-2147483648, t(PrimitiveType::I32)));
    assert!(!context.check_value_in_range(-1, t(PrimitiveType::U64)));
    assert!(!context.check_value_in_range(1, t(PrimitiveType::Bool)));
}

#[test]
fn identical_errors_are_collected_once() {
    let at = Location::new(0, 1, 1, 1);
    let statements = vec![
        Statement::Expression(Expression::Variable(String::from("y"), at)),
        Statement::Expression(Expression::Variable(String::from("y"), at)),
        Statement::Expression(Expression::Variable(String::from("z"), at)),
    ];
    let mut context = AnalysisContext::new();
    let errors = execute(&statements, &mut context).err().unwrap();
    assert_eq!(errors.len(), 2);
    assert_eq!(errors[0].message, "Undefined variable: y");
    assert_eq!(errors[1].message, "Undefined variable: z");
}

#[test]
fn block_scope_closes_after_block() {
    let e = single_error("{ let inner = 1; }\ninner;");
    assert_eq!(e.message, "Undefined variable: inner");
    assert_eq!(e.line, 2);
    let e2 = single_error("fn f(p: i32) { let q = p; }\nq;");
    assert_eq!(e2.message, "Undefined variable: q");
}

#[test]
fn context_keeps_what_analysis_defined() {
    let statements = parse_source("let mut total: u64 = 0; fn g() -> bool { return true; }");
    let mut context = AnalysisContext::new();
    assert!(execute(&statements, &mut context).is_ok());
    assert_eq!(
        context.lookup_symbol("total"),
        Some(SymbolInfo { kind: SymbolKind::Variable, type_id: t(PrimitiveType::U64), is_mutable: true })
    );
    let g = context.lookup_symbol("g").unwrap();
    assert_eq!(g.kind, SymbolKind::Function);
    assert_eq!(context.get_type_name(g.type_id), "fn() -> bool");
    assert!(context.lookup_symbol("print_value").is_some());
}

fn int_literal_expr(n: i64, at: Location) -> Expression {
    Expression::Literal(LiteralExpr {
        value: LiteralValue::UnspecifiedInteger(n),
        expr_type: t(PrimitiveType::UnspecifiedInt),
        location: at,
    })
}

#[test]
fn operator_rules_on_types() {
    let context = AnalysisContext::new();
    let at = Location::new(4, 1, 5, 2);
    let b = t(PrimitiveType::Bool);
    assert_eq!(check_logical_operation(&b, &b, &BinaryOperator::Or, &at).ok(), Some(b));
    assert!(check_logical_operation(&b, &t(PrimitiveType::I32), &BinaryOperator::And, &at).is_err());
    assert_eq!(
        check_relational_operation(&context, &t(PrimitiveType::UnspecifiedInt), &t(PrimitiveType::U64), &BinaryOperator::LessThanOrEqual, &at).ok(),
        Some(b)
    );
    assert!(check_relational_operation(&context, &t(PrimitiveType::Unit), &t(PrimitiveType::Unit), &BinaryOperator::Equal, &at).is_err());
    assert!(check_relational_operation(&context, &t(PrimitiveType::String), &t(PrimitiveType::String), &BinaryOperator::GreaterThan, &at).is_err());
    assert_eq!(check_same_type_arithmetic(&context, &t(PrimitiveType::F32), &BinaryOperator::Divide, &at).ok(), Some(t(PrimitiveType::F32)));
    assert_eq!(check_same_type_arithmetic(&context, &t(PrimitiveType::String), &BinaryOperator::Add, &at).ok(), Some(t(PrimitiveType::String)));
    assert!(check_same_type_arithmetic(&context, &t(PrimitiveType::String), &BinaryOperator::Multiply, &at).is_err());
    assert!(is_numeric_type(&context, &t(PrimitiveType::UnspecifiedFloat)));
    assert!(!is_numeric_type(&context, &b));
    assert!(is_signed_numeric_type(&t(PrimitiveType::F64)));
    assert!(!is_signed_numeric_type(&t(PrimitiveType::U32)));
    assert!(is_unsigned_integer_type(&t(PrimitiveType::U32)));
}

#[test]
fn unary_rules_on_types() {
    let context = AnalysisContext::new();
    let at = Location::new(0, 1, 1, 1);
    let negated = UnaryExpr {
        operator: UnaryOperator::Negate,
        right: Box::new(int_literal_expr(3, at)),
        expr_type: t(PrimitiveType::Unknown),
        location: at,
    };
    assert_eq!(
        check_negation_operation(&context, &negated, &t(PrimitiveType::UnspecifiedInt)).ok(),
        Some(t(PrimitiveType::UnspecifiedInt))
    );
    assert_eq!(check_unary_operation(&context, &negated, &t(PrimitiveType::I64)).ok(), Some(t(PrimitiveType::I64)));
    let e = check_negation_operation(&context, &negated, &t(PrimitiveType::U64)).err().unwrap();
    assert_eq!(e.code(), ErrorCode::InvalidUnaryOperation);
    assert_eq!(check_logical_not_operation(&t(PrimitiveType::Bool), &at).ok(), Some(t(PrimitiveType::Bool)));
    assert!(check_logical_not_operation(&t(PrimitiveType::I32), &at).is_err());
}

#[test]
fn literal_rules_on_types() {
    let context = AnalysisContext::new();
    let at = Location::new(8, 1, 9, 3);
    let types = SymbolTable::with_primitive_types();
    assert!(is_integer_type(&context, &t(PrimitiveType::U32)));
    assert!(!is_integer_type(&context, &t(PrimitiveType::UnspecifiedInt)));
    assert!(is_float_type(&context, &t(PrimitiveType::F32)));
    assert!(is_unsigned_type(&context, &t(PrimitiveType::U64)));
    let big = int_literal_expr(70000, at);
    assert_eq!(check_unspecified_int_for_type(&context, &big, &t(PrimitiveType::I64)).ok(), Some(t(PrimitiveType::I64)));
    let e = check_unspecified_int_for_type(&context, &big, &t(PrimitiveType::Bool)).err().unwrap();
    assert_eq!(e.format_message(&types), "Integer literal 70000 is out of range for type bool");
    let minus_two = Expression::Unary(UnaryExpr {
        operator: UnaryOperator::Negate,
        right: Box::new(int_literal_expr(2, at)),
        expr_type: t(PrimitiveType::Unknown),
        location: at,
    });
    let e2 = check_unspecified_int_for_type(&context, &minus_two, &t(PrimitiveType::U32)).err().unwrap();
    assert_eq!(e2.format_message(&types), "Integer literal -2 is out of range for type u32");
    let half = Expression::Literal(LiteralExpr {
        value: LiteralValue::UnspecifiedFloat(FloatLiteral::Text(String::from("0.5"))),
        expr_type: t(PrimitiveType::UnspecifiedFloat),
        location: at,
    });
    assert_eq!(check_unspecified_float_for_type(&context, &half, &t(PrimitiveType::F32)).ok(), Some(t(PrimitiveType::F32)));
    assert!(check_unspecified_float_for_type(&context, &half, &t(PrimitiveType::I32)).is_err());
    let declared_u8ish = LetStatement {
        name: String::from("small"),
        is_mutable: false,
        value: int_literal_expr(5, at),
        expr_type: t(PrimitiveType::U32),
        location: at,
    };
    let uint = t(PrimitiveType::UnspecifiedInt);
    assert_eq!(determine_let_statement_type(&context, &declared_u8ish, uint).ok(), Some(t(PrimitiveType::U32)));
    assert_eq!(handle_unspecified_int_assignment(&context, &declared_u8ish, &uint).ok(), Some(t(PrimitiveType::U32)));
    let e3 = handle_unspecified_float_assignment(&context, &declared_u8ish, &t(PrimitiveType::UnspecifiedFloat)).err().unwrap();
    assert_eq!(e3.format_message(&types), "Type mismatch: variable small is u32 but expression is unknown");
    let sum = BinaryExpr {
        left: Box::new(int_literal_expr(1, at)),
        operator: BinaryOperator::Add,
        right: Box::new(int_literal_expr(2, at)),
        expr_type: t(PrimitiveType::Unknown),
        location: at,
    };
    assert_eq!(
        check_mixed_arithmetic_operation(&context, &uint, &t(PrimitiveType::I32), &sum).ok(),
        Some(t(PrimitiveType::I32))
    );
    let e4 = check_mixed_arithmetic_operation(&context, &t(PrimitiveType::Bool), &t(PrimitiveType::I32), &sum).err().unwrap();
    assert_eq!(e4.format_message(&types), "Type mismatch: cannot apply '+' operator on bool and i32");
}

#[test]
fn type_checker_checks_calls_by_type() {
    let mut context = AnalysisContext::new();
    let f = context.register_function_type(vec![t(PrimitiveType::I64), t(PrimitiveType::Bool)], t(PrimitiveType::String));
    let types = SymbolTable::with_primitive_types();
    let checker = TypeChecker::new(&context);
    assert_eq!(
        checker.check_function_call(&f, &[t(PrimitiveType::UnspecifiedInt), t(PrimitiveType::Bool)]).ok(),
        Some(t(PrimitiveType::String))
    );
    let e = checker.check_function_call(&f, &[t(PrimitiveType::I64)]).err().unwrap();
    assert_eq!(e.format_message(&types), "Function 'unknown' expects 2 arguments, but got 1");
    let e2 = checker.check_function_call(&f, &[t(PrimitiveType::I64), t(PrimitiveType::I64)]).err().unwrap();
    assert_eq!(e2.format_message(&types), "Type mismatch: function 'unknown' expects argument 2 to be bool, but got i64");
    let e3 = checker.check_function_call(&t(PrimitiveType::I32), &[]).err().unwrap();
    assert_eq!(e3.format_message(&types), "Undefined function: unknown");
    assert!(checker.check_assignment_compatibility(&t(PrimitiveType::F32), &t(PrimitiveType::UnspecifiedFloat)));
    assert!(!checker.check_assignment_compatibility(&t(PrimitiveType::F32), &t(PrimitiveType::UnspecifiedInt)));
    assert!(checker.can_coerce_unspecified_literal(&t(PrimitiveType::UnspecifiedInt), &t(PrimitiveType::U32)));
    assert!(checker.is_unsigned_integer_type(&t(PrimitiveType::U32)));
    assert!(checker.is_numeric_type(&t(PrimitiveType::I32)));
}

#[test]
fn coordinator_delegates_to_its_services() {
    let context = AnalysisContext::new();
    let coordinator = TypeCheckingCoordinator::new(&context);
    let at = Location::new(0, 1, 1, 2);
    let huge = int_literal_expr(5000000000, at);
    assert!(coordinator.validate_literal_range(&huge, &t(PrimitiveType::U32)).is_err());
    assert_eq!(coordinator.validate_literal_range(&huge, &t(PrimitiveType::U64)).ok(), Some(t(PrimitiveType::U64)));
    assert_eq!(coordinator.validate_literal_range(&huge, &t(PrimitiveType::String)).ok(), Some(t(PrimitiveType::String)));
    assert_eq!(coordinator.finalize_inferred_type(t(PrimitiveType::UnspecifiedInt)), t(PrimitiveType::I64));
    assert!(coordinator.can_coerce_unspecified_literal(&t(PrimitiveType::UnspecifiedFloat), &t(PrimitiveType::F64)));
    assert!(!coordinator.is_float_type(&t(PrimitiveType::I32)));
    let coercion = TypeCoercion::new(&context);
    assert!(!coercion.can_coerce(&t(PrimitiveType::Bool), &t(PrimitiveType::Bool)));
    let validation = TypeValidation::new(&context);
    assert_eq!(validation.validate_type_exists(t(PrimitiveType::U64)).ok(), Some(t(PrimitiveType::U64)));
    let statements = parse_source("fn f(a: i32) -> bool { return true; }");
    assert_eq!(validation.validate_statement_types(&statements[0]).ok(), Some(t(PrimitiveType::Unit)));
}

const F32_MAX_TEXT: &str = "340282346638528859811704183484516925440";
const F64_MAX_TEXT: &str = "179769313486231570814527423731704356798070567525844996598917476803157260780028538760589558632766878171540458953514382464234321326889464182768467546703537516986049910576551282076245490090389328944075868508455133942304583236903222948165808559332123348274797826204144723168738177180919299881250404026184124858368";

#[test]
fn float_texts_compare_exactly_with_the_largest_value() {
    assert!(text_within_bound("3.5", F32_MAX_TEXT));
    assert!(text_within_bound("1e38", F32_MAX_TEXT));
    assert!(!text_within_bound("1e39", F32_MAX_TEXT));
    assert!(!text_within_bound("1.0e39", F32_MAX_TEXT));
    assert!(!text_within_bound("-5E38", F32_MAX_TEXT));
    assert!(text_within_bound("0.0000", F32_MAX_TEXT));
    assert!(text_within_bound("340282346638528859811704183484516925440.0", F32_MAX_TEXT));
    assert!(!text_within_bound("340282346638528859811704183484516925441.0", F32_MAX_TEXT));
    assert!(text_within_bound("34028234663852885981170418348451692544.09e1", F32_MAX_TEXT) == false);
    assert!(text_within_bound("0.00340282346638528859811704183484516925440e41", F32_MAX_TEXT));
    assert!(text_within_bound("1e-99999999999999999999999", F32_MAX_TEXT));
    assert!(!text_within_bound("1e99999999999999999999999", F64_MAX_TEXT));
    assert!(text_within_bound("1e300", F64_MAX_TEXT));
    assert!(!text_within_bound("1e400", F64_MAX_TEXT));
    assert!(!text_within_bound("inf", F64_MAX_TEXT));
    assert!(!text_within_bound("1.2.3", F64_MAX_TEXT));
    assert!(!text_within_bound("1", "012"));
}

#[test]
fn float_literal_beyond_f32_is_out_of_range() {
    assert!(analyze_source("let y: f32 = 1.5e38;").is_ok());
    let e = single_error("let x: f32 = 1.0e39;");
    assert_eq!(e.error_code, ErrorCode::ValueOutOfRange);
    assert_eq!(e.message, "Float literal 1.0e39 is out of range for type f32");
    assert!(analyze_source("let z: f64 = 1.0e39;").is_ok());
    let context = AnalysisContext::new();
    assert!(context.check_float_value_in_range(&FloatLiteral::Integer(-9223372036854775808), t(PrimitiveType::F32)));
    assert!(!context.check_float_value_in_range(&FloatLiteral::Integer(1), t(PrimitiveType::I32)));
    assert!(!context.check_float_value_in_range(&FloatLiteral::Text(String::from("2e308")), t(PrimitiveType::F64)));
}

#[test]
fn literal_range_validation_refuses_out_of_range_literals() {
    let context = AnalysisContext::new();
    let validation = TypeValidation::new(&context);
    let huge = LiteralValue::UnspecifiedInteger(5000000000);
    let err = validation.validate_literal_range(&huge, t(PrimitiveType::I32)).err().unwrap();
    match err {
        SemanticAnalysisError::ValueOutOfRange { value, target_type, is_float, .. } => {
            assert_eq!(value, "5000000000");
            assert_eq!(target_type, t(PrimitiveType::I32));
            assert!(!is_float);
        }
        _ => panic!("expected a range error"),
    }
    assert_eq!(validation.validate_literal_range(&LiteralValue::UnspecifiedInteger(5), t(PrimitiveType::I32)).ok(), Some(t(PrimitiveType::I32)));
    assert!(validation.validate_literal_range(&LiteralValue::UnspecifiedInteger(-1), t(PrimitiveType::U64)).is_err());
    assert_eq!(validation.validate_literal_range(&huge, t(PrimitiveType::Bool)).ok(), Some(t(PrimitiveType::Bool)));
    let big_float = LiteralValue::UnspecifiedFloat(FloatLiteral::Text("1e39".to_string()));
    assert!(validation.validate_literal_range(&big_float, t(PrimitiveType::F32)).is_err());
    assert_eq!(validation.validate_literal_range(&big_float, t(PrimitiveType::F64)).ok(), Some(t(PrimitiveType::F64)));
    assert_eq!(validation.validate_literal_range(&LiteralValue::Boolean(true), t(PrimitiveType::I32)).ok(), Some(t(PrimitiveType::I32)));
}

#[test]
fn function_and_unit_types_can_be_written_in_annotations() {
    let mut context = AnalysisContext::new();
    let statements = parse_in("fn g(a: i32) -> bool { return true; } let f: fn(i32) -> bool = g; let u: () = print_value(1);", &mut context);
    match &statements[1] {
        Statement::Let(l) => {
            assert_eq!(context.function_type(l.expr_type), Some((vec![t(PrimitiveType::I32)], t(PrimitiveType::Bool))));
            assert_eq!(context.get_type_name(l.expr_type), "fn(i32) -> bool");
        }
        _ => panic!("expected a let statement"),
    }
    match &statements[2] {
        Statement::Let(l) => assert_eq!(l.expr_type, t(PrimitiveType::Unit)),
        _ => panic!("expected a let statement"),
    }
    assert!(analyze_source("fn g(a: i32) -> bool { return true; } let f: fn(i32) -> bool = g; let b: bool = f(1);").is_ok());
    assert!(analyze_source("fn g(a: i32) -> bool { return true; } let f: fn(i64) -> bool = g;").is_err());
}
