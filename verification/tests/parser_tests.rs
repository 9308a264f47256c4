use slang::analysis_context::AnalysisContext;
use slang::ast::{PrimitiveType, SymbolKind, SymbolTable, TypeId};
use slang::compiler_error::CompilerError;
use slang::error_codes::ErrorCode;
use slang::lexer::Lexer;
use slang::parser::{parse, tokens_fit_for_parsing, ParseError, TokenPosition};
use slang::line_info::LineInfo;
use slang::syntax::{BinaryOperator, Expression, FloatLiteral, LiteralValue, Statement, UnaryOperator};
use slang::token::{Token, Tokentype};

fn parse_source(source: &str) -> Result<Vec<Statement>, Vec<CompilerError>> {
    let lexed = Lexer::new(source).tokenize().ok().unwrap();
    assert!(tokens_fit_for_parsing(&lexed.tokens));
    let symbols = SymbolTable::with_primitive_types();
    parse(&lexed.tokens, &lexed.line_info, &symbols, &mut AnalysisContext::new())
}

fn single_expression(source: &str) -> Expression {
    let mut statements = parse_source(source).ok().unwrap();
    assert_eq!(statements.len(), 1);
    match statements.remove(0) {
        Statement::Expression(e) => e,
        other => panic!("not an expression statement: {:?}", other),
    }
}

fn integer(e: &Expression) -> i64 {
    match e {
        Expression::Literal(l) => match l.value {
            LiteralValue::UnspecifiedInteger(v) => v,
            _ => panic!("not an unspecified integer"),
        },
        _ => panic!("not a literal"),
    }
}

fn variable(e: &Expression) -> String {
    match e {
        Expression::Variable(name, _) => name.clone(),
        _ => panic!("not a variable"),
    }
}

fn binary(e: &Expression) -> (&Expression, BinaryOperator, &Expression) {
    match e {
        Expression::Binary(b) => (&b.left, b.operator, &b.right),
        _ => panic!("not a binary expression"),
    }
}

#[test]
fn multiplication_binds_tighter_than_addition() {
    let e = single_expression("1 + 2 * 3;");
    let (left, op, right) = binary(&e);
    assert_eq!(op, BinaryOperator::Add);
    assert_eq!(integer(left), 1);
    let (l2, op2, r2) = binary(right);
    assert_eq!(op2, BinaryOperator::Multiply);
    assert_eq!(integer(l2), 2);
    assert_eq!(integer(r2), 3);
}

#[test]
fn subtraction_is_left_associative() {
    let e = single_expression("10 - 4 - 3;");
    let (left, op, right) = binary(&e);
    assert_eq!(op, BinaryOperator::Subtract);
    assert_eq!(integer(right), 3);
    let (l2, op2, r2) = binary(left);
    assert_eq!(op2, BinaryOperator::Subtract);
    assert_eq!(integer(l2), 10);
    assert_eq!(integer(r2), 4);
}

#[test]
fn logical_and_binds_tighter_than_or() {
    let e = single_expression("a || b && c;");
    let (left, op, right) = binary(&e);
    assert_eq!(op, BinaryOperator::Or);
    assert_eq!(variable(left), "a");
    let (l2, op2, r2) = binary(right);
    assert_eq!(op2, BinaryOperator::And);
    assert_eq!(variable(l2), "b");
    assert_eq!(variable(r2), "c");
    match &e {
        Expression::Binary(b) => assert_eq!(b.expr_type, PrimitiveType::Bool.type_id()),
        _ => unreachable!(),
    }
}

#[test]
fn comparisons_and_equality_have_boolean_type() {
    let e = single_expression("1 < 2 == true;");
    let (left, op, _) = binary(&e);
    assert_eq!(op, BinaryOperator::Equal);
    let (_, op2, _) = binary(left);
    assert_eq!(op2, BinaryOperator::LessThan);
}

#[test]
fn binary_location_spans_both_operands() {
    let e = single_expression("  12 + 345;");
    match e {
        Expression::Binary(b) => {
            assert_eq!(b.location.position, 2);
            assert_eq!(b.location.line, 1);
            assert_eq!(b.location.column, 3);
            assert_eq!(b.location.length, 8);
        },
        _ => panic!("not binary"),
    }
}

#[test]
fn unary_minus_and_not() {
    let e = single_expression("-5;");
    match e {
        Expression::Unary(u) => {
            assert_eq!(u.operator, UnaryOperator::Negate);
            assert_eq!(u.expr_type, PrimitiveType::Unknown.type_id());
            assert_eq!(integer(&u.right), 5);
        },
        _ => panic!("not unary"),
    }
    let e = single_expression("!flag;");
    match e {
        Expression::Unary(u) => {
            assert_eq!(u.operator, UnaryOperator::Not);
            assert_eq!(u.expr_type, PrimitiveType::Bool.type_id());
        },
        _ => panic!("not unary"),
    }
}

#[test]
fn integer_suffix_from_following_identifier() {
    let e = single_expression("7 u64;");
    match e {
        Expression::Literal(l) => {
            assert_eq!(l.value, LiteralValue::U64(7));
            assert_eq!(l.expr_type, PrimitiveType::U64.type_id());
        },
        _ => panic!("not a literal"),
    }
    let e = single_expression("7 f32;");
    match e {
        Expression::Literal(l) => assert_eq!(l.value, LiteralValue::F32(FloatLiteral::Integer(7))),
        _ => panic!("not a literal"),
    }
}

#[test]
fn integer_out_of_range_for_i32() {
    let errors = parse_source("let x = 3000000000 i32;").err().unwrap();
    assert_eq!(errors.len(), 1);
    assert_eq!(errors[0].error_code, ErrorCode::ValueOutOfRange);
    assert_eq!(errors[0].message, "Value 3000000000 is out of range for i32");
    assert_eq!(errors[0].position, 19);
    assert_eq!(errors[0].token_length, Some(3));
}

#[test]
fn float_literals_keep_their_text() {
    let e = single_expression("2.5;");
    match e {
        Expression::Literal(l) => {
            assert_eq!(l.value, LiteralValue::UnspecifiedFloat(FloatLiteral::Text("2.5".to_string())));
            assert_eq!(l.expr_type, PrimitiveType::UnspecifiedFloat.type_id());
        },
        _ => panic!("not a literal"),
    }
    let e = single_expression("2.5 f64;");
    match e {
        Expression::Literal(l) => assert_eq!(l.value, LiteralValue::F64(FloatLiteral::Text("2.5".to_string()))),
        _ => panic!("not a literal"),
    }
}

#[test]
fn string_and_boolean_literals() {
    let e = single_expression("\"hi\";");
    match e {
        Expression::Literal(l) => assert_eq!(l.expr_type, PrimitiveType::String.type_id()),
        _ => panic!("not a literal"),
    }
    let e = single_expression("false;");
    match e {
        Expression::Literal(l) => assert_eq!(l.value, LiteralValue::Boolean(false)),
        _ => panic!("not a literal"),
    }
}

#[test]
fn call_with_arguments() {
    let e = single_expression("print_value(1, x + 2);");
    match e {
        Expression::Call(c) => {
            assert_eq!(c.name, "print_value");
            assert_eq!(c.arguments.len(), 2);
            assert_eq!(integer(&c.arguments[0]), 1);
            assert_eq!(c.location.position, 11);
        },
        _ => panic!("not a call"),
    }
}

#[test]
fn conditional_expression_in_let() {
    let statements = parse_source("let y = if c { 1 } else { 2 };").ok().unwrap();
    match &statements[0] {
        Statement::Let(l) => {
            assert_eq!(l.name, "y");
            assert!(!l.is_mutable);
            assert_eq!(l.expr_type, PrimitiveType::Unknown.type_id());
            match &l.value {
                Expression::Conditional(c) => {
                    assert_eq!(variable(&c.condition), "c");
                    assert_eq!(integer(&c.then_branch), 1);
                    assert_eq!(integer(&c.else_branch), 2);
                    assert_eq!(c.location.position, 8);
                    assert_eq!(c.location.length, 21);
                },
                _ => panic!("not conditional"),
            }
        },
        _ => panic!("not let"),
    }
}

#[test]
fn let_with_mut_and_type() {
    let statements = parse_source("let mut count: i64 = 0;").ok().unwrap();
    match &statements[0] {
        Statement::Let(l) => {
            assert!(l.is_mutable);
            assert_eq!(l.name, "count");
            assert_eq!(l.expr_type, PrimitiveType::I64.type_id());
            assert_eq!(l.location.position, 8);
            assert_eq!(l.location.length, 5);
        },
        _ => panic!("not let"),
    }
}

#[test]
fn let_with_placeholder_int_type_is_refused() {
    let errors = parse_source("let x: int = 1;").err().unwrap();
    assert_eq!(errors[0].error_code, ErrorCode::InvalidSyntax);
    assert_eq!(errors[0].message, "'int' is not a valid type specifier. Use 'i32', 'i64', 'u32', or 'u64' instead");
}

#[test]
fn let_with_unknown_type_records_an_error() {
    let errors = parse_source("let x: Foo = 1;").err().unwrap();
    assert_eq!(errors.len(), 1);
    assert_eq!(errors[0].error_code, ErrorCode::InvalidSyntax);
    assert_eq!(errors[0].message, "Unknown type name: Foo");
}

#[test]
fn missing_semicolon_is_reported_at_end_of_input() {
    let errors = parse_source("let x = 1").err().unwrap();
    assert_eq!(errors.len(), 1);
    assert_eq!(errors[0].error_code, ErrorCode::ExpectedSemicolon);
    assert_eq!(errors[0].message, "Expected ';' after let statement");
}

#[test]
fn missing_expression_names_the_token_found() {
    let errors = parse_source(";").err().unwrap();
    assert_eq!(errors.len(), 1);
    assert_eq!(errors[0].error_code, ErrorCode::ExpectedExpression);
    assert_eq!(errors[0].message, "Expected expression, found ';': ;");
}

#[test]
fn parsing_resumes_after_an_error() {
    let errors = parse_source("let = 1; let y = ; let z = 3;").err().unwrap();
    assert_eq!(errors.len(), 2);
    assert_eq!(errors[0].message, "Expected identifier after 'let'");
    assert_eq!(errors[1].error_code, ErrorCode::ExpectedExpression);
}

#[test]
fn function_declaration_with_parameters() {
    let statements = parse_source("fn add(a: i32, b: i32) -> i32 { return a + b; }").ok().unwrap();
    match &statements[0] {
        Statement::FunctionDeclaration(f) => {
            assert_eq!(f.name, "add");
            assert_eq!(f.parameters.len(), 2);
            assert_eq!(f.parameters[1].name, "b");
            assert_eq!(f.parameters[1].param_type, PrimitiveType::I32.type_id());
            assert_eq!(f.return_type, PrimitiveType::I32.type_id());
            assert_eq!(f.body.len(), 1);
            assert!(matches!(f.body[0], Statement::Return(Some(_))));
        },
        _ => panic!("not a function"),
    }
}

#[test]
fn function_without_return_type_has_unknown_type() {
    let statements = parse_source("fn f() { }").ok().unwrap();
    match &statements[0] {
        Statement::FunctionDeclaration(f) => {
            assert_eq!(f.parameters.len(), 0);
            assert_eq!(f.return_type, PrimitiveType::Unknown.type_id());
        },
        _ => panic!("not a function"),
    }
}

#[test]
fn function_parameter_of_unknown_type_is_recorded() {
    let errors = parse_source("fn f(a: Bar) { }").err().unwrap();
    assert_eq!(errors.len(), 1);
    assert_eq!(errors[0].error_code, ErrorCode::UnknownType);
    assert_eq!(errors[0].message, "Unknown type name: Bar");
    assert_eq!(errors[0].position, 8);
}

#[test]
fn function_name_missing() {
    let errors = parse_source("fn (a: i32) { }").err().unwrap();
    assert_eq!(errors[0].error_code, ErrorCode::ExpectedIdentifier);
    assert_eq!(errors[0].message, "Expected function name found '('");
}

#[test]
fn struct_definition_with_fields() {
    let statements = parse_source("struct Point { x: i32, y: u64 };").ok().unwrap();
    match &statements[0] {
        Statement::TypeDefinition(t) => {
            assert_eq!(t.name, "Point");
            assert_eq!(t.fields.len(), 2);
            assert_eq!(t.fields[0].0, "x");
            assert_eq!(t.fields[1].1, PrimitiveType::U64.type_id());
        },
        _ => panic!("not a struct"),
    }
}

#[test]
fn struct_field_of_placeholder_float_type_is_refused() {
    let errors = parse_source("struct P { x: float };").err().unwrap();
    assert_eq!(errors[0].error_code, ErrorCode::UnknownType);
    assert_eq!(errors[0].message, "'float' is not a valid type specifier. Use 'f32' or 'f64' instead");
}

#[test]
fn if_statement_with_else() {
    let statements = parse_source("if x { y = 1; } else { y = 2; }").ok().unwrap();
    match &statements[0] {
        Statement::If(i) => {
            assert_eq!(i.then_branch.len(), 1);
            assert!(matches!(i.then_branch[0], Statement::Assignment(_)));
            assert_eq!(i.else_branch.as_ref().unwrap().len(), 1);
            assert_eq!(i.location.position, 0);
            assert_eq!(i.location.length, 31);
        },
        _ => panic!("not if"),
    }
}

#[test]
fn block_and_return_without_value() {
    let statements = parse_source("{ return; }").ok().unwrap();
    match &statements[0] {
        Statement::Block(b) => {
            assert_eq!(b.len(), 1);
            assert!(matches!(b[0], Statement::Return(None)));
        },
        _ => panic!("not a block"),
    }
}

#[test]
fn symbols_that_are_not_types_are_not_type_names() {
    let lexed = Lexer::new("let v: x = 1;").tokenize().ok().unwrap();
    let mut symbols = SymbolTable::with_primitive_types();
    symbols.define("x", SymbolKind::Variable, TypeId(0));
    let errors = parse(&lexed.tokens, &lexed.line_info, &symbols, &mut AnalysisContext::new()).err().unwrap();
    assert_eq!(errors[0].message, "Unknown type name: x");
}

#[test]
fn unsorted_tokens_are_not_fit_for_parsing() {
    let tokens = vec![
        Token::new(Tokentype::Identifier, "a".to_string(), 5),
        Token::new(Tokentype::Identifier, "b".to_string(), 1),
        Token::new(Tokentype::Eof, String::new(), 6),
    ];
    assert!(!tokens_fit_for_parsing(&tokens));
    let no_eof = vec![Token::new(Tokentype::Identifier, "a".to_string(), 0)];
    assert!(!tokens_fit_for_parsing(&no_eof));
}

#[test]
fn parse_error_becomes_compiler_error() {
    let info = LineInfo::new("ab\ncd");
    let e = ParseError::new(ErrorCode::ExpectedSemicolon, "missing", 4, 1);
    let c = e.to_compiler_error(&info);
    assert_eq!(c.error_code, ErrorCode::ExpectedSemicolon);
    assert_eq!(c.message, "missing");
    assert_eq!((c.line, c.column), (2, 2));
    assert_eq!(c.position, 4);
    assert_eq!(c.token_length, Some(1));
}

#[test]
fn token_position_location_and_end() {
    let info = LineInfo::new("x\n  yz");
    let p = TokenPosition::new(4, 2);
    assert_eq!(p.end_pos(), 6);
    let l = p.to_location(&info);
    assert_eq!((l.position, l.line, l.column, l.length), (4, 2, 3, 2));
}

#[test]
fn integer_text_is_read_as_i64() {
    let e = single_expression("9223372036854775807;");
    assert_eq!(integer(&e), i64::MAX);
    let errors = parse_source("let x = 9223372036854775808;").err().unwrap();
    assert_eq!(errors[0].error_code, ErrorCode::InvalidNumberLiteral);
    assert_eq!(errors[0].message, "Invalid integer: 9223372036854775808");
    assert_eq!(errors[0].position, 8);
}

#[test]
fn let_with_the_unknown_type_name_is_refused() {
    let errors = parse_source("let x: unknown = 1;").err().unwrap();
    assert_eq!(errors.len(), 1);
    assert_eq!(errors[0].error_code, ErrorCode::InvalidSyntax);
    assert_eq!(errors[0].message, "Unknown type: unknown");
    assert_eq!(errors[0].position, 7);
}

#[test]
fn function_types_register_once_per_signature() {
    let lexed = Lexer::new("let a: fn(i32, bool) -> fn() -> i64 = x; let b: fn(i32, bool) -> fn() -> i64 = x;").tokenize().ok().unwrap();
    let symbols = SymbolTable::with_primitive_types();
    let mut context = AnalysisContext::new();
    let statements = parse(&lexed.tokens, &lexed.line_info, &symbols, &mut context).ok().unwrap();
    let types: Vec<TypeId> = statements
        .iter()
        .map(|s| match s {
            Statement::Let(l) => l.expr_type,
            _ => panic!("expected a let statement"),
        })
        .collect();
    assert_eq!(types[0], types[1]);
    assert_eq!(context.get_type_name(types[0]), "fn(i32, bool) -> fn() -> i64");
}

#[test]
fn malformed_function_and_unit_types_are_reported() {
    let cases = [
        ("let a: fn i32 = x;", ErrorCode::ExpectedOpeningParen, " Expected '(' after 'fn'"),
        ("let a: fn(i32 bool = x;", ErrorCode::ExpectedClosingParen, " Expected ')' after function parameters"),
        ("let a: fn(i32) bool = x;", ErrorCode::InvalidSyntax, "Expected '->' after function parameters"),
        ("let a: (i32) = x;", ErrorCode::ExpectedClosingParen, " Expected ')' for unit type"),
    ];
    for (source, code, message) in cases.iter() {
        let errors = parse_source(source).err().unwrap();
        assert_eq!(errors[0].error_code, *code, "{}", source);
        assert_eq!(errors[0].message, *message, "{}", source);
    }
}

#[test]
fn integer_literals_read_every_value_up_to_the_largest() {
    assert_eq!(integer(&single_expression("9223372036854775807;")), i64::MAX);
    assert_eq!(integer(&single_expression("0;")), 0);
    assert_eq!(integer(&single_expression("000123;")), 123);
    let errors = parse_source("18446744073709551616;").err().unwrap();
    assert_eq!(errors[0].message, "Invalid integer: 18446744073709551616");
}
