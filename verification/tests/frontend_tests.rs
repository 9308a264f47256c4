use slang::analysis_collector::ErrorCollector as AnalysisErrorCollector;
use slang::analysis_error::SemanticAnalysisError;
use slang::ast::{PrimitiveType, SymbolKind, SymbolTable, TypeId};
use slang::compiler_error::{CompilerError, ErrorCollector, TextStyle};
use slang::enum_derive::{
    derive_iterable_enum, derive_named_enum, derive_numeric_enum, resolve_name, DeriveError, Discriminant, EnumInput,
    NameAttribute, VariantInput,
};
use slang::error_codes::ErrorCode;
use slang::error_types::{ErrorContext, ParseError as StageParseError, SlangError};
use slang::lexer::Lexer;
use slang::line_info::LineInfo;
use slang::location::Location;
use slang::numbers::is_float_text;
use slang::parse_error::{DomainError, ErrorCategory, ParseError};
use slang::parse_error_factory::ParseErrorFactory;
use slang::syntax::{span_to, LiteralValue};
use slang::token::{Token, Tokentype};
use slang::token_printer::TokenPrinter;
use slang::type_rules::{finalize_inferred_type, TypeInference};

fn loc(position: usize, line: usize, column: usize, length: usize) -> Location {
    Location::new(position, line, column, length)
}

#[test]
fn lexer_produces_tokens_and_end_of_file() {
    let lexed = Lexer::new("let x = 42;").tokenize().ok().unwrap();
    let types: Vec<Tokentype> = lexed.tokens.iter().map(|t| t.token_type).collect();
    assert_eq!(
        types,
        vec![
            Tokentype::Let,
            Tokentype::Identifier,
            Tokentype::Equal,
            Tokentype::IntegerLiteral,
            Tokentype::Semicolon,
            Tokentype::Eof
        ]
    );
    assert_eq!(lexed.tokens[3].lexeme, "42");
    assert_eq!(lexed.tokens[3].pos, 8);
    assert_eq!(lexed.tokens[5].pos, 11);
}

#[test]
fn lexer_attaches_numeric_suffix() {
    let lexed = Lexer::new("7u32").tokenize().ok().unwrap();
    assert_eq!(lexed.tokens[0].token_type, Tokentype::IntegerLiteral);
    assert_eq!(lexed.tokens[0].lexeme, "7");
    assert_eq!(lexed.tokens[0].suffix, Some("u32".to_string()));
}

#[test]
fn lexer_reports_unterminated_string() {
    let errors = Lexer::new("let s = \"abc").tokenize().err().unwrap();
    assert_eq!(errors.len(), 1);
    assert_eq!(errors[0].error_code, ErrorCode::ExpectedClosingQuote);
    assert_eq!(errors[0].message, "Expected closing quote for string literal");
    assert_eq!(errors[0].position, 8);
}

#[test]
fn lexer_reads_unicode_identifiers() {
    let lexed = Lexer::new("état_1 = 2").tokenize().ok().unwrap();
    assert_eq!(lexed.tokens[0].token_type, Tokentype::Identifier);
    assert_eq!(lexed.tokens[0].lexeme, "état_1");
    assert_eq!(lexed.tokens[1].pos, 7);
}

#[test]
fn lexer_character_classes_follow_unicode() {
    let lexed = Lexer::new("a\u{00A0}b2 ü").tokenize().ok().unwrap();
    let types: Vec<Tokentype> = lexed.tokens.iter().map(|t| t.token_type).collect();
    assert_eq!(types, vec![Tokentype::Identifier, Tokentype::Identifier, Tokentype::Identifier, Tokentype::Eof]);
    assert_eq!(lexed.tokens[1].lexeme, "b2");
    assert_eq!(lexed.tokens[1].pos, 2);
    assert_eq!(lexed.tokens[2].lexeme, "ü");
}

#[test]
fn line_info_lines_and_columns() {
    let info = LineInfo::new("first\nsecond\n\nlast");
    assert_eq!(info.get_line_col(0), (1, 1));
    assert_eq!(info.get_line_col(5), (1, 6));
    assert_eq!(info.get_line_col(6), (2, 1));
    assert_eq!(info.get_line_col(14), (4, 1));
    assert_eq!(info.get_line_text(2), Some("second"));
    assert_eq!(info.get_line_text(3), Some(""));
    assert_eq!(info.get_line_text(4), Some("last"));
    assert_eq!(info.get_line_text(0), None);
    assert_eq!(info.get_line_text(5), None);
}

#[test]
fn error_codes_numbers_and_kinds() {
    assert_eq!(ErrorCode::ExpectedSemicolon.code(), 1001);
    assert_eq!(ErrorCode::UndefinedVariable.code(), 2001);
    assert_eq!(ErrorCode::GenericCompileError.code(), 3000);
    assert!(ErrorCode::ExpectedElse.is_parse_error());
    assert!(!ErrorCode::ExpectedElse.is_semantic_error());
    assert!(ErrorCode::TypeMismatch.is_semantic_error());
    assert!(!ErrorCode::GenericCompileError.is_parse_error());
    assert_eq!(ErrorCode::ExpectedSemicolon.label(), "[E1001]");
    assert_eq!(ErrorCode::ExpectedSemicolon.description(), "Expected semicolon after statement");
}

#[test]
fn compiler_error_display_marks_the_token() {
    let info = LineInfo::new("ab\ncd");
    let e = CompilerError::new(ErrorCode::ExpectedSemicolon, "missing".to_string(), 2, 2, 4, Some(1));
    assert_eq!(
        e.format_for_display(&info),
        "error [E1001]: Expected semicolon after statement\n  --> main:2:2\n  |\n2 | cd\n  |  ^ missing\n"
    );
    let parts = e.display_segments(&info);
    assert_eq!(parts[0].style, TextStyle::Heading);
    assert_eq!(parts[0].text, "error");
    let marker: Vec<_> = parts.iter().filter(|p| p.style == TextStyle::Marker).collect();
    assert_eq!(marker.len(), 1);
    assert_eq!(marker[0].text, "^");
}

#[test]
fn compiler_error_display_takes_line_from_position() {
    let info = LineInfo::new("x");
    let e = CompilerError::new(ErrorCode::GenericCompileError, "m".to_string(), 9, 1, 0, Some(3));
    let shown = e.format_for_display(&info);
    assert_eq!(shown, "error [E3000]: Generic compile error\n  --> main:1:1\n  |\n1 | x\n  | ^^^ m\n");
}

#[test]
fn simple_error_collector() {
    let mut c = ErrorCollector::new();
    assert!(!c.has_errors());
    c.add_error(CompilerError::new(ErrorCode::InvalidSyntax, "a".to_string(), 1, 1, 0, None));
    assert!(c.has_errors());
    assert_eq!(c.errors().len(), 1);
    let taken = c.take_errors();
    assert_eq!(taken.len(), 1);
    assert!(!c.has_errors());
}

#[test]
fn token_printer_formats() {
    let p = TokenPrinter::new();
    assert_eq!(p.format_token_type(&Tokentype::Let), "Let            ");
    assert_eq!(p.format_lexeme("abc", &Tokentype::StringLiteral), "\"abc\"");
    assert_eq!(p.format_lexeme("", &Tokentype::Eof), "<EOF>");
    assert_eq!(p.format_lexeme("", &Tokentype::Identifier), "<empty>");
    assert_eq!(p.format_lexeme("x", &Tokentype::Identifier), "'x'");
}

#[test]
fn token_display_text() {
    let t = Token::new(Tokentype::Identifier, "name".to_string(), 3);
    assert_eq!(t.display_text(), "identifier: name");
}

#[test]
fn parse_error_factory_messages_and_codes() {
    let e = ParseErrorFactory::expected_semicolon(loc(3, 1, 4, 1), Some("after statement"));
    let c = e.to_compiler_error();
    assert_eq!(c.error_code, ErrorCode::ExpectedSemicolon);
    assert_eq!(c.message, "Expected ';' after statement");
    assert_eq!((c.line, c.column, c.position, c.token_length), (1, 4, 3, Some(1)));
    assert_eq!(e.category(), ErrorCategory::Syntax);
    let e = ParseErrorFactory::expected_opening_paren(loc(0, 1, 1, 1), None);
    assert_eq!(e.to_compiler_error().message, " Expected '('");
}

#[test]
fn parse_error_without_code_uses_its_kind() {
    let e = ParseError::InvalidNumber {
        value: "12x".to_string(),
        reason: "bad digit".to_string(),
        location: loc(0, 1, 1, 3),
        error_code: None,
    };
    let c = e.to_compiler_error();
    assert_eq!(c.error_code, ErrorCode::InvalidNumber);
    assert_eq!(c.message, "Invalid number '12x': bad digit");
    assert_eq!(e.short_description(), "Invalid number");
}

#[test]
fn float_text_follows_the_float_grammar() {
    assert!(is_float_text("1.5"));
    assert!(is_float_text("-.5e10"));
    assert!(is_float_text("INF"));
    assert!(!is_float_text("1.2.3"));
    assert!(!is_float_text("e5"));
    assert!(!is_float_text("1e"));
}

#[test]
fn implicit_names_are_lowercase_identifiers() {
    let names = derive_named_enum(&EnumInput { is_enum: true, variants: vec![unit("MixedCase"), unit("ÄÖ")] }).unwrap();
    assert_eq!(names.name(0), "mixedcase");
    assert_eq!(names.name(1), "äö");
}

#[test]
fn name_attribute_resolution() {
    assert_eq!(resolve_name(&NameAttribute::Absent, "third"), Ok("third".to_string()));
    assert_eq!(resolve_name(&NameAttribute::Text("x".to_string()), "third"), Ok("x".to_string()));
    assert_eq!(
        resolve_name(&NameAttribute::NotText, "third"),
        Err("name attribute must have a string literal value".to_string())
    );
}

fn unit(ident: &str) -> VariantInput {
    VariantInput {
        ident: ident.to_string(),
        name_attribute: NameAttribute::Absent,
        discriminant: Discriminant::Implicit,
        has_fields: false,
    }
}

#[test]
fn enum_helpers_reject_what_they_cannot_handle() {
    let not_enum = EnumInput { is_enum: false, variants: vec![] };
    let at_type = |message: &str| DeriveError { message: message.to_string(), variant: None };
    let at_variant = |message: &str, k: usize| DeriveError { message: message.to_string(), variant: Some(k) };
    assert_eq!(derive_named_enum(&not_enum).err().unwrap(), at_type("NamedEnum can only be derived for enums"));
    assert_eq!(derive_numeric_enum(&not_enum).err().unwrap(), at_type("NumericEnum can only be derived for enums"));
    assert_eq!(derive_iterable_enum(&not_enum).err().unwrap(), at_type("IterableEnum can only be derived for enums"));

    let mut malformed = unit("A");
    malformed.name_attribute = NameAttribute::Malformed;
    let input = EnumInput { is_enum: true, variants: vec![unit("Z"), malformed] };
    assert_eq!(
        derive_named_enum(&input).err().unwrap(),
        at_variant("name attribute must be in the form #[name = \"value\"]", 1)
    );

    let mut bad = unit("B");
    bad.discriminant = Discriminant::NotInteger;
    let mut huge = unit("C");
    huge.discriminant = Discriminant::Unparsable;
    let input = EnumInput { is_enum: true, variants: vec![unit("A"), huge, bad] };
    assert_eq!(derive_numeric_enum(&input).err().unwrap(), at_variant("Enum discriminant must be a valid integer", 1));

    let mut with_data = unit("D");
    with_data.has_fields = true;
    let mut more_data = unit("E");
    more_data.has_fields = true;
    let input = EnumInput { is_enum: true, variants: vec![unit("A"), with_data, more_data] };
    assert_eq!(
        derive_iterable_enum(&input).err().unwrap(),
        at_variant("IterableEnum can only be derived for enums with unit variants (no associated data)", 1)
    );
}

#[test]
fn numeric_enum_numbers_follow_the_previous_one() {
    let mut second = unit("B");
    second.discriminant = Discriminant::Integer(5);
    let numbers = derive_numeric_enum(&EnumInput { is_enum: true, variants: vec![unit("A"), second, unit("C")] })
        .unwrap();
    assert_eq!(numbers.len(), 3);
    assert_eq!(numbers.to_int(0), 0);
    assert_eq!(numbers.to_int(1), 5);
    assert_eq!(numbers.to_int(2), 6);
    assert_eq!(numbers.from_int(6), Some(2));
}

#[test]
fn named_enum_lookup_finds_the_first_of_equal_names() {
    let mut a = unit("A");
    a.name_attribute = NameAttribute::Text("same".to_string());
    let mut b = unit("B");
    b.name_attribute = NameAttribute::Text("same".to_string());
    let names = derive_named_enum(&EnumInput { is_enum: true, variants: vec![a, b] }).unwrap();
    assert_eq!(names.from_str("same"), Some(0));
    assert_eq!(names.len(), 2);
}

#[test]
fn semantic_analysis_messages() {
    let types = SymbolTable::with_primitive_types();
    let l = loc(4, 1, 5, 0);
    let e = SemanticAnalysisError::TypeMismatch {
        expected: PrimitiveType::I32.type_id(),
        actual: PrimitiveType::Bool.type_id(),
        context: Some("x".to_string()),
        location: l,
    };
    assert_eq!(e.format_message(&types), "Type mismatch: variable x is i32 but expression is bool");
    let c = e.to_compiler_error(&types);
    assert_eq!(c.error_code, ErrorCode::TypeMismatch);
    assert_eq!(c.token_length, Some(1));
    assert_eq!((c.line, c.column, c.position), (1, 5, 4));

    let e = SemanticAnalysisError::InvalidUnaryOperation {
        operator: "-".to_string(),
        operand_type: PrimitiveType::U64.type_id(),
        location: loc(0, 1, 1, 1),
    };
    assert_eq!(e.format_message(&types), "Cannot negate unsigned type");
    let e = SemanticAnalysisError::InvalidUnaryOperation {
        operator: "-".to_string(),
        operand_type: PrimitiveType::String.type_id(),
        location: loc(0, 1, 1, 1),
    };
    assert_eq!(e.format_message(&types), "Cannot negate non-numeric type 'string'");
    let e = SemanticAnalysisError::ArgumentCountMismatch {
        function_name: "f".to_string(),
        expected: 2,
        actual: 3,
        location: loc(0, 1, 1, 0),
    };
    assert_eq!(e.format_message(&types), "Function 'f' expects 2 arguments, but got 3");
    assert_eq!(e.get_token_length(), Some(1));
    let e = SemanticAnalysisError::MissingReturnValue { expected: TypeId(99), location: loc(0, 1, 1, 0) };
    assert_eq!(e.format_message(&types), "Type mismatch: function returns unknown but no return value provided");
    assert_eq!(e.get_token_length(), Some(6));
    assert_eq!(e.code(), ErrorCode::MissingReturnValue);
}

#[test]
fn semantic_error_collector_drops_duplicates() {
    let types = SymbolTable::with_primitive_types();
    let mut c = AnalysisErrorCollector::new();
    let undefined = |name: &str| SemanticAnalysisError::UndefinedVariable { name: name.to_string(), location: loc(0, 1, 1, 1) };
    assert!(c.add_semantic_error(undefined("a"), &types));
    assert!(!c.add_semantic_error(undefined("a"), &types));
    assert!(c.add_semantic_error(undefined("b"), &types));
    assert_eq!(c.error_count(), 2);
    assert!(c.has_errors());
    let errors = c.into_errors();
    assert_eq!(errors[1].message, "Undefined variable: b");
}

#[test]
fn symbol_table_lookups() {
    let mut table = SymbolTable::new();
    table.define("Point", SymbolKind::Type, TypeId(20));
    table.define("Point", SymbolKind::Variable, TypeId(0));
    assert_eq!(table.lookup("Point"), Some((SymbolKind::Type, TypeId(20))));
    assert_eq!(table.type_named("Point"), Some(TypeId(20)));
    assert_eq!(table.lookup("Nope"), None);
    assert_eq!(table.name_of_type(TypeId(20)), "Point");
    assert_eq!(table.name_of_type(TypeId(21)), "unknown");
}

#[test]
fn error_types_from_compiler_error() {
    let c = CompilerError::new(ErrorCode::UnknownType, "bad".to_string(), 3, 4, 10, None);
    let p: StageParseError = c.into();
    assert_eq!(p.error_code, ErrorCode::UnknownType);
    assert_eq!(p.location.length, 1);
    assert_eq!(p.location.position, 10);
    let c = CompilerError::new(ErrorCode::UnknownType, "bad".to_string(), 3, 4, 10, Some(5));
    let s: SlangError = c.into();
    assert_eq!(s.to_text(), "Compiler error: bad");
    let s = SlangError::Parse(p);
    assert_eq!(s.to_text(), "Parse error: bad");
    let ctx: ErrorContext = Default::default();
    assert!(ctx.file_name.is_none());
}

#[test]
fn type_rules_on_literals() {
    let t = TypeInference {};
    assert_eq!(t.infer_literal_type(&LiteralValue::Boolean(true)), PrimitiveType::Bool.type_id());
    assert_eq!(t.infer_literal_type(&LiteralValue::UnspecifiedInteger(3)), PrimitiveType::UnspecifiedInt.type_id());
    assert!(t.is_unsigned_type(&PrimitiveType::U32.type_id()));
    assert!(!t.is_unsigned_type(&PrimitiveType::I32.type_id()));
    assert_eq!(finalize_inferred_type(PrimitiveType::UnspecifiedInt.type_id()), PrimitiveType::I64.type_id());
    assert_eq!(finalize_inferred_type(PrimitiveType::UnspecifiedFloat.type_id()), PrimitiveType::F64.type_id());
    assert_eq!(finalize_inferred_type(PrimitiveType::U32.type_id()), PrimitiveType::U32.type_id());
}

#[test]
fn span_covers_both_locations() {
    let s = span_to(loc(2, 1, 3, 2), loc(7, 1, 8, 3));
    assert_eq!((s.position, s.line, s.column, s.length), (2, 1, 3, 8));
    let backwards = span_to(loc(7, 1, 8, 3), loc(2, 1, 3, 2));
    assert_eq!(backwards.length, 0);
}

#[test]
fn every_semantic_analysis_error_has_its_message_and_code() {
    let types = SymbolTable::with_primitive_types();
    let at = loc(0, 1, 1, 0);
    let i32t = PrimitiveType::I32.type_id();
    let boolt = PrimitiveType::Bool.type_id();
    let cases: Vec<(SemanticAnalysisError, &str, ErrorCode, Option<usize>)> = vec![
        (
            SemanticAnalysisError::UndefinedVariable { name: "v".to_string(), location: at },
            "Undefined variable: v",
            ErrorCode::UndefinedVariable,
            Some(1),
        ),
        (
            SemanticAnalysisError::VariableRedefinition { name: "v".to_string(), location: at },
            "Variable 'v' already defined",
            ErrorCode::VariableRedefinition,
            Some(1),
        ),
        (
            SemanticAnalysisError::SymbolRedefinition { name: "s".to_string(), kind: "type".to_string(), location: at },
            "Symbol 's' of kind 'type' is already defined or conflicts with an existing symbol.",
            ErrorCode::SymbolRedefinition,
            Some(1),
        ),
        (
            SemanticAnalysisError::InvalidFieldType {
                struct_name: "P".to_string(),
                field_name: "xy".to_string(),
                type_id: PrimitiveType::Unknown.type_id(),
                location: at,
            },
            "Invalid type 'unknown' for field 'xy' in struct 'P'. Fields cannot be of unknown or unspecified type.",
            ErrorCode::InvalidFieldType,
            Some(2),
        ),
        (
            SemanticAnalysisError::TypeMismatch { expected: i32t, actual: boolt, context: None, location: at },
            "Type mismatch: expected i32, got bool",
            ErrorCode::TypeMismatch,
            None,
        ),
        (
            SemanticAnalysisError::OperationTypeMismatch {
                operator: "+".to_string(),
                left_type: i32t,
                right_type: boolt,
                location: at,
            },
            "Type mismatch: cannot apply '+' operator on i32 and bool",
            ErrorCode::OperationTypeMismatch,
            Some(1),
        ),
        (
            SemanticAnalysisError::LogicalOperatorTypeMismatch {
                operator: "&&".to_string(),
                left_type: i32t,
                right_type: boolt,
                location: at,
            },
            "Logical operator '&&' requires boolean operands, got i32 and bool",
            ErrorCode::LogicalOperatorTypeMismatch,
            Some(2),
        ),
        (
            SemanticAnalysisError::ValueOutOfRange {
                value: "300".to_string(),
                target_type: i32t,
                is_float: false,
                location: at,
            },
            "Integer literal 300 is out of range for type i32",
            ErrorCode::ValueOutOfRange,
            Some(3),
        ),
        (
            SemanticAnalysisError::ValueOutOfRange {
                value: "1e400".to_string(),
                target_type: PrimitiveType::F32.type_id(),
                is_float: true,
                location: at,
            },
            "Float literal 1e400 is out of range for type f32",
            ErrorCode::ValueOutOfRange,
            Some(5),
        ),
        (
            SemanticAnalysisError::ArgumentTypeMismatch {
                function_name: "g".to_string(),
                argument_position: 2,
                expected: i32t,
                actual: boolt,
                location: at,
            },
            "Type mismatch: function 'g' expects argument 2 to be i32, but got bool",
            ErrorCode::ArgumentTypeMismatch,
            Some(1),
        ),
        (
            SemanticAnalysisError::ReturnOutsideFunction { location: at },
            "Return statement outside of function",
            ErrorCode::ReturnOutsideFunction,
            Some(6),
        ),
        (
            SemanticAnalysisError::ReturnTypeMismatch { expected: i32t, actual: boolt, location: at },
            "Type mismatch: function returns i32 but got bool",
            ErrorCode::ReturnTypeMismatch,
            None,
        ),
        (
            SemanticAnalysisError::UndefinedFunction { name: "h".to_string(), location: at },
            "Undefined function: h",
            ErrorCode::UndefinedFunction,
            Some(1),
        ),
        (
            SemanticAnalysisError::InvalidUnaryOperation { operator: "!".to_string(), operand_type: i32t, location: at },
            "Boolean not operator '!' can only be applied to boolean types, but got i32",
            ErrorCode::InvalidUnaryOperation,
            Some(1),
        ),
        (
            SemanticAnalysisError::InvalidUnaryOperation { operator: "~".to_string(), operand_type: i32t, location: at },
            "Cannot apply operator '~' to type i32",
            ErrorCode::InvalidUnaryOperation,
            Some(1),
        ),
        (
            SemanticAnalysisError::AssignmentToImmutableVariable { name: "k".to_string(), location: at },
            "Cannot assign to immutable variable 'k'",
            ErrorCode::AssignmentToImmutableVariable,
            Some(1),
        ),
        (
            SemanticAnalysisError::InvalidExpression { message: "odd".to_string(), location: at },
            "odd",
            ErrorCode::InvalidExpression,
            None,
        ),
    ];
    for (error, message, code, length) in cases.iter() {
        let c = error.to_compiler_error(&types);
        assert_eq!(c.message, *message);
        assert_eq!(c.error_code, *code);
        assert_eq!(c.token_length, *length);
    }
}

#[test]
fn parse_error_factory_covers_each_error() {
    let at = loc(0, 1, 1, 1);
    let cases = vec![
        (ParseErrorFactory::expected_else_after_if(at), "Expected 'else' after if expression", ErrorCode::ExpectedElse),
        (ParseErrorFactory::expected_equals(at), "Expected '='", ErrorCode::ExpectedEquals),
        (ParseErrorFactory::expected_colon(at), "Expected ':'", ErrorCode::ExpectedColon),
        (ParseErrorFactory::unknown_type(at, "no such type"), "no such type. Check available type names", ErrorCode::UnknownType),
        (ParseErrorFactory::invalid_syntax(at, "odd", Some("try this")), "odd. try this", ErrorCode::InvalidSyntax),
    ];
    for (error, message, code) in cases.iter() {
        let c = error.to_compiler_error();
        assert_eq!(c.message, *message);
        assert_eq!(c.error_code, *code);
    }
}

#[test]
fn parse_errors_without_code_use_the_code_of_their_kind() {
    let expected = ParseError::ExpectedToken {
        expected: "';'".to_string(),
        found: "'}'".to_string(),
        location: loc(7, 2, 3, 1),
        context: String::new(),
        error_code: None,
    }
    .to_compiler_error();
    assert_eq!(expected.error_code, ErrorCode::ExpectedToken);
    assert_eq!(expected.message, "Expected ';', found '}' ");
    assert_eq!((expected.line, expected.column, expected.position), (2, 3, 7));
    let eof = ParseError::UnexpectedEof {
        expected: "'}'".to_string(),
        location: loc(0, 1, 1, 1),
        context: String::new(),
        error_code: None,
    }
    .to_compiler_error();
    assert_eq!(eof.error_code, ErrorCode::UnexpectedEof);
    let syntax = ParseError::InvalidSyntax {
        message: "bad".to_string(),
        suggestion: None,
        location: loc(0, 1, 1, 1),
        error_code: None,
    }
    .to_compiler_error();
    assert_eq!(syntax.error_code, ErrorCode::SyntaxError);
    let delimiters = ParseError::MismatchedDelimiters {
        opening: "(".to_string(),
        expected_closing: ")".to_string(),
        found_closing: None,
        location: loc(0, 1, 1, 1),
        error_code: None,
    }
    .to_compiler_error();
    assert_eq!(delimiters.error_code, ErrorCode::MismatchedDelimiters);
    let coded = ParseError::InvalidSyntax {
        message: "bad".to_string(),
        suggestion: None,
        location: loc(0, 1, 1, 1),
        error_code: Some(ErrorCode::UnknownType),
    }
    .to_compiler_error();
    assert_eq!(coded.error_code, ErrorCode::UnknownType);
    assert_eq!(ErrorCode::ExpectedClosingQuote.code(), 1037);
    assert!(ErrorCode::ExpectedClosingQuote.is_parse_error());
}

#[test]
fn line_text_at_a_position_holds_its_character() {
    let source = "let x = 1;\nlet yé = 2;\n";
    let info = LineInfo::new(source);
    for (pos, c) in source.char_indices() {
        if c == '\n' {
            continue;
        }
        let (line, column) = info.get_line_col(pos);
        let text = info.get_line_text(line).unwrap();
        assert!(!text.contains('\n'));
        assert_eq!(text.as_bytes()[column - 1], source.as_bytes()[pos]);
    }
    assert_eq!(info.line_starts, vec![0, 11, 24]);
}

#[test]
fn line_starts_count_bytes() {
    let info = LineInfo::new("é\nx");
    assert_eq!(info.line_starts, vec![0, 3]);
    assert_eq!(info.get_line_col(3), (2, 1));
    assert_eq!(info.get_line_text(1), Some("é"));
    assert_eq!(info.get_line_text(2), Some("x"));
}

#[test]
fn unicode_whitespace_separates_tokens() {
    let lexed = Lexer::new("a\u{3000}b\u{2028}c\u{a0}d").tokenize().ok().unwrap();
    let kinds: Vec<String> = lexed.tokens.iter().map(|t| t.lexeme.clone()).collect();
    assert_eq!(kinds, vec!["a", "b", "c", "d", ""]);
    let joined = Lexer::new("a\u{200b}b").tokenize().ok().unwrap();
    assert_eq!(joined.tokens.len(), 4);
}

#[test]
fn unclosed_quote_after_other_tokens_is_reported_at_the_quote() {
    let errors = Lexer::new("let a = 1; // \"in a comment\n let b = \"open").tokenize().err().unwrap();
    assert_eq!(errors.len(), 1);
    assert_eq!(errors[0].error_code, ErrorCode::ExpectedClosingQuote);
    assert_eq!(errors[0].position, 37);
}
