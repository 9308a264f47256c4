//! The recursive-descent parser: it turns the tokens of a program into
//! statements, and reports what it cannot read as compiler errors. Each
//! reading function does exactly what its counterpart in `grammar` says.
use vstd::prelude::*;
use crate::analysis_context::{AnalysisContext, SpecContext};
use crate::ast::{PrimitiveType, SymbolTable, TypeId};
use crate::compiler_error::{chars_len, CompilerError, SpecCompilerError};
use crate::error_codes::ErrorCode;
use crate::grammar::{
    advance, at, check, check_next, compiler_error_of, error_at, input_wf, lexeme, level_type,
    mentioned, operator_at, p_args_tail, p_assignment, p_binary, p_binary_tail, p_block, p_call,
    p_conditional, p_expression, p_expression_statement, p_fields, p_float, p_function, p_if,
    p_integer, p_let, p_let_type, p_operand, p_parameter, p_params, p_params_tail, p_primary,
    p_program, p_return, p_return_type, p_statement, p_stmts, p_type, p_type_definition, p_unary,
    fn_arrow_message, fn_close_message, fn_open_message, p_type_list, parse_outcome, parse_result, progressed,
    unit_close_message, range_loc, sync_from, synchronize, tok_loc, tokens_wf, with_error,
    ParseInput, PState, SpecParseError,
};
use crate::line_info::{line_col_in, LineInfo};
use crate::location::Location;
use crate::numbers::{is_float_text, parse_i64};
use crate::syntax::{
    exprs_view, fields_view, params_view, span_to, stmts_view, AssignmentStatement, BinaryExpr,
    BinaryOperator, ConditionalExpr, Expression, FloatLiteral, FunctionCallExpr,
    FunctionDeclarationStmt, IfStatement, LetStatement, LiteralExpr, LiteralValue, Parameter,
    SpecExpr, SpecParameter, SpecStmt, Statement, TypeDefinitionStmt, UnaryExpr, UnaryOperator,
};
use crate::text::{push_signed_decimal, push_str, str_contains, string_from};
use crate::token::{Token, Tokentype};

verus! {

/// Where a token stands in the source: its offset and length.
#[derive(Debug, Clone, Copy, PartialEq, Eq, Structural)]
pub struct TokenPosition {
    /// Offset of the token.
    pub pos: usize,
    /// Length of the token.
    pub len: usize,
}

impl TokenPosition {
    /// Creates a token position from its offset and length.
    pub fn new(pos: usize, len: usize) -> (t: TokenPosition)
        ensures
            t == (TokenPosition { pos, len }),
    {
        TokenPosition { pos, len }
    }

    /// The location of the token: its offset, line, column and length.
    pub fn to_location(self, line_info: &LineInfo) -> (l: Location)
        requires
            line_info.wf(),
            self.pos < usize::MAX || line_info.starts().len() > 1,
        ensures
            l == (Location {
                position: self.pos,
                line: line_col_in(line_info.starts(), self.pos).0,
                column: line_col_in(line_info.starts(), self.pos).1,
                length: self.len,
            }),
    {
        let (line, column) = line_info.get_line_col(self.pos);
        Location::new(self.pos, line, column, self.len)
    }

    /// The offset just after the token.
    pub fn end_pos(self) -> (e: usize)
        requires
            self.pos + self.len <= usize::MAX,
        ensures
            e == self.pos + self.len,
    {
        self.pos + self.len
    }
}

/// An error met while parsing: its code, message, and the offset and length
/// of the source text to mark.
#[derive(Debug)]
pub struct ParseError {
    error_code: ErrorCode,
    message: String,
    position: usize,
    underline_length: usize,
}

impl View for ParseError {
    type V = SpecParseError;

    closed spec fn view(&self) -> SpecParseError {
        SpecParseError {
            error_code: self.error_code,
            message: self.message@,
            position: self.position,
            underline_length: self.underline_length,
        }
    }
}

impl ParseError {
    /// Creates a parse error from its code, message, offset and length.
    pub fn new(error_code: ErrorCode, message: &str, position: usize, underline_length: usize) -> (e: ParseError)
        ensures
            e@ == (SpecParseError { error_code, message: message@, position, underline_length }),
    {
        ParseError { error_code, message: string_from(message), position, underline_length }
    }

    /// The compiler error that this error becomes: the same code, message,
    /// offset and length, with the line and column of the offset.
    pub fn to_compiler_error(&self, line_info: &LineInfo) -> (c: CompilerError)
        requires
            line_info.wf(),
            self@.position < usize::MAX || line_info.starts().len() > 1,
        ensures
            c@ == compiler_error_of(line_info.starts(), self@),
    {
        let (line, column) = line_info.get_line_col(self.position);
        CompilerError::new(
            self.error_code,
            self.message.clone(),
            line,
            column,
            self.position,
            Some(self.underline_length),
        )
    }
}

/// `e` marks a token of the input: its offset and length are those of the
/// token.
pub open spec fn marks_token(inp: ParseInput, e: SpecParseError) -> bool {
    exists|i: int|
        0 <= i < inp.toks.len() && #[trigger] inp.toks[i].pos == e.position && inp.toks[i].lexeme.len()
            == e.underline_length
}

/// The error in `r`, if any, marks a token of the input.
pub open spec fn err_marks<T>(inp: ParseInput, r: Result<T, ParseError>) -> bool {
    match r {
        Ok(_) => true,
        Err(e) => marks_token(inp, e@),
    }
}

/// `c` reports a token of the input: its offset and length are those of
/// the token, and its line and column are those of its offset.
pub open spec fn reports_token(inp: ParseInput, c: SpecCompilerError) -> bool {
    &&& exists|i: int|
        0 <= i < inp.toks.len() && #[trigger] inp.toks[i].pos == c.position && c.token_length == Some(
            inp.toks[i].lexeme.len() as usize,
        )
    &&& c.line == line_col_in(inp.starts, c.position as usize).0
    &&& c.column == line_col_in(inp.starts, c.position as usize).1
}

/// The mathematical content of the result of reading an expression.
pub open spec fn expr_res(r: Result<Expression, ParseError>) -> Result<SpecExpr, SpecParseError> {
    match r {
        Ok(e) => Ok(e@),
        Err(e) => Err(e@),
    }
}

/// The mathematical content of the result of reading a statement.
pub open spec fn stmt_res(r: Result<Statement, ParseError>) -> Result<SpecStmt, SpecParseError> {
    match r {
        Ok(s) => Ok(s@),
        Err(e) => Err(e@),
    }
}

/// The mathematical content of the result of reading statements.
pub open spec fn stmts_res(r: Result<Vec<Statement>, ParseError>) -> Result<Seq<SpecStmt>, SpecParseError> {
    match r {
        Ok(v) => Ok(stmts_view(v@)),
        Err(e) => Err(e@),
    }
}

/// The mathematical content of the result of reading parameters.
pub open spec fn params_res(r: Result<Vec<Parameter>, ParseError>) -> Result<Seq<SpecParameter>, SpecParseError> {
    match r {
        Ok(v) => Ok(params_view(v@)),
        Err(e) => Err(e@),
    }
}

/// The mathematical content of the result of reading a type.
pub open spec fn type_res(r: Result<TypeId, ParseError>) -> Result<TypeId, SpecParseError> {
    match r {
        Ok(t) => Ok(t),
        Err(e) => Err(e@),
    }
}

/// The mathematical content of the result of reading a list of types.
pub open spec fn types_res(r: Result<Vec<TypeId>, ParseError>) -> Result<Seq<TypeId>, SpecParseError> {
    match r {
        Ok(v) => Ok(v@),
        Err(e) => Err(e@),
    }
}

/// The mathematical content of the result of reading a parameter.
pub open spec fn param_res(r: Result<Parameter, ParseError>) -> Result<SpecParameter, SpecParseError> {
    match r {
        Ok(p) => Ok(p@),
        Err(e) => Err(e@),
    }
}

/// A list of expressions with one more at the end.
proof fn lemma_exprs_view_push(es: Seq<Expression>, e: Expression)
    ensures
        exprs_view(es.push(e)) == exprs_view(es).push(e@),
{
    assert(es.push(e).subrange(0, es.len() as int) =~= es);
}

/// A list of statements with one more at the end.
proof fn lemma_stmts_view_push(ss: Seq<Statement>, s: Statement)
    ensures
        stmts_view(ss.push(s)) == stmts_view(ss).push(s@),
{
    assert(ss.push(s).subrange(0, ss.len() as int) =~= ss);
}

/// Reads statements from a list of tokens.
struct Parser<'a> {
    tokens: &'a [Token],
    current: usize,
    line_info: &'a LineInfo<'a>,
    errors: Vec<CompilerError>,
    symbols: &'a SymbolTable,
    context: AnalysisContext,
}

impl<'a> Parser<'a> {
    /// What the parser reads.
    spec fn input(&self) -> ParseInput {
        ParseInput {
            toks: self.tokens@.map_values(|t: Token| t@),
            starts: self.line_info.starts(),
            symbols: self.symbols@,
        }
    }

    /// Where the parser stands.
    spec fn state(&self) -> PState {
        PState { pos: self.current as int, errors: self.errors@.map_values(|e: CompilerError| e@), types: self.context@ }
    }

    /// The input is fit for parsing and the current token exists.
    spec fn inv(&self) -> bool {
        &&& input_wf(self.input())
        &&& self.line_info.wf()
        &&& self.current < self.tokens@.len()
        &&& self.tokens@.len() <= usize::MAX
        &&& self.context@.wf()
        &&& forall|k: int| 0 <= k < self.errors@.len() ==> reports_token(self.input(), #[trigger] self.errors@[k]@)
    }

    /// `self` reads the same input as `other`.
    spec fn same_input(&self, other: &Parser) -> bool {
        &&& self.tokens == other.tokens
        &&& self.line_info == other.line_info
        &&& self.symbols == other.symbols
    }

    fn new(tokens: &'a [Token], line_info: &'a LineInfo<'a>, symbols: &'a SymbolTable, context: AnalysisContext) -> (p: Parser<'a>)
        ensures
            p.tokens == tokens,
            p.line_info == line_info,
            p.symbols == symbols,
            p.context == context,
            p.current == 0,
            p.errors@.len() == 0,
    {
        Parser { tokens, current: 0, line_info, errors: Vec::new(), symbols, context }
    }

    /// The type of the token at `i`.
    fn type_at(&self, i: usize) -> (t: Tokentype)
        requires
            i < self.tokens@.len(),
        ensures
            t == self.input().toks[i as int].token_type,
    {
        self.tokens[i].token_type
    }

    /// Whether the current token is the end of input.
    fn is_at_end(&self) -> (r: bool)
        requires
            self.inv(),
        ensures
            r == crate::grammar::at_end(self.input(), self.current as int),
    {
        self.tokens[self.current].token_type == Tokentype::Eof
    }

    /// Whether the current token lies before the end of input and has type `tt`.
    fn check(&self, tt: Tokentype) -> (r: bool)
        requires
            self.inv(),
        ensures
            r == check(self.input(), self.current as int, tt),
    {
        if self.is_at_end() {
            return false;
        }
        self.tokens[self.current].token_type == tt
    }

    /// Whether the token after the current one exists and has type `tt`.
    fn check_next(&self, tt: Tokentype) -> (r: bool)
        requires
            self.inv(),
        ensures
            r == check_next(self.input(), self.current as int, tt),
    {
        if self.current + 1 >= self.tokens.len() {
            return false;
        }
        self.tokens[self.current + 1].token_type == tt
    }

    /// Moves past the current token unless it is the end of input.
    fn advance(&mut self)
        requires
            old(self).inv(),
        ensures
            final(self).inv(),
            final(self).same_input(old(self)),
            final(self).errors == old(self).errors,
            final(self).context == old(self).context,
            final(self).current as int == advance(old(self).input(), old(self).current as int),
    {
        if !self.is_at_end() {
            self.current = self.current + 1;
        }
    }

    /// Moves past the current token if it has type `tt`.
    fn match_token(&mut self, tt: Tokentype) -> (r: bool)
        requires
            old(self).inv(),
        ensures
            final(self).inv(),
            final(self).same_input(old(self)),
            final(self).errors == old(self).errors,
            final(self).context == old(self).context,
            r == check(old(self).input(), old(self).current as int, tt),
            final(self).current == if r {
                old(self).current + 1
            } else {
                old(self).current as int
            },
    {
        if self.check(tt) {
            self.advance();
            true
        } else {
            false
        }
    }

    /// The text of the token at `i`.
    fn lexeme_at(&self, i: usize) -> (s: &'a String)
        requires
            i < self.tokens@.len(),
        ensures
            s@ == lexeme(self.input(), i as int),
    {
        &self.tokens[i].lexeme
    }

    /// The location of the token at `i`.
    fn token_location(&self, i: usize) -> (l: Location)
        requires
            self.inv(),
            i < self.tokens@.len(),
        ensures
            l == tok_loc(self.input(), i as int),
    {
        let t = &self.tokens[i];
        assert(self.input().toks[i as int] == t@);
        assert(0 <= self.input().toks[i as int].pos);
        let (line, column) = self.line_info.get_line_col(t.pos);
        Location::new(t.pos, line, column, chars_len(&t.lexeme))
    }

    /// An error marking the token at `i`.
    fn error_at(&self, i: usize, code: ErrorCode, message: String) -> (e: ParseError)
        requires
            i < self.tokens@.len(),
        ensures
            e@ == error_at(self.input(), i as int, code, message@),
    {
        let t = &self.tokens[i];
        assert(self.input().toks[i as int] == t@);
        ParseError { error_code: code, message, position: t.pos, underline_length: chars_len(&t.lexeme) }
    }

    /// Records `e` as a compiler error.
    fn record(&mut self, e: &ParseError)
        requires
            old(self).inv(),
            marks_token(old(self).input(), e@),
        ensures
            final(self).inv(),
            final(self).same_input(old(self)),
            final(self).current == old(self).current,
            final(self).context == old(self).context,
            final(self).state().errors == old(self).state().errors.push(compiler_error_of(old(self).input().starts, e@)),
    {
        proof {
            let i = choose|i: int|
                0 <= i < self.input().toks.len() && #[trigger] self.input().toks[i].pos == e@.position
                    && self.input().toks[i].lexeme.len() == e@.underline_length;
            assert(0 <= self.input().toks[i].pos);
        }
        let c = e.to_compiler_error(self.line_info);
        let ghost before = self.errors@;
        self.errors.push(c);
        proof {
            let i = choose|i: int|
                0 <= i < self.input().toks.len() && #[trigger] self.input().toks[i].pos == e@.position
                    && self.input().toks[i].lexeme.len() == e@.underline_length;
            assert(self.input().toks[i].pos == c@.position);
            assert(reports_token(self.input(), c@));
            assert forall|k: int| 0 <= k < self.errors@.len() implies reports_token(self.input(), #[trigger] self.errors@[k]@) by {
                if k < before.len() {
                    assert(self.errors@[k] == before[k]);
                }
            }
        }
        assert(self.state().errors =~= old(self).state().errors.push(compiler_error_of(old(self).input().starts, e@)));
    }

    // ------------------------------------------------------------ literals

    /// Reads an integer literal whose token was just consumed, with the
    /// type suffix that a following identifier may give.
    fn parse_integer(&mut self) -> (r: Result<Expression, ParseError>)
        requires
            old(self).inv(),
            old(self).current >= 1,
        ensures
            final(self).inv(),
            final(self).same_input(old(self)),
            old(self).current <= final(self).current,
            (final(self).state(), expr_res(r)) == p_integer(old(self).input(), old(self).state()),
            err_marks(old(self).input(), r),
    {
        let prev = self.current - 1;
        let value_str = self.lexeme_at(prev);
        let base_value = match parse_i64(value_str.as_str()) {
            Some(v) => v,
            None => {
                let mut m = string_from("Invalid integer: ");
                push_str(&mut m, value_str.as_str());
                return Err(self.error_at(prev, ErrorCode::InvalidNumberLiteral, m));
            },
        };
        let location = self.token_location(prev);
        if self.check(Tokentype::Identifier) {
            let suffix = self.lexeme_at(self.current).as_str();
            let here = self.current;
            if crate::text::str_eq(suffix, "i32") {
                self.advance();
                if base_value > 2147483647i64 || base_value < -2147483648i64 {
                    return Err(self.out_of_range(here, base_value, "i32"));
                }
                return Ok(Expression::Literal(LiteralExpr {
                    value: LiteralValue::I32(base_value as i32),
                    expr_type: PrimitiveType::I32.type_id(),
                    location,
                }));
            } else if crate::text::str_eq(suffix, "i64") {
                self.advance();
                return Ok(Expression::Literal(LiteralExpr {
                    value: LiteralValue::I64(base_value),
                    expr_type: PrimitiveType::I64.type_id(),
                    location,
                }));
            } else if crate::text::str_eq(suffix, "u32") {
                self.advance();
                if base_value < 0 || base_value > 4294967295i64 {
                    return Err(self.out_of_range(here, base_value, "u32"));
                }
                return Ok(Expression::Literal(LiteralExpr {
                    value: LiteralValue::U32(base_value as u32),
                    expr_type: PrimitiveType::U32.type_id(),
                    location,
                }));
            } else if crate::text::str_eq(suffix, "u64") {
                self.advance();
                if base_value < 0 {
                    return Err(self.out_of_range(here, base_value, "u64"));
                }
                return Ok(Expression::Literal(LiteralExpr {
                    value: LiteralValue::U64(base_value as u64),
                    expr_type: PrimitiveType::U64.type_id(),
                    location,
                }));
            } else if crate::text::str_eq(suffix, "f32") {
                self.advance();
                return Ok(Expression::Literal(LiteralExpr {
                    value: LiteralValue::F32(FloatLiteral::Integer(base_value)),
                    expr_type: PrimitiveType::F32.type_id(),
                    location,
                }));
            } else if crate::text::str_eq(suffix, "f64") {
                self.advance();
                return Ok(Expression::Literal(LiteralExpr {
                    value: LiteralValue::F64(FloatLiteral::Integer(base_value)),
                    expr_type: PrimitiveType::F64.type_id(),
                    location,
                }));
            }
        }
        Ok(Expression::Literal(LiteralExpr {
            value: LiteralValue::UnspecifiedInteger(base_value),
            expr_type: PrimitiveType::UnspecifiedInt.type_id(),
            location,
        }))
    }

    /// The error for an integer `v` out of the range of the type named
    /// `name`, marking the token at `i`.
    fn out_of_range(&self, i: usize, v: i64, name: &str) -> (e: ParseError)
        requires
            i < self.tokens@.len(),
        ensures
            e@ == error_at(
                self.input(),
                i as int,
                ErrorCode::ValueOutOfRange,
                "Value "@ + crate::text::signed_decimal(v as int) + " is out of range for "@ + name@,
            ),
    {
        let mut m = string_from("Value ");
        push_signed_decimal(&mut m, v);
        push_str(&mut m, " is out of range for ");
        push_str(&mut m, name);
        self.error_at(i, ErrorCode::ValueOutOfRange, m)
    }

    /// Reads a float literal whose token was just consumed, with the type
    /// suffix that a following identifier may give.
    fn parse_float(&mut self) -> (r: Result<Expression, ParseError>)
        requires
            old(self).inv(),
            old(self).current >= 1,
        ensures
            final(self).inv(),
            final(self).same_input(old(self)),
            old(self).current <= final(self).current,
            (final(self).state(), expr_res(r)) == p_float(old(self).input(), old(self).state()),
            err_marks(old(self).input(), r),
    {
        let prev = self.current - 1;
        let value_str = self.lexeme_at(prev);
        let location = self.token_location(prev);
        if !is_float_text(value_str.as_str()) {
            let mut m = string_from("Invalid float: ");
            push_str(&mut m, value_str.as_str());
            return Err(self.error_at(prev, ErrorCode::InvalidNumberLiteral, m));
        }
        if self.check(Tokentype::Identifier) {
            let suffix = self.lexeme_at(self.current).as_str();
            if crate::text::str_eq(suffix, "f32") {
                self.advance();
                return Ok(Expression::Literal(LiteralExpr {
                    value: LiteralValue::F32(FloatLiteral::Text(value_str.clone())),
                    expr_type: PrimitiveType::F32.type_id(),
                    location,
                }));
            } else if crate::text::str_eq(suffix, "f64") {
                self.advance();
                return Ok(Expression::Literal(LiteralExpr {
                    value: LiteralValue::F64(FloatLiteral::Text(value_str.clone())),
                    expr_type: PrimitiveType::F64.type_id(),
                    location,
                }));
            }
        }
        Ok(Expression::Literal(LiteralExpr {
            value: LiteralValue::UnspecifiedFloat(FloatLiteral::Text(value_str.clone())),
            expr_type: PrimitiveType::UnspecifiedFloat.type_id(),
            location,
        }))
    }

    /// Reads a type: a function type `fn(T, ..) -> R`, which is registered
    /// in the context, the unit type `()`, or a type name resolved through
    /// the symbols.
    fn parse_type(&mut self) -> (r: Result<TypeId, ParseError>)
        requires
            old(self).inv(),
        ensures
            final(self).inv(),
            final(self).same_input(old(self)),
            old(self).current <= final(self).current,
            r is Ok ==> old(self).current < final(self).current,
            (final(self).state(), type_res(r)) == p_type(old(self).input(), old(self).state()),
            err_marks(old(self).input(), r),
        decreases old(self).tokens@.len() - old(self).current, 0int,
    {
        let ghost inp = self.input();
        let ghost s0 = self.state();
        if self.check(Tokentype::Fn) {
            self.advance();
            if !self.match_token(Tokentype::LeftParen) {
                return Err(self.error_at(self.current, ErrorCode::ExpectedOpeningParen, string_from(" Expected '(' after 'fn'")));
            }
            let mut params: Vec<TypeId> = Vec::new();
            if !self.check(Tokentype::RightParen) {
                match self.parse_type_list() {
                    Ok(v) => {
                        params = v;
                    },
                    Err(e) => {
                        return Err(e);
                    },
                }
            }
            let ghost s2 = self.state();
            if !self.check(Tokentype::RightParen) {
                return Err(self.error_at(self.current, ErrorCode::ExpectedClosingParen, string_from(" Expected ')' after function parameters")));
            }
            self.advance();
            if !self.check(Tokentype::Arrow) {
                return Err(self.error_at(self.current, ErrorCode::InvalidSyntax, string_from("Expected '->' after function parameters")));
            }
            self.advance();
            assert(progressed(inp, s0, s2));
            assert(self.state() == at(s2, s2.pos + 2));
            let ret = match self.parse_type() {
                Ok(t) => t,
                Err(e) => {
                    return Err(e);
                },
            };
            let id = self.context.register_function_type(params, ret);
            return Ok(id);
        }
        if self.check(Tokentype::LeftParen) {
            self.advance();
            if !self.check(Tokentype::RightParen) {
                return Err(self.error_at(self.current, ErrorCode::ExpectedClosingParen, string_from(" Expected ')' for unit type")));
            }
            self.advance();
            return Ok(PrimitiveType::Unit.type_id());
        }
        if !self.check(Tokentype::Identifier) {
            return Err(self.error_at(self.current, ErrorCode::ExpectedIdentifier, string_from("Expected type identifier")));
        }
        let name_at = self.current;
        self.advance();
        let type_word = self.lexeme_at(name_at).as_str();
        if crate::text::str_eq(type_word, "int") {
            return Err(self.error_at(
                self.current,
                ErrorCode::UnknownType,
                string_from("'int' is not a valid type specifier. Use 'i32', 'i64', 'u32', or 'u64' instead"),
            ));
        } else if crate::text::str_eq(type_word, "float") {
            return Err(self.error_at(
                self.current,
                ErrorCode::UnknownType,
                string_from("'float' is not a valid type specifier. Use 'f32' or 'f64' instead"),
            ));
        } else if crate::text::str_eq(type_word, "unknown") {
            return Err(self.error_at(
                name_at,
                ErrorCode::UnknownType,
                string_from("'unknown' is not a valid type specifier"),
            ));
        }
        match self.symbols.lookup(type_word) {
            Some((kind, type_id)) => if kind == crate::ast::SymbolKind::Type {
                Ok(type_id)
            } else {
                let mut m = string_from("'");
                push_str(&mut m, type_word);
                push_str(&mut m, "' is not a type name");
                Err(self.error_at(name_at, ErrorCode::UnknownType, m))
            },
            None => {
                let mut m = string_from("Unknown type: ");
                push_str(&mut m, type_word);
                Err(self.error_at(name_at, ErrorCode::UnknownType, m))
            },
        }
    }

    /// Reads the parameter types of a function type, separated by commas.
    fn parse_type_list(&mut self) -> (r: Result<Vec<TypeId>, ParseError>)
        requires
            old(self).inv(),
        ensures
            final(self).inv(),
            final(self).same_input(old(self)),
            old(self).current <= final(self).current,
            (final(self).state(), types_res(r)) == p_type_list(old(self).input(), old(self).state(), Seq::empty()),
            err_marks(old(self).input(), r),
        decreases old(self).tokens@.len() - old(self).current, 1int,
    {
        let ghost inp = self.input();
        let ghost s0 = self.state();
        let mut types: Vec<TypeId> = Vec::new();
        loop
            invariant
                self.inv(),
                self.input() == inp,
                self.same_input(old(self)),
                s0 == old(self).state(),
                inp == old(self).input(),
                old(self).current <= self.current,
                p_type_list(inp, s0, Seq::empty()) == p_type_list(inp, self.state(), types@),
            decreases self.tokens@.len() - self.current,
        {
            let ghost before = self.state();
            let t = match self.parse_type() {
                Ok(t) => t,
                Err(e) => {
                    return Err(e);
                },
            };
            types.push(t);
            if self.check(Tokentype::Comma) {
                assert(progressed(inp, before, self.state()));
                self.advance();
            } else {
                return Ok(types);
            }
        }
    }

    // --------------------------------------------------------- expressions

    /// Moves past the current token if it is an operator of precedence
    /// level `level`, and returns that operator.
    fn match_operator(&mut self, level: u8) -> (r: Option<BinaryOperator>)
        requires
            old(self).inv(),
            level <= 5,
        ensures
            final(self).inv(),
            final(self).same_input(old(self)),
            final(self).errors == old(self).errors,
            final(self).context == old(self).context,
            r == operator_at(old(self).input(), old(self).current as int, level as nat),
            final(self).current == if r is Some {
                old(self).current + 1
            } else {
                old(self).current as int
            },
    {
        if self.is_at_end() {
            return None;
        }
        let tt = self.type_at(self.current);
        let op = if level == 0 {
            match tt {
                Tokentype::Multiply => Some(BinaryOperator::Multiply),
                Tokentype::Divide => Some(BinaryOperator::Divide),
                _ => None,
            }
        } else if level == 1 {
            match tt {
                Tokentype::Plus => Some(BinaryOperator::Add),
                Tokentype::Minus => Some(BinaryOperator::Subtract),
                _ => None,
            }
        } else if level == 2 {
            match tt {
                Tokentype::Greater => Some(BinaryOperator::GreaterThan),
                Tokentype::GreaterEqual => Some(BinaryOperator::GreaterThanOrEqual),
                Tokentype::Less => Some(BinaryOperator::LessThan),
                Tokentype::LessEqual => Some(BinaryOperator::LessThanOrEqual),
                _ => None,
            }
        } else if level == 3 {
            match tt {
                Tokentype::EqualEqual => Some(BinaryOperator::Equal),
                Tokentype::NotEqual => Some(BinaryOperator::NotEqual),
                _ => None,
            }
        } else if level == 4 {
            match tt {
                Tokentype::And => Some(BinaryOperator::And),
                _ => None,
            }
        } else {
            match tt {
                Tokentype::Or => Some(BinaryOperator::Or),
                _ => None,
            }
        };
        if op.is_some() {
            self.advance();
        }
        op
    }

    /// Reads an expression.
    fn expression(&mut self) -> (r: Result<Expression, ParseError>)
        requires
            old(self).inv(),
        ensures
            final(self).inv(),
            final(self).same_input(old(self)),
            old(self).current <= final(self).current,
            r is Ok ==> old(self).current < final(self).current,
            (final(self).state(), expr_res(r)) == p_expression(old(self).input(), old(self).state()),
            err_marks(old(self).input(), r),
        decreases old(self).tokens@.len() - old(self).current, 15int,
    {
        self.binary(5)
    }

    /// Reads an operand of precedence level `level`.
    fn operand(&mut self, level: u8) -> (r: Result<Expression, ParseError>)
        requires
            old(self).inv(),
            level <= 5,
        ensures
            final(self).inv(),
            final(self).same_input(old(self)),
            old(self).current <= final(self).current,
            r is Ok ==> old(self).current < final(self).current,
            (final(self).state(), expr_res(r)) == p_operand(old(self).input(), old(self).state(), level as nat),
            err_marks(old(self).input(), r),
        decreases old(self).tokens@.len() - old(self).current, 3 + 2 * level,
    {
        if level == 0 {
            self.unary()
        } else {
            self.binary(level - 1)
        }
    }

    /// Reads a left-associative chain of operands joined by operators of
    /// precedence level `level`: `||` at 5, `&&` at 4, `==` `!=` at 3,
    /// `>` `>=` `<` `<=` at 2, `+` `-` at 1, `*` `/` at 0.
    fn binary(&mut self, level: u8) -> (r: Result<Expression, ParseError>)
        requires
            old(self).inv(),
            level <= 5,
        ensures
            final(self).inv(),
            final(self).same_input(old(self)),
            old(self).current <= final(self).current,
            r is Ok ==> old(self).current < final(self).current,
            (final(self).state(), expr_res(r)) == p_binary(old(self).input(), old(self).state(), level as nat),
            err_marks(old(self).input(), r),
        decreases old(self).tokens@.len() - old(self).current, 4 + 2 * level,
    {
        let ghost inp = self.input();
        let ghost s0 = self.state();
        let ghost start = self.current;
        let mut expr = match self.operand(level) {
            Ok(e) => e,
            Err(e) => return Err(e),
        };
        let expr_type = if level <= 1 {
            PrimitiveType::Unknown.type_id()
        } else {
            PrimitiveType::Bool.type_id()
        };
        assert(expr_type == level_type(level as nat));
        loop
            invariant
                self.inv(),
                self.input() == inp,
                self.same_input(old(self)),
                level <= 5,
                start == old(self).current,
                start < self.current,
                s0 == old(self).state(),
                inp == old(self).input(),
                expr_type == level_type(level as nat),
                p_binary(inp, s0, level as nat) == p_binary_tail(inp, self.state(), level as nat, expr@),
            ensures
                self.inv(),
                self.same_input(old(self)),
                start < self.current,
                p_binary(inp, s0, level as nat) == (self.state(), expr_res(Ok(expr))),
            decreases self.tokens@.len() - self.current,
        {
            let ghost before = self.state();
            let ghost left = expr@;
            let operator = match self.match_operator(level) {
                Some(op) => op,
                None => break,
            };
            let right = match self.operand(level) {
                Ok(e) => e,
                Err(e) => return Err(e),
            };
            let location = span_to(expr.location(), right.location());
            expr = Expression::Binary(BinaryExpr {
                left: Box::new(expr),
                operator,
                right: Box::new(right),
                expr_type,
                location,
            });
            assert(progressed(inp, before, self.state()));
        }
        Ok(expr)
    }

    /// Reads a unary expression: `-` or `!` followed by a primary
    /// expression, or a primary expression.
    fn unary(&mut self) -> (r: Result<Expression, ParseError>)
        requires
            old(self).inv(),
        ensures
            final(self).inv(),
            final(self).same_input(old(self)),
            old(self).current <= final(self).current,
            r is Ok ==> old(self).current < final(self).current,
            (final(self).state(), expr_res(r)) == p_unary(old(self).input(), old(self).state()),
            err_marks(old(self).input(), r),
        decreases old(self).tokens@.len() - old(self).current, 2int,
    {
        let at_minus = self.check(Tokentype::Minus);
        if at_minus || self.check(Tokentype::Not) {
            let operator_location = self.token_location(self.current);
            self.advance();
            let right = match self.primary() {
                Ok(e) => e,
                Err(e) => return Err(e),
            };
            let location = span_to(operator_location, right.location());
            if at_minus {
                return Ok(Expression::Unary(UnaryExpr {
                    operator: UnaryOperator::Negate,
                    right: Box::new(right),
                    expr_type: PrimitiveType::Unknown.type_id(),
                    location,
                }));
            } else {
                return Ok(Expression::Unary(UnaryExpr {
                    operator: UnaryOperator::Not,
                    right: Box::new(right),
                    expr_type: PrimitiveType::Bool.type_id(),
                    location,
                }));
            }
        }
        self.primary()
    }

    /// Reads a primary expression: a literal, a conditional expression, an
    /// expression in parentheses, a call or a variable.
    fn primary(&mut self) -> (r: Result<Expression, ParseError>)
        requires
            old(self).inv(),
        ensures
            final(self).inv(),
            final(self).same_input(old(self)),
            old(self).current <= final(self).current,
            r is Ok ==> old(self).current < final(self).current,
            (final(self).state(), expr_res(r)) == p_primary(old(self).input(), old(self).state()),
            err_marks(old(self).input(), r),
        decreases old(self).tokens@.len() - old(self).current, 1int,
    {
        if self.match_token(Tokentype::IntegerLiteral) {
            return self.parse_integer();
        }
        if self.match_token(Tokentype::FloatLiteral) {
            return self.parse_float();
        }
        if self.match_token(Tokentype::StringLiteral) {
            let i = self.current - 1;
            return Ok(Expression::Literal(LiteralExpr {
                value: LiteralValue::String(self.lexeme_at(i).clone()),
                expr_type: PrimitiveType::String.type_id(),
                location: self.token_location(i),
            }));
        }
        if self.match_token(Tokentype::BooleanLiteral) {
            let i = self.current - 1;
            let value = crate::text::str_eq(self.lexeme_at(i).as_str(), "true");
            return Ok(Expression::Literal(LiteralExpr {
                value: LiteralValue::Boolean(value),
                expr_type: PrimitiveType::Bool.type_id(),
                location: self.token_location(i),
            }));
        }
        if self.match_token(Tokentype::If) {
            return self.conditional_expression();
        }
        if self.match_token(Tokentype::LeftParen) {
            let expr = match self.expression() {
                Ok(e) => e,
                Err(e) => return Err(e),
            };
            if !self.match_token(Tokentype::RightParen) {
                return Err(self.error_at(
                    self.current,
                    ErrorCode::ExpectedClosingParen,
                    string_from("Expected ')' after expression"),
                ));
            }
            return Ok(expr);
        }
        if self.match_token(Tokentype::Identifier) {
            let i = self.current - 1;
            let name = self.lexeme_at(i).clone();
            if self.match_token(Tokentype::LeftParen) {
                return self.finish_call(name);
            }
            return Ok(Expression::Variable(name, self.token_location(i)));
        }
        let mut m = string_from("Expected expression, found ");
        let shown = self.tokens[self.current].display_text();
        assert(self.input().toks[self.current as int] == self.tokens@[self.current as int]@);
        push_str(&mut m, shown.as_str());
        assert(m@ =~= "Expected expression, found "@ + self.input().toks[self.current as int].token_type.spec_display_name()
            + seq![':', ' '] + lexeme(self.input(), self.current as int));
        Err(self.error_at(self.current, ErrorCode::ExpectedExpression, m))
    }

    /// Reads the arguments and closing parenthesis of a call of `name`,
    /// whose opening parenthesis was just consumed.
    fn finish_call(&mut self, name: String) -> (r: Result<Expression, ParseError>)
        requires
            old(self).inv(),
            old(self).current >= 1,
        ensures
            final(self).inv(),
            final(self).same_input(old(self)),
            old(self).current <= final(self).current,
            r is Ok ==> old(self).current < final(self).current,
            (final(self).state(), expr_res(r)) == p_call(old(self).input(), old(self).state(), name@),
            err_marks(old(self).input(), r),
        decreases old(self).tokens@.len() - old(self).current, 16int,
    {
        let ghost inp = self.input();
        let ghost s0 = self.state();
        let start_location = self.token_location(self.current - 1);
        let mut arguments: Vec<Expression> = Vec::new();
        if !self.check(Tokentype::RightParen) {
            match self.expression() {
                Ok(a) => arguments.push(a),
                Err(e) => return Err(e),
            }
            proof {
                lemma_exprs_view_push(Seq::empty(), arguments@[0]);
                assert(Seq::<Expression>::empty().push(arguments@[0]) =~= arguments@);
            }
            let ghost total = p_args_tail(inp, self.state(), exprs_view(arguments@));
            assert(total == p_call_args(inp, s0));
            loop
                invariant
                    self.inv(),
                    self.input() == inp,
                    self.same_input(old(self)),
                    s0 == old(self).state(),
                    inp == old(self).input(),
                    old(self).current < self.current,
                    total == p_call_args(inp, s0),
                    total == p_args_tail(inp, self.state(), exprs_view(arguments@)),
                ensures
                    self.inv(),
                    self.input() == inp,
                    self.same_input(old(self)),
                    old(self).current < self.current,
                    total == p_call_args(inp, s0),
                    total == (self.state(), Ok::<Seq<SpecExpr>, SpecParseError>(exprs_view(arguments@))),
                decreases self.tokens@.len() - self.current,
            {
                let ghost before = self.state();
                if !self.match_token(Tokentype::Comma) {
                    break;
                }
                proof {
                    lemma_exprs_view_len(arguments@);
                }
                if arguments.len() >= 255 {
                    return Err(self.error_at(
                        self.current,
                        ErrorCode::InvalidSyntax,
                        string_from("Cannot have more than 255 arguments"),
                    ));
                }
                match self.expression() {
                    Ok(a) => {
                        proof {
                            lemma_exprs_view_push(arguments@, a);
                        }
                        arguments.push(a);
                    },
                    Err(e) => return Err(e),
                }
                assert(progressed(inp, before, self.state()));
            }
        } else {
            assert(arguments@ =~= Seq::<Expression>::empty());
        }
        if !self.match_token(Tokentype::RightParen) {
            return Err(self.error_at(
                self.current,
                ErrorCode::ExpectedClosingParen,
                string_from("Expected ')' after function arguments"),
            ));
        }
        let end_location = self.token_location(self.current - 1);
        Ok(Expression::Call(FunctionCallExpr {
            name,
            arguments,
            expr_type: PrimitiveType::Unknown.type_id(),
            location: span_to(start_location, end_location),
        }))
    }

    /// Reads a conditional expression `c { a } else { b }` after its `if`.
    #[verifier::rlimit(40)]
    fn conditional_expression(&mut self) -> (r: Result<Expression, ParseError>)
        requires
            old(self).inv(),
            old(self).current >= 1,
        ensures
            final(self).inv(),
            final(self).same_input(old(self)),
            old(self).current <= final(self).current,
            r is Ok ==> old(self).current < final(self).current,
            (final(self).state(), expr_res(r)) == p_conditional(old(self).input(), old(self).state()),
            err_marks(old(self).input(), r),
        decreases old(self).tokens@.len() - old(self).current, 16int,
    {
        let if_at = self.current - 1;
        let condition = match self.expression() {
            Ok(e) => e,
            Err(e) => return Err(e),
        };
        if !self.match_token(Tokentype::LeftBrace) {
            return Err(self.error_at(
                self.current,
                ErrorCode::ExpectedOpeningBrace,
                string_from("Expected '{' after if condition"),
            ));
        }
        let then_branch = match self.expression() {
            Ok(e) => e,
            Err(e) => return Err(e),
        };
        if !self.match_token(Tokentype::RightBrace) {
            return Err(self.error_at(
                self.current,
                ErrorCode::ExpectedClosingBrace,
                string_from("Expected '}' after if expression"),
            ));
        }
        if !self.match_token(Tokentype::Else) {
            return Err(self.error_at(
                self.current,
                ErrorCode::ExpectedElse,
                string_from("Expected 'else' after if expression"),
            ));
        }
        if !self.match_token(Tokentype::LeftBrace) {
            return Err(self.error_at(
                self.current,
                ErrorCode::ExpectedOpeningBrace,
                string_from("Expected '{' after else"),
            ));
        }
        let else_branch = match self.expression() {
            Ok(e) => e,
            Err(e) => return Err(e),
        };
        if !self.match_token(Tokentype::RightBrace) {
            return Err(self.error_at(
                self.current,
                ErrorCode::ExpectedClosingBrace,
                string_from("Expected '}' after else expression"),
            ));
        }
        let location = self.range_location(if_at, self.current);
        Ok(Expression::Conditional(ConditionalExpr {
            condition: Box::new(condition),
            then_branch: Box::new(then_branch),
            else_branch: Box::new(else_branch),
            expr_type: PrimitiveType::Unknown.type_id(),
            location,
        }))
    }

    /// The location from the token at `start` to the end of the token just
    /// before `end`.
    fn range_location(&self, start: usize, end: usize) -> (l: Location)
        requires
            self.inv(),
            start < end <= self.tokens@.len(),
        ensures
            l == range_loc(self.input(), start as int, end as int),
    {
        let first = &self.tokens[start];
        let last = &self.tokens[end - 1];
        assert(self.input().toks[start as int] == first@);
        assert(self.input().toks[end - 1] == last@);
        assert(0 <= self.input().toks[start as int].pos);
        assert(0 <= self.input().toks[end - 1].pos);
        assert(self.input().toks[start as int].pos <= self.input().toks[end - 1].pos);
        let (line, column) = self.line_info.get_line_col(first.pos);
        let end_pos = last.pos + chars_len(&last.lexeme);
        Location::new(first.pos, line, column, end_pos - first.pos)
    }

    // ---------------------------------------------------------- statements

    /// Reads a statement.
    fn statement(&mut self) -> (r: Result<Statement, ParseError>)
        requires
            old(self).inv(),
        ensures
            final(self).inv(),
            final(self).same_input(old(self)),
            old(self).current <= final(self).current,
            r is Ok ==> old(self).current < final(self).current,
            (final(self).state(), stmt_res(r)) == p_statement(old(self).input(), old(self).state()),
            err_marks(old(self).input(), r),
        decreases old(self).tokens@.len() - old(self).current, 18int,
    {
        if self.match_token(Tokentype::Let) {
            self.let_statement()
        } else if self.match_token(Tokentype::Struct) {
            self.type_definition_statement()
        } else if self.match_token(Tokentype::Fn) {
            self.function_declaration_statement()
        } else if self.match_token(Tokentype::Return) {
            self.return_statement()
        } else if self.match_token(Tokentype::If) {
            self.if_statement()
        } else if self.match_token(Tokentype::LeftBrace) {
            self.block_statement()
        } else if self.check(Tokentype::Identifier) && self.check_next(Tokentype::Equal) {
            self.assignment_statement()
        } else {
            self.expression_statement()
        }
    }

    /// Reads statements up to a closing brace or the end of input.
    fn statements_until_brace(&mut self) -> (r: Result<Vec<Statement>, ParseError>)
        requires
            old(self).inv(),
        ensures
            final(self).inv(),
            final(self).same_input(old(self)),
            old(self).current <= final(self).current,
            (final(self).state(), stmts_res(r)) == p_stmts(old(self).input(), old(self).state(), Seq::empty()),
            err_marks(old(self).input(), r),
        decreases old(self).tokens@.len() - old(self).current, 19int,
    {
        let ghost inp = self.input();
        let ghost s0 = self.state();
        let mut stmts: Vec<Statement> = Vec::new();
        assert(stmts_view(stmts@) =~= Seq::<SpecStmt>::empty());
        loop
            invariant
                self.inv(),
                self.input() == inp,
                self.same_input(old(self)),
                s0 == old(self).state(),
                inp == old(self).input(),
                old(self).current <= self.current,
                p_stmts(inp, s0, Seq::empty()) == p_stmts(inp, self.state(), stmts_view(stmts@)),
            ensures
                self.inv(),
                self.same_input(old(self)),
                old(self).current <= self.current,
                p_stmts(inp, s0, Seq::empty()) == (self.state(), stmts_res(Ok(stmts))),
            decreases self.tokens@.len() - self.current,
        {
            let ghost before = self.state();
            if self.check(Tokentype::RightBrace) || self.is_at_end() {
                break;
            }
            let stmt = match self.statement() {
                Ok(st) => st,
                Err(e) => return Err(e),
            };
            proof {
                lemma_stmts_view_push(stmts@, stmt);
            }
            stmts.push(stmt);
            assert(progressed(inp, before, self.state()));
        }
        Ok(stmts)
    }

    /// Reads a block of statements after its opening brace.
    fn block_statement(&mut self) -> (r: Result<Statement, ParseError>)
        requires
            old(self).inv(),
        ensures
            final(self).inv(),
            final(self).same_input(old(self)),
            old(self).current <= final(self).current,
            r is Ok ==> old(self).current < final(self).current,
            (final(self).state(), stmt_res(r)) == p_block(old(self).input(), old(self).state()),
            err_marks(old(self).input(), r),
        decreases old(self).tokens@.len() - old(self).current, 20int,
    {
        let statements = match self.statements_until_brace() {
            Ok(ss) => ss,
            Err(e) => return Err(e),
        };
        if !self.match_token(Tokentype::RightBrace) {
            return Err(self.error_at(self.current, ErrorCode::ExpectedClosingBrace, string_from("Expected '}' after block")));
        }
        Ok(Statement::Block(statements))
    }

    /// Reads a return statement after its `return`.
    fn return_statement(&mut self) -> (r: Result<Statement, ParseError>)
        requires
            old(self).inv(),
        ensures
            final(self).inv(),
            final(self).same_input(old(self)),
            old(self).current <= final(self).current,
            r is Ok ==> old(self).current < final(self).current,
            (final(self).state(), stmt_res(r)) == p_return(old(self).input(), old(self).state()),
            err_marks(old(self).input(), r),
        decreases old(self).tokens@.len() - old(self).current, 17int,
    {
        let value = if !self.check(Tokentype::Semicolon) {
            match self.expression() {
                Ok(e) => Some(e),
                Err(e) => return Err(e),
            }
        } else {
            None
        };
        if !self.match_token(Tokentype::Semicolon) {
            return Err(self.error_at(
                self.current,
                ErrorCode::ExpectedSemicolon,
                string_from("Expected ';' after return value"),
            ));
        }
        Ok(Statement::Return(value))
    }

    /// Reads the optional return type `-> name` of a function declaration;
    /// an unknown type name is recorded as an error and read as the unknown
    /// type.
    fn return_type_annotation(&mut self) -> (r: Result<TypeId, ParseError>)
        requires
            old(self).inv(),
        ensures
            final(self).inv(),
            final(self).same_input(old(self)),
            old(self).current <= final(self).current,
            (final(self).state(), type_res(r)) == p_return_type(old(self).input(), old(self).state()),
            err_marks(old(self).input(), r),
    {
        if !self.match_token(Tokentype::Arrow) {
            return Ok(PrimitiveType::Unknown.type_id());
        }
        if self.check(Tokentype::Fn) || self.check(Tokentype::LeftParen) {
            return self.parse_type();
        }
        if !self.check(Tokentype::Identifier) {
            return Err(self.error_at(self.current, ErrorCode::ExpectedType, string_from("Expected return type after '->'")));
        }
        let name_at = self.current;
        self.advance();
        let type_word = self.lexeme_at(name_at).as_str();
        if crate::text::str_eq(type_word, "int") {
            return Err(self.error_at(
                name_at,
                ErrorCode::InvalidSyntax,
                string_from("'int' is not a valid type specifier. Use 'i32', 'i64', 'u32', or 'u64' instead"),
            ));
        } else if crate::text::str_eq(type_word, "float") {
            return Err(self.error_at(
                name_at,
                ErrorCode::InvalidSyntax,
                string_from("'float' is not a valid type specifier. Use 'f32' or 'f64' instead"),
            ));
        } else if crate::text::str_eq(type_word, "unknown") {
            return Err(self.error_at(
                name_at,
                ErrorCode::InvalidSyntax,
                string_from("'unknown' is not a valid type specifier"),
            ));
        }
        match self.symbols.type_named(type_word) {
            Some(t) => Ok(t),
            None => {
                let mut m = string_from("Unknown type name: ");
                push_str(&mut m, type_word);
                let e = self.error_at(name_at, ErrorCode::UnknownType, m);
                self.record(&e);
                Ok(PrimitiveType::Unknown.type_id())
            },
        }
    }

    /// Reads a parameter `name: type`; an unknown type name is recorded as
    /// an error and read as the unknown type.
    fn parameter(&mut self) -> (r: Result<Parameter, ParseError>)
        requires
            old(self).inv(),
        ensures
            final(self).inv(),
            final(self).same_input(old(self)),
            old(self).current <= final(self).current,
            r is Ok ==> old(self).current < final(self).current,
            (final(self).state(), param_res(r)) == p_parameter(old(self).input(), old(self).state()),
            err_marks(old(self).input(), r),
    {
        if !self.check(Tokentype::Identifier) {
            return Err(self.error_at(self.current, ErrorCode::ExpectedIdentifier, string_from("Expected parameter name")));
        }
        let name_at = self.current;
        let location = self.token_location(name_at);
        let name = self.lexeme_at(name_at).clone();
        self.advance();
        if !self.match_token(Tokentype::Colon) {
            return Err(self.error_at(self.current, ErrorCode::ExpectedColon, string_from("Expected ':' after parameter name")));
        }
        if self.check(Tokentype::Fn) || self.check(Tokentype::LeftParen) {
            let param_type = match self.parse_type() {
                Ok(t) => t,
                Err(e) => {
                    return Err(e);
                },
            };
            return Ok(Parameter { name, param_type, location });
        }
        if !self.check(Tokentype::Identifier) {
            return Err(self.error_at(self.current, ErrorCode::ExpectedType, string_from("Expected parameter type")));
        }
        let type_at = self.current;
        self.advance();
        let type_word = self.lexeme_at(type_at).as_str();
        let param_type = match self.symbols.type_named(type_word) {
            Some(t) => t,
            None => {
                let mut m = string_from("Unknown type name: ");
                push_str(&mut m, type_word);
                let e = self.error_at(type_at, ErrorCode::UnknownType, m);
                self.record(&e);
                PrimitiveType::Unknown.type_id()
            },
        };
        Ok(Parameter { name, param_type, location })
    }

    /// Reads the parameter list of a function declaration after its
    /// opening parenthesis, up to the closing parenthesis.
    fn parameter_list(&mut self) -> (r: Result<Vec<Parameter>, ParseError>)
        requires
            old(self).inv(),
        ensures
            final(self).inv(),
            final(self).same_input(old(self)),
            old(self).current <= final(self).current,
            (final(self).state(), params_res(r)) == p_params(old(self).input(), old(self).state()),
            err_marks(old(self).input(), r),
    {
        let ghost inp = self.input();
        let ghost s0 = self.state();
        let mut parameters: Vec<Parameter> = Vec::new();
        if self.check(Tokentype::RightParen) {
            assert(params_view(parameters@) =~= Seq::<SpecParameter>::empty());
            return Ok(parameters);
        }
        match self.parameter() {
            Ok(prm) => parameters.push(prm),
            Err(e) => return Err(e),
        }
        assert(params_view(parameters@) =~= seq![parameters@[0]@]);
        loop
            invariant
                self.inv(),
                self.input() == inp,
                self.same_input(old(self)),
                s0 == old(self).state(),
                inp == old(self).input(),
                old(self).current < self.current,
                p_params(inp, s0) == p_params_tail(inp, self.state(), params_view(parameters@)),
            ensures
                self.inv(),
                self.same_input(old(self)),
                old(self).current < self.current,
                p_params(inp, s0) == (self.state(), params_res(Ok(parameters))),
            decreases self.tokens@.len() - self.current,
        {
            let ghost before = self.state();
            if !self.match_token(Tokentype::Comma) {
                break;
            }
            if parameters.len() >= 255 {
                return Err(self.error_at(
                    self.current,
                    ErrorCode::InvalidSyntax,
                    string_from("Cannot have more than 255 parameters"),
                ));
            }
            let ghost old_params = parameters@;
            match self.parameter() {
                Ok(prm) => parameters.push(prm),
                Err(e) => return Err(e),
            }
            assert(params_view(parameters@) =~= params_view(old_params).push(parameters@.last()@));
            assert(progressed(inp, before, self.state()));
        }
        Ok(parameters)
    }

    /// Reads a function declaration after its `fn`.
    fn function_declaration_statement(&mut self) -> (r: Result<Statement, ParseError>)
        requires
            old(self).inv(),
        ensures
            final(self).inv(),
            final(self).same_input(old(self)),
            old(self).current <= final(self).current,
            r is Ok ==> old(self).current < final(self).current,
            (final(self).state(), stmt_res(r)) == p_function(old(self).input(), old(self).state()),
            err_marks(old(self).input(), r),
        decreases old(self).tokens@.len() - old(self).current, 20int,
    {
        if !self.check(Tokentype::Identifier) {
            let mut m = string_from("Expected function name found ");
            push_str(&mut m, self.type_at(self.current).display_name());
            return Err(self.error_at(self.current, ErrorCode::ExpectedIdentifier, m));
        }
        let name_at = self.current;
        let name = self.lexeme_at(name_at).clone();
        let location = self.token_location(name_at);
        self.advance();
        if !self.match_token(Tokentype::LeftParen) {
            let mut m = string_from("Expected '(' after function name, found ");
            push_str(&mut m, self.type_at(self.current).display_name());
            return Err(self.error_at(self.current, ErrorCode::ExpectedOpeningParen, m));
        }
        let parameters = match self.parameter_list() {
            Ok(ps) => ps,
            Err(e) => return Err(e),
        };
        if !self.match_token(Tokentype::RightParen) {
            let mut m = string_from("Expected ')' after parameters found ");
            push_str(&mut m, self.type_at(self.current).display_name());
            return Err(self.error_at(self.current, ErrorCode::ExpectedClosingParen, m));
        }
        let return_type = match self.return_type_annotation() {
            Ok(t) => t,
            Err(e) => return Err(e),
        };
        if !self.match_token(Tokentype::LeftBrace) {
            return Err(self.error_at(
                self.current,
                ErrorCode::ExpectedOpeningBrace,
                string_from("Expected '{' before function body"),
            ));
        }
        let body = match self.statements_until_brace() {
            Ok(ss) => ss,
            Err(e) => return Err(e),
        };
        if !self.match_token(Tokentype::RightBrace) {
            return Err(self.error_at(
                self.current,
                ErrorCode::ExpectedClosingBrace,
                string_from("Expected '}' after function body"),
            ));
        }
        Ok(Statement::FunctionDeclaration(FunctionDeclarationStmt { name, parameters, return_type, body, location }))
    }

    /// Reads the fields of a struct definition and its closing brace and
    /// semicolon, after its `struct`.
    fn type_definition_statement(&mut self) -> (r: Result<Statement, ParseError>)
        requires
            old(self).inv(),
        ensures
            final(self).inv(),
            final(self).same_input(old(self)),
            old(self).current <= final(self).current,
            r is Ok ==> old(self).current < final(self).current,
            (final(self).state(), stmt_res(r)) == p_type_definition(old(self).input(), old(self).state()),
            err_marks(old(self).input(), r),
    {
        let ghost inp = self.input();
        let ghost s0 = self.state();
        if !self.check(Tokentype::Identifier) {
            return Err(self.error_at(
                self.current,
                ErrorCode::ExpectedIdentifier,
                string_from("Expected struct name after 'struct' keyword"),
            ));
        }
        let name_at = self.current;
        let location = self.token_location(name_at);
        let name = self.lexeme_at(name_at).clone();
        self.advance();
        if !self.match_token(Tokentype::LeftBrace) {
            return Err(self.error_at(self.current, ErrorCode::ExpectedOpeningBrace, string_from("Expected '{' after struct name")));
        }
        let ghost s1 = self.state();
        assert(s1 == at(s0, s0.pos + 2));
        let ghost total = p_fields(inp, s1, Seq::empty());
        let mut fields: Vec<(String, TypeId)> = Vec::new();
        assert(fields_view(fields@) =~= Seq::<(Seq<char>, TypeId)>::empty());
        loop
            invariant
                self.inv(),
                self.input() == inp,
                self.same_input(old(self)),
                s0 == old(self).state(),
                inp == old(self).input(),
                old(self).current < self.current,
                check(inp, s0.pos, Tokentype::Identifier),
                check(inp, s0.pos + 1, Tokentype::LeftBrace),
                total == p_fields(inp, at(s0, s0.pos + 2), Seq::empty()),
                total == p_fields(inp, self.state(), fields_view(fields@)),
            ensures
                self.inv(),
                self.same_input(old(self)),
                old(self).current < self.current,
                total == (self.state(), Ok::<Seq<(Seq<char>, TypeId)>, SpecParseError>(fields_view(fields@))),
            decreases self.tokens@.len() - self.current,
        {
            let ghost before = self.state();
            if self.check(Tokentype::RightBrace) || self.is_at_end() {
                break;
            }
            if !self.check(Tokentype::Identifier) {
                return Err(self.error_at(self.current, ErrorCode::ExpectedIdentifier, string_from("Expected field name")));
            }
            let field_at = self.current;
            let field_name = self.lexeme_at(field_at).clone();
            self.advance();
            if !self.match_token(Tokentype::Colon) {
                return Err(self.error_at(self.current, ErrorCode::ExpectedColon, string_from("Expected ':' after field name")));
            }
            let field_type = match self.parse_type() {
                Ok(t) => t,
                Err(e) => return Err(e),
            };
            let ghost old_fields = fields@;
            fields.push((field_name, field_type));
            assert(fields_view(fields@) =~= fields_view(old_fields).push((lexeme(inp, field_at as int), field_type)));
            if !self.match_token(Tokentype::Comma) && !self.check(Tokentype::RightBrace) {
                return Err(self.error_at(self.current, ErrorCode::ExpectedComma, string_from("Expected ',' after field or '}'")));
            }
            assert(progressed(inp, before, self.state()));
        }
        if !self.match_token(Tokentype::RightBrace) {
            return Err(self.error_at(self.current, ErrorCode::ExpectedClosingBrace, string_from("Expected '}' after struct fields")));
        }
        if !self.match_token(Tokentype::Semicolon) {
            return Err(self.error_at(
                self.current,
                ErrorCode::ExpectedSemicolon,
                string_from("Expected ';' after struct definition"),
            ));
        }
        Ok(Statement::TypeDefinition(TypeDefinitionStmt { name, fields, location }))
    }

    /// Whether some recorded error mentions `text` in its message.
    fn errors_mention(&self, text: &str) -> (r: bool)
        ensures
            r == mentioned(self.state().errors, text@),
    {
        let mut i: usize = 0;
        while i < self.errors.len()
            invariant
                i <= self.errors@.len(),
                forall|k: int| 0 <= k < i ==> !crate::text::contains_text(
                    #[trigger] self.state().errors[k].message,
                    text@,
                ),
            decreases self.errors@.len() - i,
        {
            if str_contains(self.errors[i].message.as_str(), text) {
                assert(self.state().errors[i as int] == self.errors@[i as int]@);
                assert(crate::text::contains_text(self.state().errors[i as int].message, text@));
                return true;
            }
            i = i + 1;
        }
        false
    }

    /// Reads the optional type annotation `: name` of a variable
    /// declaration. An unknown type name is recorded as an error and read
    /// as the unknown type; a name that reads as the unknown type without
    /// such an error fails.
    fn let_type_annotation(&mut self) -> (r: Result<TypeId, ParseError>)
        requires
            old(self).inv(),
        ensures
            final(self).inv(),
            final(self).same_input(old(self)),
            old(self).current <= final(self).current,
            (final(self).state(), type_res(r)) == p_let_type(old(self).input(), old(self).state()),
            err_marks(old(self).input(), r),
    {
        if !self.match_token(Tokentype::Colon) {
            return Ok(PrimitiveType::Unknown.type_id());
        }
        if self.check(Tokentype::Fn) || self.check(Tokentype::LeftParen) {
            return self.parse_type();
        }
        if !self.check(Tokentype::Identifier) {
            return Err(self.error_at(self.current, ErrorCode::ExpectedType, string_from("Expected type name after colon")));
        }
        let type_at = self.current;
        self.advance();
        let type_word = self.lexeme_at(type_at).as_str();
        if crate::text::str_eq(type_word, "int") {
            return Err(self.error_at(
                type_at,
                ErrorCode::InvalidSyntax,
                string_from("'int' is not a valid type specifier. Use 'i32', 'i64', 'u32', or 'u64' instead"),
            ));
        } else if crate::text::str_eq(type_word, "float") {
            return Err(self.error_at(
                type_at,
                ErrorCode::InvalidSyntax,
                string_from("'float' is not a valid type specifier. Use 'f32' or 'f64' instead"),
            ));
        }
        let mut unknown_message = string_from("Unknown type name: ");
        push_str(&mut unknown_message, type_word);
        let var_type = match self.symbols.type_named(type_word) {
            Some(t) => t,
            None => {
                let e = self.error_at(type_at, ErrorCode::InvalidSyntax, unknown_message.clone());
                self.record(&e);
                PrimitiveType::Unknown.type_id()
            },
        };
        if var_type == PrimitiveType::Unknown.type_id() && !self.errors_mention(unknown_message.as_str()) {
            let mut m = string_from("Unknown type: ");
            push_str(&mut m, type_word);
            return Err(self.error_at(type_at, ErrorCode::InvalidSyntax, m));
        }
        Ok(var_type)
    }

    /// Reads a variable declaration after its `let`.
    fn let_statement(&mut self) -> (r: Result<Statement, ParseError>)
        requires
            old(self).inv(),
        ensures
            final(self).inv(),
            final(self).same_input(old(self)),
            old(self).current <= final(self).current,
            r is Ok ==> old(self).current < final(self).current,
            (final(self).state(), stmt_res(r)) == p_let(old(self).input(), old(self).state()),
            err_marks(old(self).input(), r),
        decreases old(self).tokens@.len() - old(self).current, 17int,
    {
        let is_mutable = self.match_token(Tokentype::Mut);
        if !self.check(Tokentype::Identifier) {
            return Err(self.error_at(self.current, ErrorCode::ExpectedIdentifier, string_from("Expected identifier after 'let'")));
        }
        let name_at = self.current;
        let name = self.lexeme_at(name_at).clone();
        let location = self.token_location(name_at);
        self.advance();
        let expr_type = match self.let_type_annotation() {
            Ok(t) => t,
            Err(e) => return Err(e),
        };
        if !self.match_token(Tokentype::Equal) {
            return Err(self.error_at(self.current, ErrorCode::ExpectedEquals, string_from("Expected '=' after variable name")));
        }
        let value = match self.expression() {
            Ok(e) => e,
            Err(e) => return Err(e),
        };
        if !self.match_token(Tokentype::Semicolon) {
            return Err(self.error_at(self.current, ErrorCode::ExpectedSemicolon, string_from("Expected ';' after let statement")));
        }
        Ok(Statement::Let(LetStatement { name, is_mutable, value, expr_type, location }))
    }

    /// Reads an expression followed by a semicolon.
    fn expression_statement(&mut self) -> (r: Result<Statement, ParseError>)
        requires
            old(self).inv(),
        ensures
            final(self).inv(),
            final(self).same_input(old(self)),
            old(self).current <= final(self).current,
            r is Ok ==> old(self).current < final(self).current,
            (final(self).state(), stmt_res(r)) == p_expression_statement(old(self).input(), old(self).state()),
            err_marks(old(self).input(), r),
        decreases old(self).tokens@.len() - old(self).current, 17int,
    {
        let expr = match self.expression() {
            Ok(e) => e,
            Err(e) => return Err(e),
        };
        if !self.match_token(Tokentype::Semicolon) {
            return Err(self.error_at(self.current, ErrorCode::ExpectedSemicolon, string_from("Expected ';' after expression")));
        }
        Ok(Statement::Expression(expr))
    }

    /// Reads an assignment `name = value;`.
    fn assignment_statement(&mut self) -> (r: Result<Statement, ParseError>)
        requires
            old(self).inv(),
        ensures
            final(self).inv(),
            final(self).same_input(old(self)),
            old(self).current <= final(self).current,
            r is Ok ==> old(self).current < final(self).current,
            (final(self).state(), stmt_res(r)) == p_assignment(old(self).input(), old(self).state()),
            err_marks(old(self).input(), r),
        decreases old(self).tokens@.len() - old(self).current, 17int,
    {
        if !self.check(Tokentype::Identifier) {
            return Err(self.error_at(
                self.current,
                ErrorCode::ExpectedIdentifier,
                string_from("Expected identifier for assignment"),
            ));
        }
        let name_at = self.current;
        let name = self.lexeme_at(name_at).clone();
        let location = self.token_location(name_at);
        self.advance();
        if !self.match_token(Tokentype::Equal) {
            return Err(self.error_at(self.current, ErrorCode::ExpectedEquals, string_from("Expected '=' for assignment")));
        }
        let value = match self.expression() {
            Ok(e) => e,
            Err(e) => return Err(e),
        };
        if !self.match_token(Tokentype::Semicolon) {
            return Err(self.error_at(self.current, ErrorCode::ExpectedSemicolon, string_from("Expected ';' after assignment")));
        }
        Ok(Statement::Assignment(AssignmentStatement { name, value, location }))
    }

    /// Reads an if statement after its `if`.
    #[verifier::rlimit(40)]
    fn if_statement(&mut self) -> (r: Result<Statement, ParseError>)
        requires
            old(self).inv(),
            old(self).current >= 1,
        ensures
            final(self).inv(),
            final(self).same_input(old(self)),
            old(self).current <= final(self).current,
            r is Ok ==> old(self).current < final(self).current,
            (final(self).state(), stmt_res(r)) == p_if(old(self).input(), old(self).state()),
            err_marks(old(self).input(), r),
        decreases old(self).tokens@.len() - old(self).current, 20int,
    {
        let if_at = self.current - 1;
        let condition = match self.expression() {
            Ok(e) => e,
            Err(e) => return Err(e),
        };
        if !self.match_token(Tokentype::LeftBrace) {
            return Err(self.error_at(self.current, ErrorCode::ExpectedOpeningBrace, string_from("Expected '{' after if condition")));
        }
        let then_branch = match self.statements_until_brace() {
            Ok(ss) => ss,
            Err(e) => return Err(e),
        };
        if !self.match_token(Tokentype::RightBrace) {
            return Err(self.error_at(self.current, ErrorCode::ExpectedClosingBrace, string_from("Expected '}' after if body")));
        }
        let else_branch = if self.match_token(Tokentype::Else) {
            if !self.match_token(Tokentype::LeftBrace) {
                return Err(self.error_at(self.current, ErrorCode::ExpectedOpeningBrace, string_from("Expected '{' after else")));
            }
            let else_statements = match self.statements_until_brace() {
                Ok(ss) => ss,
                Err(e) => return Err(e),
            };
            if !self.match_token(Tokentype::RightBrace) {
                return Err(self.error_at(self.current, ErrorCode::ExpectedClosingBrace, string_from("Expected '}' after else body")));
            }
            Some(else_statements)
        } else {
            None
        };
        let location = self.range_location(if_at, self.current);
        Ok(Statement::If(IfStatement { condition, then_branch, else_branch, location }))
    }

    /// Skips to the next token that begins a statement: the token after a
    /// semicolon, or a `let`, `fn`, `struct` or `return`.
    fn synchronize(&mut self)
        requires
            old(self).inv(),
        ensures
            final(self).inv(),
            final(self).same_input(old(self)),
            final(self).errors == old(self).errors,
            final(self).context == old(self).context,
            final(self).current as int == synchronize(old(self).input(), old(self).current as int),
    {
        let ghost inp = self.input();
        self.advance();
        let ghost target = sync_from(inp, self.current as int);
        while !self.is_at_end()
            invariant
                self.inv(),
                self.input() == inp,
                self.same_input(old(self)),
                self.errors == old(self).errors,
                self.context == old(self).context,
                sync_from(inp, self.current as int) == target,
                target == synchronize(inp, old(self).current as int),
                !crate::grammar::at_end(inp, self.current as int) ==> self.current >= 1,
            decreases self.tokens@.len() - self.current,
        {
            if self.type_at(self.current - 1) == Tokentype::Semicolon {
                return;
            }
            let tt = self.type_at(self.current);
            if tt == Tokentype::Let || tt == Tokentype::Fn || tt == Tokentype::Struct || tt == Tokentype::Return {
                return;
            }
            self.advance();
        }
    }
}

/// The arguments of a call up to its closing parenthesis, from the token
/// after its opening parenthesis.
spec fn p_call_args(inp: ParseInput, s: PState) -> (PState, Result<Seq<SpecExpr>, SpecParseError>) {
    if !check(inp, s.pos, Tokentype::RightParen) {
        let (s1, r1) = p_expression(inp, s);
        match r1 {
            Err(e) => (s1, Err(e)),
            Ok(a) => if progressed(inp, s, s1) {
                p_args_tail(inp, s1, seq![a])
            } else {
                (s1, Ok(seq![a]))
            },
        }
    } else {
        (s, Ok(Seq::<SpecExpr>::empty()))
    }
}

/// Skipping to the next statement never moves back.
proof fn lemma_sync_from_ge(inp: ParseInput, p: int)
    requires
        0 <= p,
    ensures
        sync_from(inp, p) >= p,
    decreases inp.toks.len() - p,
{
    if 0 <= p < inp.toks.len() && !crate::grammar::at_end(inp, p) {
        lemma_sync_from_ge(inp, p + 1);
    }
}

/// A list of expressions is as long as its view.
proof fn lemma_exprs_view_len(es: Seq<Expression>)
    ensures
        exprs_view(es).len() == es.len(),
    decreases es.len(),
{
    if es.len() > 0 {
        lemma_exprs_view_len(es.subrange(0, es.len() - 1));
    }
}

/// What `parse` reads, as mathematical values.
pub open spec fn parse_input(tokens: Seq<Token>, line_info: &LineInfo, symbols: &SymbolTable) -> ParseInput {
    ParseInput { toks: tokens.map_values(|t: Token| t@), starts: line_info.starts(), symbols: symbols@ }
}

/// Parses the tokens of a program into its statements, resolving type
/// names through `symbols` and registering the function types that type
/// annotations spell out in `context`. Every statement that cannot be read
/// is reported as a compiler error, and reading resumes at the next
/// statement; the result is the statements when no error was recorded,
/// and all recorded errors otherwise. Every reported error marks a token of
/// the input, at the line and column of its offset.
pub fn parse(
    tokens: &[Token],
    line_info: &LineInfo,
    symbols: &SymbolTable,
    context: &mut AnalysisContext,
) -> (r: Result<Vec<Statement>, Vec<CompilerError>>)
    requires
        tokens_wf(tokens@.map_values(|t: Token| t@)),
        line_info.wf(),
        old(context)@.wf(),
    ensures
        match r {
            Ok(v) => parse_result(parse_input(tokens@, line_info, symbols), old(context)@) == Ok::<Seq<SpecStmt>, Seq<SpecCompilerError>>(
                stmts_view(v@),
            ),
            Err(es) => parse_result(parse_input(tokens@, line_info, symbols), old(context)@) == Err::<Seq<SpecStmt>, Seq<SpecCompilerError>>(
                es@.map_values(|e: CompilerError| e@),
            ),
        },
        final(context)@ == parse_outcome(parse_input(tokens@, line_info, symbols), old(context)@).1.types,
        final(context)@.wf(),
        r matches Err(es) ==> forall|k: int| 0 <= k < es@.len() ==> reports_token(
            parse_input(tokens@, line_info, symbols),
            #[trigger] es@[k]@,
        ),
{
    let ghost inp = parse_input(tokens@, line_info, symbols);
    let ghost ctx0 = context@;
    proof {
        crate::line_info::lemma_line_starts_ordered(line_info.source_text(), line_info.source_text().len());
    }
    let n = tokens.len();
    let mut owned = AnalysisContext::new();
    std::mem::swap(&mut owned, context);
    assert(owned@ == ctx0);
    let mut parser = Parser::new(tokens, line_info, symbols, owned);
    assert(parser.input() == inp);
    assert(parser.state().types == ctx0);
    assert(parser.state().errors =~= Seq::<SpecCompilerError>::empty());
    let ghost s0 = parser.state();
    let mut statements: Vec<Statement> = Vec::new();
    assert(stmts_view(statements@) =~= Seq::<SpecStmt>::empty());
    while !parser.is_at_end()
        invariant
            parser.inv(),
            parser.input() == inp,
            parser.tokens == tokens,
            s0 == (PState { pos: 0, errors: Seq::empty(), types: ctx0 }),
            p_program(inp, s0, Seq::empty()) == p_program(inp, parser.state(), stmts_view(statements@)),
        decreases parser.tokens@.len() - parser.current,
    {
        let ghost before = parser.state();
        match parser.statement() {
            Ok(stmt) => {
                proof {
                    lemma_stmts_view_push(statements@, stmt);
                }
                statements.push(stmt);
            },
            Err(e) => {
                let ghost after = parser.state();
                parser.record(&e);
                parser.synchronize();
                proof {
                    lemma_sync_from_ge(inp, advance(inp, after.pos));
                }
                assert(parser.state() == with_error(inp, after, synchronize(inp, after.pos), e@));
            },
        }
        assert(progressed(inp, before, parser.state()));
    }
    let ghost end = parser.state();
    *context = parser.context;
    if parser.errors.len() > 0 {
        Err(parser.errors)
    } else {
        assert(end.errors.len() == 0);
        Ok(statements)
    }
}

/// Whether the tokens are fit for `parse`: the last one is the end of
/// input, offsets increase along the list, and every token ends before the
/// largest offset.
pub fn tokens_fit_for_parsing(tokens: &[Token]) -> (r: bool)
    ensures
        r == tokens_wf(tokens@.map_values(|t: Token| t@)),
{
    let ghost toks = tokens@.map_values(|t: Token| t@);
    let n = tokens.len();
    if n == 0 || tokens[n - 1].token_type != Tokentype::Eof {
        return false;
    }
    let mut i: usize = 0;
    while i < n
        invariant
            n == tokens@.len(),
            toks == tokens@.map_values(|t: Token| t@),
            i <= n,
            forall|k: int| 0 <= k < i ==> 0 <= #[trigger] toks[k].pos && toks[k].pos + toks[k].lexeme.len() < usize::MAX,
            forall|a: int, b: int| 0 <= a <= b < i ==> #[trigger] toks[a].pos <= #[trigger] toks[b].pos,
        decreases n - i,
    {
        let t = &tokens[i];
        assert(toks[i as int] == t@);
        let len = chars_len(&t.lexeme);
        if t.pos >= usize::MAX - len {
            assert(toks[i as int].pos + toks[i as int].lexeme.len() >= usize::MAX);
            return false;
        }
        if i > 0 && tokens[i - 1].pos > t.pos {
            assert(toks[i - 1] == tokens@[i - 1]@);
            assert(toks[i - 1].pos > toks[i as int].pos);
            return false;
        }
        proof {
            assert forall|a: int, b: int| 0 <= a <= b < i + 1 implies #[trigger] toks[a].pos <= #[trigger] toks[b].pos by {
                if b == i && a < i {
                    assert(toks[a].pos <= toks[i - 1].pos);
                    assert(toks[i - 1] == tokens@[i - 1]@);
                }
            }
        }
        i = i + 1;
    }
    true
}

} // verus!
