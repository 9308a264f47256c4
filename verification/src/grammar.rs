//! The grammar of the language as the parser reads it: for each construct,
//! what it yields from a position in the token list, where it leaves the
//! reader, and which errors it reports.
//!
//! Where reading goes on after a part that was read successfully, the
//! grammar asks that the reader has moved forward (`progressed`); every
//! successful read consumes at least one token, so the other alternative of
//! those tests never arises. It keeps each definition well founded.
use vstd::prelude::*;
use crate::analysis_context::SpecContext;
use crate::ast::{type_named, PrimitiveType, SpecSymbol, TypeId};
use crate::compiler_error::SpecCompilerError;
use crate::error_codes::ErrorCode;
use crate::line_info::line_col_in;
use crate::location::Location;
use crate::numbers::{spec_is_float_text, spec_parse_i64};
use crate::syntax::{
    spec_span, BinaryOperator, SpecExpr, SpecFloat, SpecLiteral, SpecParameter, SpecStmt,
    UnaryOperator,
};
use crate::text::{contains_text, signed_decimal};
use crate::token::{SpecToken, Tokentype};

verus! {

/// What the parser reads: the tokens, the offsets at which the source
/// lines begin, and the symbols that name types.
pub struct ParseInput {
    pub toks: Seq<SpecToken>,
    pub starts: Seq<usize>,
    pub symbols: Seq<SpecSymbol>,
}

/// Where the parser stands: the index of the current token, the errors
/// recorded so far, and the context in which the function types that type
/// annotations spell out are registered.
pub struct PState {
    pub pos: int,
    pub errors: Seq<SpecCompilerError>,
    pub types: SpecContext,
}

/// The mathematical content of a parse error: its code, message, and the
/// offset and length of the marked source text.
pub struct SpecParseError {
    pub error_code: ErrorCode,
    pub message: Seq<char>,
    pub position: usize,
    pub underline_length: usize,
}

/// The tokens are fit for parsing: the last one is the end of input,
/// offsets increase along the list, and every token ends before the
/// largest offset.
pub open spec fn tokens_wf(toks: Seq<SpecToken>) -> bool {
    &&& toks.len() >= 1
    &&& toks.last().token_type == Tokentype::Eof
    &&& forall|i: int| 0 <= i < toks.len() ==> 0 <= #[trigger] toks[i].pos && toks[i].pos + toks[i].lexeme.len()
        < usize::MAX
    &&& forall|i: int, j: int| 0 <= i <= j < toks.len() ==> #[trigger] toks[i].pos <= #[trigger] toks[j].pos
}

/// The input is fit for parsing: the tokens are, and the line starts begin
/// at 0 and increase strictly.
pub open spec fn input_wf(inp: ParseInput) -> bool {
    &&& tokens_wf(inp.toks)
    &&& forall|i: int, j: int| 0 <= i < j < inp.starts.len() ==> inp.starts[i] < inp.starts[j]
    &&& inp.starts.len() >= 1
    &&& inp.starts[0] == 0
}

/// The state `s` moved to token `p`.
pub open spec fn at(s: PState, p: int) -> PState {
    PState { pos: p, ..s }
}

/// Whether the token at `p` is the end of input.
pub open spec fn at_end(inp: ParseInput, p: int) -> bool {
    inp.toks[p].token_type == Tokentype::Eof
}

/// Whether the token at `p` lies before the end of input and has type `tt`.
pub open spec fn check(inp: ParseInput, p: int, tt: Tokentype) -> bool {
    &&& 0 <= p < inp.toks.len()
    &&& !at_end(inp, p)
    &&& inp.toks[p].token_type == tt
}

/// Whether the token after `p` exists and has type `tt`.
pub open spec fn check_next(inp: ParseInput, p: int, tt: Tokentype) -> bool {
    p + 1 < inp.toks.len() && inp.toks[p + 1].token_type == tt
}

/// The position after `p`, unless `p` is the end of input.
pub open spec fn advance(inp: ParseInput, p: int) -> int {
    if at_end(inp, p) {
        p
    } else {
        p + 1
    }
}

/// `s2` lies after `s` and within the tokens.
pub open spec fn progressed(inp: ParseInput, s: PState, s2: PState) -> bool {
    s.pos < s2.pos <= inp.toks.len()
}

/// The text of token `i`.
pub open spec fn lexeme(inp: ParseInput, i: int) -> Seq<char> {
    inp.toks[i].lexeme
}

/// The line and column of offset `pos`.
pub open spec fn line_col(inp: ParseInput, pos: usize) -> (usize, usize) {
    line_col_in(inp.starts, pos)
}

/// The location of token `i`.
pub open spec fn tok_loc(inp: ParseInput, i: int) -> Location {
    let t = inp.toks[i];
    let lc = line_col(inp, t.pos as usize);
    Location { position: t.pos as usize, line: lc.0, column: lc.1, length: t.lexeme.len() as usize }
}

/// An error marking token `i`.
pub open spec fn error_at(inp: ParseInput, i: int, code: ErrorCode, message: Seq<char>) -> SpecParseError {
    SpecParseError {
        error_code: code,
        message,
        position: inp.toks[i].pos as usize,
        underline_length: inp.toks[i].lexeme.len() as usize,
    }
}

/// The compiler error that a parse error becomes, for lines that begin at
/// `starts`.
pub open spec fn compiler_error_of(starts: Seq<usize>, e: SpecParseError) -> SpecCompilerError {
    let lc = line_col_in(starts, e.position);
    SpecCompilerError {
        error_code: e.error_code,
        message: e.message,
        line: lc.0 as int,
        column: lc.1 as int,
        position: e.position as int,
        token_length: Some(e.underline_length),
    }
}

/// The compiler error that a parse error becomes.
pub open spec fn to_compiler(inp: ParseInput, e: SpecParseError) -> SpecCompilerError {
    compiler_error_of(inp.starts, e)
}

/// The identifier of a primitive type.
pub open spec fn prim(t: PrimitiveType) -> TypeId {
    t.spec_type_id()
}

/// The message for the placeholder name of integer types.
pub open spec fn int_specifier_message() -> Seq<char> {
    "'int' is not a valid type specifier. Use 'i32', 'i64', 'u32', or 'u64' instead"@
}

/// The message for the placeholder name of float types.
pub open spec fn float_specifier_message() -> Seq<char> {
    "'float' is not a valid type specifier. Use 'f32' or 'f64' instead"@
}

/// The message for the name of the unknown type.
pub open spec fn unknown_specifier_message() -> Seq<char> {
    "'unknown' is not a valid type specifier"@
}

// ---------------------------------------------------------------- literals

/// An integer literal whose token is just before `s`, with the type suffix
/// that an identifier after it may give.
pub open spec fn p_integer(inp: ParseInput, s: PState) -> (PState, Result<SpecExpr, SpecParseError>) {
    let text = lexeme(inp, s.pos - 1);
    let location = tok_loc(inp, s.pos - 1);
    match spec_parse_i64(text) {
        None => (s, Err(error_at(inp, s.pos - 1, ErrorCode::InvalidNumberLiteral, "Invalid integer: "@ + text))),
        Some(v) => {
            let lit = |value: SpecLiteral, t: PrimitiveType|
                SpecExpr::Literal { value, expr_type: prim(t), location };
            let out_of_range = |name: Seq<char>|
                Err(
                    error_at(
                        inp,
                        s.pos,
                        ErrorCode::ValueOutOfRange,
                        "Value "@ + signed_decimal(v as int) + " is out of range for "@ + name,
                    ),
                );
            let next = at(s, s.pos + 1);
            if check(inp, s.pos, Tokentype::Identifier) && lexeme(inp, s.pos) == "i32"@ {
                if v > i32::MAX || v < i32::MIN {
                    (next, out_of_range("i32"@))
                } else {
                    (next, Ok(lit(SpecLiteral::I32(v as i32), PrimitiveType::I32)))
                }
            } else if check(inp, s.pos, Tokentype::Identifier) && lexeme(inp, s.pos) == "i64"@ {
                (next, Ok(lit(SpecLiteral::I64(v), PrimitiveType::I64)))
            } else if check(inp, s.pos, Tokentype::Identifier) && lexeme(inp, s.pos) == "u32"@ {
                if v < 0 || v > u32::MAX {
                    (next, out_of_range("u32"@))
                } else {
                    (next, Ok(lit(SpecLiteral::U32(v as u32), PrimitiveType::U32)))
                }
            } else if check(inp, s.pos, Tokentype::Identifier) && lexeme(inp, s.pos) == "u64"@ {
                if v < 0 {
                    (next, out_of_range("u64"@))
                } else {
                    (next, Ok(lit(SpecLiteral::U64(v as u64), PrimitiveType::U64)))
                }
            } else if check(inp, s.pos, Tokentype::Identifier) && lexeme(inp, s.pos) == "f32"@ {
                (next, Ok(lit(SpecLiteral::F32(SpecFloat::Integer(v)), PrimitiveType::F32)))
            } else if check(inp, s.pos, Tokentype::Identifier) && lexeme(inp, s.pos) == "f64"@ {
                (next, Ok(lit(SpecLiteral::F64(SpecFloat::Integer(v)), PrimitiveType::F64)))
            } else {
                (s, Ok(lit(SpecLiteral::UnspecifiedInteger(v), PrimitiveType::UnspecifiedInt)))
            }
        },
    }
}

/// A float literal whose token is just before `s`, with the type suffix
/// that an identifier after it may give.
pub open spec fn p_float(inp: ParseInput, s: PState) -> (PState, Result<SpecExpr, SpecParseError>) {
    let text = lexeme(inp, s.pos - 1);
    let location = tok_loc(inp, s.pos - 1);
    let lit = |value: SpecLiteral, t: PrimitiveType|
        SpecExpr::Literal { value, expr_type: prim(t), location };
    let next = at(s, s.pos + 1);
    if !spec_is_float_text(text) {
        (s, Err(error_at(inp, s.pos - 1, ErrorCode::InvalidNumberLiteral, "Invalid float: "@ + text)))
    } else if check(inp, s.pos, Tokentype::Identifier) && lexeme(inp, s.pos) == "f32"@ {
        (next, Ok(lit(SpecLiteral::F32(SpecFloat::Text(text)), PrimitiveType::F32)))
    } else if check(inp, s.pos, Tokentype::Identifier) && lexeme(inp, s.pos) == "f64"@ {
        (next, Ok(lit(SpecLiteral::F64(SpecFloat::Text(text)), PrimitiveType::F64)))
    } else {
        (s, Ok(lit(SpecLiteral::UnspecifiedFloat(SpecFloat::Text(text)), PrimitiveType::UnspecifiedFloat)))
    }
}

/// The message when `(` does not follow `fn` in a function type.
pub open spec fn fn_open_message() -> Seq<char> {
    " Expected '(' after 'fn'"@
}

/// The message when `)` does not close the parameters of a function type.
pub open spec fn fn_close_message() -> Seq<char> {
    " Expected ')' after function parameters"@
}

/// The message when `->` does not follow the parameters of a function type.
pub open spec fn fn_arrow_message() -> Seq<char> {
    "Expected '->' after function parameters"@
}

/// The message when `)` does not follow `(` in the unit type.
pub open spec fn unit_close_message() -> Seq<char> {
    " Expected ')' for unit type"@
}

/// Whether the token at `p` begins a type that is spelled out rather than
/// named: `fn` of a function type, or `(` of the unit type.
pub open spec fn spells_type(inp: ParseInput, p: int) -> bool {
    check(inp, p, Tokentype::Fn) || check(inp, p, Tokentype::LeftParen)
}

/// A type at `s`: a function type `fn(T, ..) -> R`, registered in the
/// context of function types, the unit type `()`, or a type name resolved
/// through the symbols.
pub open spec fn p_type(inp: ParseInput, s: PState) -> (PState, Result<TypeId, SpecParseError>)
    decreases inp.toks.len() - s.pos, 0int,
{
    if check(inp, s.pos, Tokentype::Fn) {
        let p1 = s.pos + 1;
        if !check(inp, p1, Tokentype::LeftParen) {
            (at(s, p1), Err(error_at(inp, p1, ErrorCode::ExpectedOpeningParen, fn_open_message())))
        } else {
            let (s2, rl) = if check(inp, p1 + 1, Tokentype::RightParen) {
                (at(s, p1 + 1), Ok(Seq::<TypeId>::empty()))
            } else {
                p_type_list(inp, at(s, p1 + 1), Seq::empty())
            };
            match rl {
                Err(e) => (s2, Err(e)),
                Ok(params) => if !check(inp, s2.pos, Tokentype::RightParen) {
                    (s2, Err(error_at(inp, s2.pos, ErrorCode::ExpectedClosingParen, fn_close_message())))
                } else if !check(inp, s2.pos + 1, Tokentype::Arrow) {
                    (at(s2, s2.pos + 1), Err(error_at(inp, s2.pos + 1, ErrorCode::InvalidSyntax, fn_arrow_message())))
                } else if progressed(inp, s, s2) {
                    let (s4, rr) = p_type(inp, at(s2, s2.pos + 2));
                    match rr {
                        Err(e) => (s4, Err(e)),
                        Ok(ret) => {
                            let (types, id) = s4.types.with_function_type(params, ret);
                            (PState { types, ..s4 }, Ok(id))
                        },
                    }
                } else {
                    (s2, Err(error_at(inp, s2.pos, ErrorCode::ExpectedClosingParen, fn_close_message())))
                },
            }
        }
    } else if check(inp, s.pos, Tokentype::LeftParen) {
        let p1 = s.pos + 1;
        if check(inp, p1, Tokentype::RightParen) {
            (at(s, p1 + 1), Ok(prim(PrimitiveType::Unit)))
        } else {
            (at(s, p1), Err(error_at(inp, p1, ErrorCode::ExpectedClosingParen, unit_close_message())))
        }
    } else if !check(inp, s.pos, Tokentype::Identifier) {
        (s, Err(error_at(inp, s.pos, ErrorCode::ExpectedIdentifier, "Expected type identifier"@)))
    } else {
        let name = lexeme(inp, s.pos);
        let s1 = at(s, s.pos + 1);
        if name == "int"@ {
            (s1, Err(error_at(inp, s1.pos, ErrorCode::UnknownType, int_specifier_message())))
        } else if name == "float"@ {
            (s1, Err(error_at(inp, s1.pos, ErrorCode::UnknownType, float_specifier_message())))
        } else if name == "unknown"@ {
            (s1, Err(error_at(inp, s.pos, ErrorCode::UnknownType, unknown_specifier_message())))
        } else {
            match crate::ast::lookup_in(inp.symbols, name) {
                Some(sym) => if sym.kind == crate::ast::SymbolKind::Type {
                    (s1, Ok(sym.type_id))
                } else {
                    (s1, Err(error_at(inp, s.pos, ErrorCode::UnknownType, "'"@ + name + "' is not a type name"@)))
                },
                None => (s1, Err(error_at(inp, s.pos, ErrorCode::UnknownType, "Unknown type: "@ + name))),
            }
        }
    }
}

/// The parameter types of a function type from `s` on, separated by
/// commas, after the types `acc` read before.
pub open spec fn p_type_list(inp: ParseInput, s: PState, acc: Seq<TypeId>) -> (PState, Result<Seq<TypeId>, SpecParseError>)
    decreases inp.toks.len() - s.pos, 1int,
{
    let (s2, r) = p_type(inp, s);
    match r {
        Err(e) => (s2, Err(e)),
        Ok(t) => if check(inp, s2.pos, Tokentype::Comma) && progressed(inp, s, s2) {
            p_type_list(inp, at(s2, s2.pos + 1), acc.push(t))
        } else {
            (s2, Ok(acc.push(t)))
        },
    }
}

// ------------------------------------------------------------- expressions

/// The operator that token type `tt` stands for at precedence level
/// `level`, from the tightest (0: `*` `/`) to the loosest (5: `||`).
pub open spec fn level_operator(level: nat, tt: Tokentype) -> Option<BinaryOperator> {
    if level == 0 {
        match tt {
            Tokentype::Multiply => Some(BinaryOperator::Multiply),
            Tokentype::Divide => Some(BinaryOperator::Divide),
            _ => None,
        }
    } else if level == 1 {
        match tt {
            Tokentype::Plus => Some(BinaryOperator::Add),
            Tokentype::Minus => Some(BinaryOperator::Subtract),
            _ => None,
        }
    } else if level == 2 {
        match tt {
            Tokentype::Greater => Some(BinaryOperator::GreaterThan),
            Tokentype::GreaterEqual => Some(BinaryOperator::GreaterThanOrEqual),
            Tokentype::Less => Some(BinaryOperator::LessThan),
            Tokentype::LessEqual => Some(BinaryOperator::LessThanOrEqual),
            _ => None,
        }
    } else if level == 3 {
        match tt {
            Tokentype::EqualEqual => Some(BinaryOperator::Equal),
            Tokentype::NotEqual => Some(BinaryOperator::NotEqual),
            _ => None,
        }
    } else if level == 4 {
        match tt {
            Tokentype::And => Some(BinaryOperator::And),
            _ => None,
        }
    } else {
        match tt {
            Tokentype::Or => Some(BinaryOperator::Or),
            _ => None,
        }
    }
}

/// The type recorded for a binary expression at precedence level `level`:
/// unknown for arithmetic, boolean for comparisons and logic.
pub open spec fn level_type(level: nat) -> TypeId {
    if level <= 1 {
        prim(PrimitiveType::Unknown)
    } else {
        prim(PrimitiveType::Bool)
    }
}

/// The operator of precedence level `level` at `p`, if the token there is one.
pub open spec fn operator_at(inp: ParseInput, p: int, level: nat) -> Option<BinaryOperator> {
    if 0 <= p < inp.toks.len() && !at_end(inp, p) {
        level_operator(level, inp.toks[p].token_type)
    } else {
        None
    }
}

/// An expression.
pub open spec fn p_expression(inp: ParseInput, s: PState) -> (PState, Result<SpecExpr, SpecParseError>)
    decreases inp.toks.len() - s.pos, 15int,
{
    p_binary(inp, s, 5)
}

/// An operand of precedence level `level`: a binary expression of the level
/// below, or a unary expression below level 0.
pub open spec fn p_operand(inp: ParseInput, s: PState, level: nat) -> (PState, Result<SpecExpr, SpecParseError>)
    decreases inp.toks.len() - s.pos, 3 + 2 * level,
{
    if level == 0 {
        p_unary(inp, s)
    } else {
        p_binary(inp, s, (level - 1) as nat)
    }
}

/// A left-associative chain of operands joined by operators of precedence
/// level `level`.
pub open spec fn p_binary(inp: ParseInput, s: PState, level: nat) -> (PState, Result<SpecExpr, SpecParseError>)
    decreases inp.toks.len() - s.pos, 4 + 2 * level,
{
    let (s2, r) = p_operand(inp, s, level);
    match r {
        Err(e) => (s2, Err(e)),
        Ok(left) => if progressed(inp, s, s2) {
            p_binary_tail(inp, s2, level, left)
        } else {
            (s2, Ok(left))
        },
    }
}

/// The rest of a chain of precedence level `level` after `left`.
pub open spec fn p_binary_tail(inp: ParseInput, s: PState, level: nat, left: SpecExpr) -> (
    PState,
    Result<SpecExpr, SpecParseError>,
)
    decreases inp.toks.len() - s.pos, 4 + 2 * level,
{
    match operator_at(inp, s.pos, level) {
        None => (s, Ok(left)),
        Some(operator) => {
            let (s2, r) = p_operand(inp, at(s, s.pos + 1), level);
            match r {
                Err(e) => (s2, Err(e)),
                Ok(right) => {
                    let expr = SpecExpr::Binary {
                        left: Box::new(left),
                        operator,
                        right: Box::new(right),
                        expr_type: level_type(level),
                        location: spec_span(left.location(), right.location()),
                    };
                    if progressed(inp, s, s2) {
                        p_binary_tail(inp, s2, level, expr)
                    } else {
                        (s2, Ok(expr))
                    }
                },
            }
        },
    }
}

/// A unary expression: `-` or `!` applied to a primary expression, or a
/// primary expression.
pub open spec fn p_unary(inp: ParseInput, s: PState) -> (PState, Result<SpecExpr, SpecParseError>)
    decreases inp.toks.len() - s.pos, 2int,
{
    if check(inp, s.pos, Tokentype::Minus) || check(inp, s.pos, Tokentype::Not) {
        let operator = if check(inp, s.pos, Tokentype::Minus) {
            UnaryOperator::Negate
        } else {
            UnaryOperator::Not
        };
        let expr_type = if check(inp, s.pos, Tokentype::Minus) {
            prim(PrimitiveType::Unknown)
        } else {
            prim(PrimitiveType::Bool)
        };
        let (s2, r) = p_primary(inp, at(s, s.pos + 1));
        match r {
            Err(e) => (s2, Err(e)),
            Ok(right) => (
                s2,
                Ok(
                    SpecExpr::Unary {
                        operator,
                        right: Box::new(right),
                        expr_type,
                        location: spec_span(tok_loc(inp, s.pos), right.location()),
                    },
                ),
            ),
        }
    } else {
        p_primary(inp, s)
    }
}

/// A primary expression: a literal, a conditional, a parenthesized
/// expression, a call or a variable.
pub open spec fn p_primary(inp: ParseInput, s: PState) -> (PState, Result<SpecExpr, SpecParseError>)
    decreases inp.toks.len() - s.pos, 1int,
{
    let p = s.pos;
    let s1 = at(s, p + 1);
    if check(inp, p, Tokentype::IntegerLiteral) {
        p_integer(inp, s1)
    } else if check(inp, p, Tokentype::FloatLiteral) {
        p_float(inp, s1)
    } else if check(inp, p, Tokentype::StringLiteral) {
        (
            s1,
            Ok(
                SpecExpr::Literal {
                    value: SpecLiteral::String(lexeme(inp, p)),
                    expr_type: prim(PrimitiveType::String),
                    location: tok_loc(inp, p),
                },
            ),
        )
    } else if check(inp, p, Tokentype::BooleanLiteral) {
        (
            s1,
            Ok(
                SpecExpr::Literal {
                    value: SpecLiteral::Boolean(lexeme(inp, p) == "true"@),
                    expr_type: prim(PrimitiveType::Bool),
                    location: tok_loc(inp, p),
                },
            ),
        )
    } else if check(inp, p, Tokentype::If) {
        p_conditional(inp, s1)
    } else if check(inp, p, Tokentype::LeftParen) {
        let (s2, r) = p_expression(inp, s1);
        match r {
            Err(e) => (s2, Err(e)),
            Ok(e) => if check(inp, s2.pos, Tokentype::RightParen) {
                (at(s2, s2.pos + 1), Ok(e))
            } else {
                (s2, Err(error_at(inp, s2.pos, ErrorCode::ExpectedClosingParen, "Expected ')' after expression"@)))
            },
        }
    } else if check(inp, p, Tokentype::Identifier) {
        if check(inp, p + 1, Tokentype::LeftParen) {
            p_call(inp, at(s, p + 2), lexeme(inp, p))
        } else {
            (s1, Ok(SpecExpr::Variable { name: lexeme(inp, p), location: tok_loc(inp, p) }))
        }
    } else {
        (
            s,
            Err(
                error_at(
                    inp,
                    p,
                    ErrorCode::ExpectedExpression,
                    "Expected expression, found "@ + inp.toks[p].token_type.spec_display_name() + seq![':', ' ']
                        + lexeme(inp, p),
                ),
            ),
        )
    }
}

/// The arguments of a call after the first, each after a comma, appended
/// to `args`.
pub open spec fn p_args_tail(inp: ParseInput, s: PState, args: Seq<SpecExpr>) -> (
    PState,
    Result<Seq<SpecExpr>, SpecParseError>,
)
    decreases inp.toks.len() - s.pos, 0int,
{
    if check(inp, s.pos, Tokentype::Comma) {
        let s1 = at(s, s.pos + 1);
        if args.len() >= 255 {
            (s1, Err(error_at(inp, s1.pos, ErrorCode::InvalidSyntax, "Cannot have more than 255 arguments"@)))
        } else {
            let (s2, r) = p_expression(inp, s1);
            match r {
                Err(e) => (s2, Err(e)),
                Ok(a) => if progressed(inp, s, s2) {
                    p_args_tail(inp, s2, args.push(a))
                } else {
                    (s2, Ok(args.push(a)))
                },
            }
        }
    } else {
        (s, Ok(args))
    }
}

/// The arguments and closing parenthesis of a call of `name`, whose opening
/// parenthesis is just before `s`.
pub open spec fn p_call(inp: ParseInput, s: PState, name: Seq<char>) -> (PState, Result<SpecExpr, SpecParseError>)
    decreases inp.toks.len() - s.pos, 16int,
{
    let start = tok_loc(inp, s.pos - 1);
    let (s2, r) = if !check(inp, s.pos, Tokentype::RightParen) {
        let (s1, r1) = p_expression(inp, s);
        match r1 {
            Err(e) => (s1, Err(e)),
            Ok(a) => if progressed(inp, s, s1) {
                p_args_tail(inp, s1, seq![a])
            } else {
                (s1, Ok(seq![a]))
            },
        }
    } else {
        (s, Ok(Seq::<SpecExpr>::empty()))
    };
    match r {
        Err(e) => (s2, Err(e)),
        Ok(args) => if check(inp, s2.pos, Tokentype::RightParen) {
            (
                at(s2, s2.pos + 1),
                Ok(
                    SpecExpr::Call {
                        name,
                        arguments: args,
                        expr_type: prim(PrimitiveType::Unknown),
                        location: spec_span(start, tok_loc(inp, s2.pos)),
                    },
                ),
            )
        } else {
            (
                s2,
                Err(error_at(inp, s2.pos, ErrorCode::ExpectedClosingParen, "Expected ')' after function arguments"@)),
            )
        },
    }
}

/// The location from the token at `start` to the end of the token just
/// before `end`.
pub open spec fn range_loc(inp: ParseInput, start: int, end: int) -> Location {
    let first = inp.toks[start];
    let last = inp.toks[end - 1];
    let lc = line_col(inp, first.pos as usize);
    Location {
        position: first.pos as usize,
        line: lc.0,
        column: lc.1,
        length: (last.pos + last.lexeme.len() - first.pos) as usize,
    }
}

/// The body of a conditional expression `c { a } else { b }` after its `if`.
pub open spec fn p_conditional(inp: ParseInput, s: PState) -> (PState, Result<SpecExpr, SpecParseError>)
    decreases inp.toks.len() - s.pos, 16int,
{
    let (s1, r1) = p_expression(inp, s);
    match r1 {
        Err(e) => (s1, Err(e)),
        Ok(condition) => if !check(inp, s1.pos, Tokentype::LeftBrace) {
            (s1, Err(error_at(inp, s1.pos, ErrorCode::ExpectedOpeningBrace, "Expected '{' after if condition"@)))
        } else if !progressed(inp, s, s1) {
            (s1, Ok(condition))
        } else {
            let (s2, r2) = p_expression(inp, at(s1, s1.pos + 1));
            match r2 {
                Err(e) => (s2, Err(e)),
                Ok(then_branch) => if !check(inp, s2.pos, Tokentype::RightBrace) {
                    (s2, Err(error_at(inp, s2.pos, ErrorCode::ExpectedClosingBrace, "Expected '}' after if expression"@)))
                } else if !check(inp, s2.pos + 1, Tokentype::Else) {
                    (
                        at(s2, s2.pos + 1),
                        Err(error_at(inp, s2.pos + 1, ErrorCode::ExpectedElse, "Expected 'else' after if expression"@)),
                    )
                } else if !check(inp, s2.pos + 2, Tokentype::LeftBrace) {
                    (
                        at(s2, s2.pos + 2),
                        Err(error_at(inp, s2.pos + 2, ErrorCode::ExpectedOpeningBrace, "Expected '{' after else"@)),
                    )
                } else if !progressed(inp, s, s2) {
                    (s2, Ok(then_branch))
                } else {
                    let (s3, r3) = p_expression(inp, at(s2, s2.pos + 3));
                    match r3 {
                        Err(e) => (s3, Err(e)),
                        Ok(else_branch) => if !check(inp, s3.pos, Tokentype::RightBrace) {
                            (
                                s3,
                                Err(
                                    error_at(
                                        inp,
                                        s3.pos,
                                        ErrorCode::ExpectedClosingBrace,
                                        "Expected '}' after else expression"@,
                                    ),
                                ),
                            )
                        } else {
                            (
                                at(s3, s3.pos + 1),
                                Ok(
                                    SpecExpr::Conditional {
                                        condition: Box::new(condition),
                                        then_branch: Box::new(then_branch),
                                        else_branch: Box::new(else_branch),
                                        expr_type: prim(PrimitiveType::Unknown),
                                        location: range_loc(inp, s.pos - 1, s3.pos + 1),
                                    },
                                ),
                            )
                        },
                    }
                },
            }
        },
    }
}

// -------------------------------------------------------------- statements

/// A statement.
pub open spec fn p_statement(inp: ParseInput, s: PState) -> (PState, Result<SpecStmt, SpecParseError>)
    decreases inp.toks.len() - s.pos, 18int,
{
    let p = s.pos;
    let s1 = at(s, p + 1);
    if check(inp, p, Tokentype::Let) {
        p_let(inp, s1)
    } else if check(inp, p, Tokentype::Struct) {
        p_type_definition(inp, s1)
    } else if check(inp, p, Tokentype::Fn) {
        p_function(inp, s1)
    } else if check(inp, p, Tokentype::Return) {
        p_return(inp, s1)
    } else if check(inp, p, Tokentype::If) {
        p_if(inp, s1)
    } else if check(inp, p, Tokentype::LeftBrace) {
        p_block(inp, s1)
    } else if check(inp, p, Tokentype::Identifier) && check_next(inp, p, Tokentype::Equal) {
        p_assignment(inp, s)
    } else {
        p_expression_statement(inp, s)
    }
}

/// Statements up to a closing brace or the end of input, appended to `acc`.
pub open spec fn p_stmts(inp: ParseInput, s: PState, acc: Seq<SpecStmt>) -> (
    PState,
    Result<Seq<SpecStmt>, SpecParseError>,
)
    decreases inp.toks.len() - s.pos, 19int,
{
    if 0 <= s.pos < inp.toks.len() && !check(inp, s.pos, Tokentype::RightBrace) && !at_end(inp, s.pos) {
        let (s2, r) = p_statement(inp, s);
        match r {
            Err(e) => (s2, Err(e)),
            Ok(st) => if progressed(inp, s, s2) {
                p_stmts(inp, s2, acc.push(st))
            } else {
                (s2, Ok(acc.push(st)))
            },
        }
    } else {
        (s, Ok(acc))
    }
}

/// A block of statements after its opening brace.
pub open spec fn p_block(inp: ParseInput, s: PState) -> (PState, Result<SpecStmt, SpecParseError>)
    decreases inp.toks.len() - s.pos, 20int,
{
    let (s1, r) = p_stmts(inp, s, Seq::empty());
    match r {
        Err(e) => (s1, Err(e)),
        Ok(ss) => if check(inp, s1.pos, Tokentype::RightBrace) {
            (at(s1, s1.pos + 1), Ok(SpecStmt::Block(ss)))
        } else {
            (s1, Err(error_at(inp, s1.pos, ErrorCode::ExpectedClosingBrace, "Expected '}' after block"@)))
        },
    }
}

/// A return statement after its `return`.
pub open spec fn p_return(inp: ParseInput, s: PState) -> (PState, Result<SpecStmt, SpecParseError>)
    decreases inp.toks.len() - s.pos, 17int,
{
    let (s1, r) = if !check(inp, s.pos, Tokentype::Semicolon) {
        let (a, ra) = p_expression(inp, s);
        match ra {
            Err(e) => (a, Err(e)),
            Ok(e) => (a, Ok(Some(e))),
        }
    } else {
        (s, Ok(None))
    };
    match r {
        Err(e) => (s1, Err(e)),
        Ok(value) => if check(inp, s1.pos, Tokentype::Semicolon) {
            (at(s1, s1.pos + 1), Ok(SpecStmt::Return(value)))
        } else {
            (s1, Err(error_at(inp, s1.pos, ErrorCode::ExpectedSemicolon, "Expected ';' after return value"@)))
        },
    }
}

/// The state `s` at `p` with one more error recorded.
pub open spec fn with_error(inp: ParseInput, s: PState, p: int, e: SpecParseError) -> PState {
    PState { pos: p, errors: s.errors.push(to_compiler(inp, e)), ..s }
}

/// The optional return type `-> name` of a function declaration. An
/// unknown type name is recorded as an error and read as the unknown type.
pub open spec fn p_return_type(inp: ParseInput, s: PState) -> (PState, Result<TypeId, SpecParseError>) {
    if check(inp, s.pos, Tokentype::Arrow) {
        let p1 = s.pos + 1;
        if spells_type(inp, p1) {
            p_type(inp, at(s, p1))
        } else if !check(inp, p1, Tokentype::Identifier) {
            (at(s, p1), Err(error_at(inp, p1, ErrorCode::ExpectedType, "Expected return type after '->'"@)))
        } else {
            let name = lexeme(inp, p1);
            let s2 = at(s, p1 + 1);
            if name == "int"@ {
                (s2, Err(error_at(inp, p1, ErrorCode::InvalidSyntax, int_specifier_message())))
            } else if name == "float"@ {
                (s2, Err(error_at(inp, p1, ErrorCode::InvalidSyntax, float_specifier_message())))
            } else if name == "unknown"@ {
                (s2, Err(error_at(inp, p1, ErrorCode::InvalidSyntax, unknown_specifier_message())))
            } else {
                match type_named(inp.symbols, name) {
                    Some(t) => (s2, Ok(t)),
                    None => (
                        with_error(
                            inp,
                            s,
                            s2.pos,
                            error_at(inp, p1, ErrorCode::UnknownType, "Unknown type name: "@ + name),
                        ),
                        Ok(prim(PrimitiveType::Unknown)),
                    ),
                }
            }
        }
    } else {
        (s, Ok(prim(PrimitiveType::Unknown)))
    }
}

/// A parameter `name: type`. An unknown type name is recorded as an error
/// and read as the unknown type.
pub open spec fn p_parameter(inp: ParseInput, s: PState) -> (PState, Result<SpecParameter, SpecParseError>) {
    if !check(inp, s.pos, Tokentype::Identifier) {
        (s, Err(error_at(inp, s.pos, ErrorCode::ExpectedIdentifier, "Expected parameter name"@)))
    } else {
        let name = lexeme(inp, s.pos);
        let location = tok_loc(inp, s.pos);
        let p1 = s.pos + 1;
        if !check(inp, p1, Tokentype::Colon) {
            (at(s, p1), Err(error_at(inp, p1, ErrorCode::ExpectedColon, "Expected ':' after parameter name"@)))
        } else {
            let p2 = p1 + 1;
            if spells_type(inp, p2) {
                let (s3, rt) = p_type(inp, at(s, p2));
                match rt {
                    Ok(t) => (s3, Ok(SpecParameter { name, param_type: t, location })),
                    Err(e) => (s3, Err(e)),
                }
            } else if !check(inp, p2, Tokentype::Identifier) {
                (at(s, p2), Err(error_at(inp, p2, ErrorCode::ExpectedType, "Expected parameter type"@)))
            } else {
                let type_word = lexeme(inp, p2);
                match type_named(inp.symbols, type_word) {
                    Some(t) => (at(s, p2 + 1), Ok(SpecParameter { name, param_type: t, location })),
                    None => (
                        with_error(
                            inp,
                            s,
                            p2 + 1,
                            error_at(inp, p2, ErrorCode::UnknownType, "Unknown type name: "@ + type_word),
                        ),
                        Ok(SpecParameter { name, param_type: prim(PrimitiveType::Unknown), location }),
                    ),
                }
            }
        }
    }
}

/// The parameters after the first, each after a comma, appended to
/// `params`.
pub open spec fn p_params_tail(inp: ParseInput, s: PState, params: Seq<SpecParameter>) -> (
    PState,
    Result<Seq<SpecParameter>, SpecParseError>,
)
    decreases inp.toks.len() - s.pos,
{
    if check(inp, s.pos, Tokentype::Comma) {
        let s1 = at(s, s.pos + 1);
        if params.len() >= 255 {
            (s1, Err(error_at(inp, s1.pos, ErrorCode::InvalidSyntax, "Cannot have more than 255 parameters"@)))
        } else {
            let (s2, r) = p_parameter(inp, s1);
            match r {
                Err(e) => (s2, Err(e)),
                Ok(prm) => if progressed(inp, s, s2) {
                    p_params_tail(inp, s2, params.push(prm))
                } else {
                    (s2, Ok(params.push(prm)))
                },
            }
        }
    } else {
        (s, Ok(params))
    }
}

/// The parameter list of a function declaration after its opening
/// parenthesis, up to the closing parenthesis.
pub open spec fn p_params(inp: ParseInput, s: PState) -> (PState, Result<Seq<SpecParameter>, SpecParseError>) {
    if !check(inp, s.pos, Tokentype::RightParen) {
        let (s1, r) = p_parameter(inp, s);
        match r {
            Err(e) => (s1, Err(e)),
            Ok(prm) => if progressed(inp, s, s1) {
                p_params_tail(inp, s1, seq![prm])
            } else {
                (s1, Ok(seq![prm]))
            },
        }
    } else {
        (s, Ok(Seq::empty()))
    }
}

/// A function declaration after its `fn`.
pub open spec fn p_function(inp: ParseInput, s: PState) -> (PState, Result<SpecStmt, SpecParseError>)
    decreases inp.toks.len() - s.pos, 20int,
{
    if !check(inp, s.pos, Tokentype::Identifier) {
        (
            s,
            Err(
                error_at(
                    inp,
                    s.pos,
                    ErrorCode::ExpectedIdentifier,
                    "Expected function name found "@ + inp.toks[s.pos].token_type.spec_display_name(),
                ),
            ),
        )
    } else {
        let name = lexeme(inp, s.pos);
        let location = tok_loc(inp, s.pos);
        let p1 = s.pos + 1;
        if !check(inp, p1, Tokentype::LeftParen) {
            (
                at(s, p1),
                Err(
                    error_at(
                        inp,
                        p1,
                        ErrorCode::ExpectedOpeningParen,
                        "Expected '(' after function name, found "@ + inp.toks[p1].token_type.spec_display_name(),
                    ),
                ),
            )
        } else {
            let (s3, rp) = p_params(inp, at(s, p1 + 1));
            match rp {
                Err(e) => (s3, Err(e)),
                Ok(parameters) => if !check(inp, s3.pos, Tokentype::RightParen) {
                    (
                        s3,
                        Err(
                            error_at(
                                inp,
                                s3.pos,
                                ErrorCode::ExpectedClosingParen,
                                "Expected ')' after parameters found "@
                                    + inp.toks[s3.pos].token_type.spec_display_name(),
                            ),
                        ),
                    )
                } else {
                    let (s5, rt) = p_return_type(inp, at(s3, s3.pos + 1));
                    match rt {
                        Err(e) => (s5, Err(e)),
                        Ok(return_type) => if !check(inp, s5.pos, Tokentype::LeftBrace) {
                            (
                                s5,
                                Err(
                                    error_at(
                                        inp,
                                        s5.pos,
                                        ErrorCode::ExpectedOpeningBrace,
                                        "Expected '{' before function body"@,
                                    ),
                                ),
                            )
                        } else if !progressed(inp, s, s5) {
                            (s5, Err(error_at(inp, s5.pos, ErrorCode::ExpectedOpeningBrace, Seq::empty())))
                        } else {
                            let (s6, rb) = p_stmts(inp, at(s5, s5.pos + 1), Seq::empty());
                            match rb {
                                Err(e) => (s6, Err(e)),
                                Ok(body) => if check(inp, s6.pos, Tokentype::RightBrace) {
                                    (
                                        at(s6, s6.pos + 1),
                                        Ok(
                                            SpecStmt::FunctionDeclaration {
                                                name,
                                                parameters,
                                                return_type,
                                                body,
                                                location,
                                            },
                                        ),
                                    )
                                } else {
                                    (
                                        s6,
                                        Err(
                                            error_at(
                                                inp,
                                                s6.pos,
                                                ErrorCode::ExpectedClosingBrace,
                                                "Expected '}' after function body"@,
                                            ),
                                        ),
                                    )
                                },
                            }
                        },
                    }
                },
            }
        }
    }
}

/// The fields of a struct definition, each `name: type` followed by a comma
/// or the closing brace, appended to `fields`.
pub open spec fn p_fields(inp: ParseInput, s: PState, fields: Seq<(Seq<char>, TypeId)>) -> (
    PState,
    Result<Seq<(Seq<char>, TypeId)>, SpecParseError>,
)
    decreases inp.toks.len() - s.pos,
{
    if 0 <= s.pos < inp.toks.len() && !check(inp, s.pos, Tokentype::RightBrace) && !at_end(inp, s.pos) {
        if !check(inp, s.pos, Tokentype::Identifier) {
            (s, Err(error_at(inp, s.pos, ErrorCode::ExpectedIdentifier, "Expected field name"@)))
        } else {
            let field_name = lexeme(inp, s.pos);
            let p1 = s.pos + 1;
            if !check(inp, p1, Tokentype::Colon) {
                (at(s, p1), Err(error_at(inp, p1, ErrorCode::ExpectedColon, "Expected ':' after field name"@)))
            } else {
                let (s2, rt) = p_type(inp, at(s, p1 + 1));
                match rt {
                    Err(e) => (s2, Err(e)),
                    Ok(t) => {
                        let more = fields.push((field_name, t));
                        if check(inp, s2.pos, Tokentype::Comma) {
                            let s3 = at(s2, s2.pos + 1);
                            if progressed(inp, s, s3) {
                                p_fields(inp, s3, more)
                            } else {
                                (s3, Ok(more))
                            }
                        } else if check(inp, s2.pos, Tokentype::RightBrace) {
                            if progressed(inp, s, s2) {
                                p_fields(inp, s2, more)
                            } else {
                                (s2, Ok(more))
                            }
                        } else {
                            (s2, Err(error_at(inp, s2.pos, ErrorCode::ExpectedComma, "Expected ',' after field or '}'"@)))
                        }
                    },
                }
            }
        }
    } else {
        (s, Ok(fields))
    }
}

/// A struct definition after its `struct`.
pub open spec fn p_type_definition(inp: ParseInput, s: PState) -> (PState, Result<SpecStmt, SpecParseError>) {
    if !check(inp, s.pos, Tokentype::Identifier) {
        (
            s,
            Err(error_at(inp, s.pos, ErrorCode::ExpectedIdentifier, "Expected struct name after 'struct' keyword"@)),
        )
    } else {
        let location = tok_loc(inp, s.pos);
        let name = lexeme(inp, s.pos);
        let p1 = s.pos + 1;
        if !check(inp, p1, Tokentype::LeftBrace) {
            (at(s, p1), Err(error_at(inp, p1, ErrorCode::ExpectedOpeningBrace, "Expected '{' after struct name"@)))
        } else {
            let (s2, rf) = p_fields(inp, at(s, p1 + 1), Seq::empty());
            match rf {
                Err(e) => (s2, Err(e)),
                Ok(fields) => if !check(inp, s2.pos, Tokentype::RightBrace) {
                    (
                        s2,
                        Err(error_at(inp, s2.pos, ErrorCode::ExpectedClosingBrace, "Expected '}' after struct fields"@)),
                    )
                } else if !check(inp, s2.pos + 1, Tokentype::Semicolon) {
                    (
                        at(s2, s2.pos + 1),
                        Err(
                            error_at(
                                inp,
                                s2.pos + 1,
                                ErrorCode::ExpectedSemicolon,
                                "Expected ';' after struct definition"@,
                            ),
                        ),
                    )
                } else {
                    (at(s2, s2.pos + 2), Ok(SpecStmt::TypeDefinition { name, fields, location }))
                },
            }
        }
    }
}

/// Whether some recorded error mentions `text` in its message.
pub open spec fn mentioned(errors: Seq<SpecCompilerError>, text: Seq<char>) -> bool {
    exists|i: int| 0 <= i < errors.len() && contains_text(#[trigger] errors[i].message, text)
}

/// The optional type annotation `: name` of a variable declaration. An
/// unknown type name is recorded as an error and read as the unknown type;
/// a name that reads as the unknown type without such an error fails.
pub open spec fn p_let_type(inp: ParseInput, s: PState) -> (PState, Result<TypeId, SpecParseError>) {
    if check(inp, s.pos, Tokentype::Colon) {
        let p2 = s.pos + 1;
        if spells_type(inp, p2) {
            p_type(inp, at(s, p2))
        } else if !check(inp, p2, Tokentype::Identifier) {
            (at(s, p2), Err(error_at(inp, p2, ErrorCode::ExpectedType, "Expected type name after colon"@)))
        } else {
            let type_word = lexeme(inp, p2);
            let p3 = p2 + 1;
            if type_word == "int"@ {
                (at(s, p3), Err(error_at(inp, p2, ErrorCode::InvalidSyntax, int_specifier_message())))
            } else if type_word == "float"@ {
                (at(s, p3), Err(error_at(inp, p2, ErrorCode::InvalidSyntax, float_specifier_message())))
            } else {
                let unknown_message = "Unknown type name: "@ + type_word;
                let (s3, t) = match type_named(inp.symbols, type_word) {
                    Some(t) => (at(s, p3), t),
                    None => (
                        with_error(inp, s, p3, error_at(inp, p2, ErrorCode::InvalidSyntax, unknown_message)),
                        prim(PrimitiveType::Unknown),
                    ),
                };
                if t == prim(PrimitiveType::Unknown) && !mentioned(s3.errors, unknown_message) {
                    (s3, Err(error_at(inp, p2, ErrorCode::InvalidSyntax, "Unknown type: "@ + type_word)))
                } else {
                    (s3, Ok(t))
                }
            }
        }
    } else {
        (s, Ok(prim(PrimitiveType::Unknown)))
    }
}

/// A variable declaration after its `let`.
pub open spec fn p_let(inp: ParseInput, s: PState) -> (PState, Result<SpecStmt, SpecParseError>)
    decreases inp.toks.len() - s.pos, 17int,
{
    let is_mutable = check(inp, s.pos, Tokentype::Mut);
    let q = if is_mutable {
        s.pos + 1
    } else {
        s.pos
    };
    if !check(inp, q, Tokentype::Identifier) {
        (at(s, q), Err(error_at(inp, q, ErrorCode::ExpectedIdentifier, "Expected identifier after 'let'"@)))
    } else {
        let name = lexeme(inp, q);
        let location = tok_loc(inp, q);
        let (s2, rt) = p_let_type(inp, at(s, q + 1));
        match rt {
            Err(e) => (s2, Err(e)),
            Ok(expr_type) => if !check(inp, s2.pos, Tokentype::Equal) {
                (s2, Err(error_at(inp, s2.pos, ErrorCode::ExpectedEquals, "Expected '=' after variable name"@)))
            } else if !progressed(inp, s, s2) {
                (s2, Err(error_at(inp, s2.pos, ErrorCode::ExpectedEquals, Seq::empty())))
            } else {
                let (s3, rv) = p_expression(inp, at(s2, s2.pos + 1));
                match rv {
                    Err(e) => (s3, Err(e)),
                    Ok(value) => if check(inp, s3.pos, Tokentype::Semicolon) {
                        (at(s3, s3.pos + 1), Ok(SpecStmt::Let { name, is_mutable, value, expr_type, location }))
                    } else {
                        (
                            s3,
                            Err(error_at(inp, s3.pos, ErrorCode::ExpectedSemicolon, "Expected ';' after let statement"@)),
                        )
                    },
                }
            },
        }
    }
}

/// An expression followed by a semicolon.
pub open spec fn p_expression_statement(inp: ParseInput, s: PState) -> (PState, Result<SpecStmt, SpecParseError>)
    decreases inp.toks.len() - s.pos, 17int,
{
    let (s1, r) = p_expression(inp, s);
    match r {
        Err(e) => (s1, Err(e)),
        Ok(e) => if check(inp, s1.pos, Tokentype::Semicolon) {
            (at(s1, s1.pos + 1), Ok(SpecStmt::Expression(e)))
        } else {
            (s1, Err(error_at(inp, s1.pos, ErrorCode::ExpectedSemicolon, "Expected ';' after expression"@)))
        },
    }
}

/// An assignment `name = value;`.
pub open spec fn p_assignment(inp: ParseInput, s: PState) -> (PState, Result<SpecStmt, SpecParseError>)
    decreases inp.toks.len() - s.pos, 17int,
{
    if !check(inp, s.pos, Tokentype::Identifier) {
        (s, Err(error_at(inp, s.pos, ErrorCode::ExpectedIdentifier, "Expected identifier for assignment"@)))
    } else {
        let name = lexeme(inp, s.pos);
        let location = tok_loc(inp, s.pos);
        let p1 = s.pos + 1;
        if !check(inp, p1, Tokentype::Equal) {
            (at(s, p1), Err(error_at(inp, p1, ErrorCode::ExpectedEquals, "Expected '=' for assignment"@)))
        } else {
            let (s2, r) = p_expression(inp, at(s, p1 + 1));
            match r {
                Err(e) => (s2, Err(e)),
                Ok(value) => if check(inp, s2.pos, Tokentype::Semicolon) {
                    (at(s2, s2.pos + 1), Ok(SpecStmt::Assignment { name, value, location }))
                } else {
                    (s2, Err(error_at(inp, s2.pos, ErrorCode::ExpectedSemicolon, "Expected ';' after assignment"@)))
                },
            }
        }
    }
}

/// An if statement after its `if`.
pub open spec fn p_if(inp: ParseInput, s: PState) -> (PState, Result<SpecStmt, SpecParseError>)
    decreases inp.toks.len() - s.pos, 20int,
{
    let (s1, rc) = p_expression(inp, s);
    match rc {
        Err(e) => (s1, Err(e)),
        Ok(condition) => if !check(inp, s1.pos, Tokentype::LeftBrace) {
            (s1, Err(error_at(inp, s1.pos, ErrorCode::ExpectedOpeningBrace, "Expected '{' after if condition"@)))
        } else if !progressed(inp, s, s1) {
            (s1, Err(error_at(inp, s1.pos, ErrorCode::ExpectedOpeningBrace, Seq::empty())))
        } else {
            let (s2, rt) = p_stmts(inp, at(s1, s1.pos + 1), Seq::empty());
            match rt {
                Err(e) => (s2, Err(e)),
                Ok(then_branch) => if !check(inp, s2.pos, Tokentype::RightBrace) {
                    (s2, Err(error_at(inp, s2.pos, ErrorCode::ExpectedClosingBrace, "Expected '}' after if body"@)))
                } else {
                    let s3 = at(s2, s2.pos + 1);
                    if check(inp, s3.pos, Tokentype::Else) {
                        if !check(inp, s3.pos + 1, Tokentype::LeftBrace) {
                            (
                                at(s3, s3.pos + 1),
                                Err(error_at(inp, s3.pos + 1, ErrorCode::ExpectedOpeningBrace, "Expected '{' after else"@)),
                            )
                        } else if !progressed(inp, s, s3) {
                            (s3, Err(error_at(inp, s3.pos, ErrorCode::ExpectedOpeningBrace, Seq::empty())))
                        } else {
                            let (s4, re) = p_stmts(inp, at(s3, s3.pos + 2), Seq::empty());
                            match re {
                                Err(e) => (s4, Err(e)),
                                Ok(else_branch) => if check(inp, s4.pos, Tokentype::RightBrace) {
                                    (
                                        at(s4, s4.pos + 1),
                                        Ok(
                                            SpecStmt::If {
                                                condition,
                                                then_branch,
                                                else_branch: Some(else_branch),
                                                location: range_loc(inp, s.pos - 1, s4.pos + 1),
                                            },
                                        ),
                                    )
                                } else {
                                    (
                                        s4,
                                        Err(
                                            error_at(
                                                inp,
                                                s4.pos,
                                                ErrorCode::ExpectedClosingBrace,
                                                "Expected '}' after else body"@,
                                            ),
                                        ),
                                    )
                                },
                            }
                        }
                    } else {
                        (
                            s3,
                            Ok(
                                SpecStmt::If {
                                    condition,
                                    then_branch,
                                    else_branch: None,
                                    location: range_loc(inp, s.pos - 1, s3.pos),
                                },
                            ),
                        )
                    }
                },
            }
        },
    }
}

// ----------------------------------------------------------------- program

/// From `p`, the first token that begins a new statement: the token after
/// a semicolon, or a `let`, `fn`, `struct` or `return`; or the end of input.
pub open spec fn sync_from(inp: ParseInput, p: int) -> int
    decreases inp.toks.len() - p,
{
    if !(0 <= p < inp.toks.len()) || at_end(inp, p) {
        p
    } else if p >= 1 && inp.toks[p - 1].token_type == Tokentype::Semicolon {
        p
    } else if inp.toks[p].token_type == Tokentype::Let || inp.toks[p].token_type == Tokentype::Fn
        || inp.toks[p].token_type == Tokentype::Struct || inp.toks[p].token_type == Tokentype::Return {
        p
    } else {
        sync_from(inp, p + 1)
    }
}

/// Where reading resumes after an error at `p`.
pub open spec fn synchronize(inp: ParseInput, p: int) -> int {
    sync_from(inp, advance(inp, p))
}

/// The statements from `s` to the end of input, appended to `stmts`, and
/// the errors recorded; after an error, reading resumes at the next
/// statement.
pub open spec fn p_program(inp: ParseInput, s: PState, stmts: Seq<SpecStmt>) -> (Seq<SpecStmt>, PState)
    decreases inp.toks.len() - s.pos,
{
    if 0 <= s.pos < inp.toks.len() && !at_end(inp, s.pos) {
        let (s2, r) = p_statement(inp, s);
        match r {
            Ok(st) => if progressed(inp, s, s2) {
                p_program(inp, s2, stmts.push(st))
            } else {
                (stmts.push(st), s2)
            },
            Err(e) => {
                let s3 = with_error(inp, s2, synchronize(inp, s2.pos), e);
                if progressed(inp, s, s3) {
                    p_program(inp, s3, stmts)
                } else {
                    (stmts, s3)
                }
            },
        }
    } else {
        (stmts, s)
    }
}

/// Parsing a program from its first token, with function types registered
/// in `types`: the statements read and the state reading ends in.
pub open spec fn parse_outcome(inp: ParseInput, types: SpecContext) -> (Seq<SpecStmt>, PState) {
    p_program(inp, PState { pos: 0, errors: Seq::empty(), types }, Seq::empty())
}

/// The result of parsing: the statements, or every error recorded.
pub open spec fn parse_result(inp: ParseInput, types: SpecContext) -> Result<Seq<SpecStmt>, Seq<SpecCompilerError>> {
    let (stmts, end) = parse_outcome(inp, types);
    let errors = end.errors;
    if errors.len() > 0 {
        Err(errors)
    } else {
        Ok(stmts)
    }
}

/// The rule for integer literals: a literal whose text is not a 64-bit
/// integer fails; a suffix `i32`, `u32` or `u64` accepts exactly the values
/// in the range of its type, `i64`, `f32` and `f64` accept every value; and
/// without a suffix the literal is an integer literal without suffix, and
/// nothing more is read.
pub proof fn lemma_integer_literal_rule(inp: ParseInput, s: PState)
    ensures
        spec_parse_i64(lexeme(inp, s.pos - 1)) is None ==> (p_integer(inp, s).1 matches Err(e) && e.error_code
            == ErrorCode::InvalidNumberLiteral),
        spec_parse_i64(lexeme(inp, s.pos - 1)) matches Some(v) ==> {
            let suffix = if check(inp, s.pos, Tokentype::Identifier) { lexeme(inp, s.pos) } else { Seq::empty() };
            let r = p_integer(inp, s).1;
            &&& suffix == "i32"@ ==> (r is Ok <==> i32::MIN <= v <= i32::MAX)
            &&& suffix == "u32"@ ==> (r is Ok <==> 0 <= v <= u32::MAX)
            &&& suffix == "u64"@ ==> (r is Ok <==> 0 <= v)
            &&& (suffix == "i64"@ || suffix == "f32"@ || suffix == "f64"@) ==> r is Ok
            &&& (r matches Err(e) ==> e.error_code == ErrorCode::ValueOutOfRange)
            &&& !(suffix == "i32"@ || suffix == "i64"@ || suffix == "u32"@ || suffix == "u64"@ || suffix == "f32"@
                || suffix == "f64"@) ==> p_integer(inp, s) == (
                s,
                Ok::<SpecExpr, SpecParseError>(
                    SpecExpr::Literal {
                        value: SpecLiteral::UnspecifiedInteger(v),
                        expr_type: prim(PrimitiveType::UnspecifiedInt),
                        location: tok_loc(inp, s.pos - 1),
                    },
                ),
            )
        },
{
    reveal_strlit("i32");
    reveal_strlit("i64");
    reveal_strlit("u32");
    reveal_strlit("u64");
    reveal_strlit("f32");
    reveal_strlit("f64");
    assert("i32"@ =~= seq!['i', '3', '2']);
    assert("i64"@ =~= seq!['i', '6', '4']);
    assert("u32"@ =~= seq!['u', '3', '2']);
    assert("u64"@ =~= seq!['u', '6', '4']);
    assert("f32"@ =~= seq!['f', '3', '2']);
    assert("f64"@ =~= seq!['f', '6', '4']);
}

/// Each operator token stands for the binary operator written as that
/// token: the operator read from a token at any precedence level has as
/// symbol the text the token's type spells (`>=` reads as
/// `GreaterThanOrEqual`, `!=` as `NotEqual`), so distinct operator tokens
/// read as distinct operators.
pub proof fn lemma_operator_tokens_read_as_written(level: nat, tt: Tokentype, level2: nat, tt2: Tokentype)
    ensures
        level_operator(level, tt) matches Some(op) ==> tt.spec_spelling() == Some(op.spec_symbol()),
        (level_operator(level, tt) matches Some(op) && level_operator(level2, tt2) == Some(op)) ==> tt == tt2,
{
    reveal_strlit("+");
    reveal_strlit("-");
    reveal_strlit("*");
    reveal_strlit("/");
    reveal_strlit(">");
    reveal_strlit("<");
    reveal_strlit(">=");
    reveal_strlit("<=");
    reveal_strlit("==");
    reveal_strlit("!=");
    reveal_strlit("&&");
    reveal_strlit("||");
    assert(">"@ =~= seq!['>']);
    assert("<"@ =~= seq!['<']);
    assert(">="@ =~= seq!['>', '=']);
    assert("<="@ =~= seq!['<', '=']);
    assert("=="@ =~= seq!['=', '=']);
    assert("!="@ =~= seq!['!', '=']);
    assert("&&"@ =~= seq!['&', '&']);
    assert("||"@ =~= seq!['|', '|']);
    assert("+"@ =~= seq!['+']);
    assert("-"@ =~= seq!['-']);
    assert("*"@ =~= seq!['*']);
    assert("/"@ =~= seq!['/']);
}

} // verus!
