//! The tokenization that the lexer performs, stated over the sequence of
//! characters of the source.
use vstd::prelude::*;
use crate::compiler_error::SpecCompilerError;
use crate::error_codes::ErrorCode;
use crate::token::{SpecToken, Tokentype};

verus! {

/// Whether `c` has the Unicode White_Space property: the controls U+0009
/// to U+000D, the space, U+0085, the no-break space U+00A0, U+1680, the
/// spaces U+2000 to U+200A, the line and paragraph separators U+2028 and
/// U+2029, U+202F, U+205F and the ideographic space U+3000.
pub open spec fn char_is_whitespace(c: char) -> bool {
    let v = c as u32;
    ||| 0x09 <= v <= 0x0D
    ||| v == 0x20
    ||| v == 0x85
    ||| v == 0xA0
    ||| v == 0x1680
    ||| 0x2000 <= v <= 0x200A
    ||| v == 0x2028
    ||| v == 0x2029
    ||| v == 0x202F
    ||| v == 0x205F
    ||| v == 0x3000
}

/// Whether `c` is alphabetic in the sense of Unicode (`char::is_alphabetic`).
pub uninterp spec fn char_is_alphabetic(c: char) -> bool;

/// Whether `c` is alphanumeric in the sense of Unicode (`char::is_alphanumeric`).
pub uninterp spec fn char_is_alphanumeric(c: char) -> bool;

/// Whether `c` is whitespace, as `char::is_whitespace` decides it: whether
/// it has the Unicode White_Space property.
pub(crate) fn is_whitespace(c: char) -> (b: bool)
    ensures
        b == char_is_whitespace(c),
{
    let v = c as u32;
    (0x09 <= v && v <= 0x0D) || v == 0x20 || v == 0x85 || v == 0xA0 || v == 0x1680 || (0x2000 <= v && v <= 0x200A)
        || v == 0x2028 || v == 0x2029 || v == 0x202F || v == 0x205F || v == 0x3000
}

/// Whether `c` is alphabetic.
///
/// Trusted: calls `char::is_alphabetic`; the result is named by
/// `char_is_alphabetic`, and nothing more is claimed of it.
#[verifier::external_body]
pub(crate) fn is_alphabetic(c: char) -> (b: bool)
    ensures
        b == char_is_alphabetic(c),
{
    c.is_alphabetic()
}

/// Whether `c` is alphanumeric.
///
/// Trusted: calls `char::is_alphanumeric`; the result is named by
/// `char_is_alphanumeric`. Its documentation says that it holds of every
/// character for which `char::is_alphabetic` holds, which the second clause
/// states.
#[verifier::external_body]
pub(crate) fn is_alphanumeric(c: char) -> (b: bool)
    ensures
        b == char_is_alphanumeric(c),
        char_is_alphabetic(c) ==> b,
{
    c.is_alphanumeric()
}

/// An ASCII decimal digit.
pub open spec fn is_digit(c: char) -> bool {
    '0' <= c && c <= '9'
}

/// An ASCII letter.
pub open spec fn is_ascii_letter(c: char) -> bool {
    ('a' <= c && c <= 'z') || ('A' <= c && c <= 'Z')
}

/// An ASCII letter or digit.
pub open spec fn is_ascii_letter_or_digit(c: char) -> bool {
    is_ascii_letter(c) || is_digit(c)
}

/// A character that may continue an identifier.
pub open spec fn is_identifier_char(c: char) -> bool {
    char_is_alphanumeric(c) || c == '_'
}

/// The state of tokenization: the current offset and line, the number of
/// tokens on the current line, and what has been produced so far.
pub struct LexState {
    /// Current character offset.
    pub pos: int,
    /// Current line, counted from 1.
    pub line: int,
    /// Number of tokens produced on the current line.
    pub on_line: int,
    /// Tokens produced so far.
    pub tokens: Seq<SpecToken>,
    /// (line, token count) for each finished line that holds tokens.
    pub line_tokens: Seq<(u16, u16)>,
    /// Errors found so far.
    pub errors: Seq<SpecCompilerError>,
}

/// The state before the first character.
pub open spec fn initial_state() -> LexState {
    LexState { pos: 0, line: 1, on_line: 0, tokens: seq![], line_tokens: seq![], errors: seq![] }
}

/// The state with the offset moved to `pos`.
pub open spec fn at(st: LexState, pos: int) -> LexState {
    LexState { pos, ..st }
}

/// Appends a token to the state.
pub open spec fn add_token(st: LexState, tt: Tokentype, lexeme: Seq<char>, start: int, suffix: Option<Seq<char>>) -> LexState {
    LexState {
        tokens: st.tokens.push(SpecToken { token_type: tt, lexeme, pos: start, suffix }),
        on_line: st.on_line + 1,
        ..st
    }
}

/// Ends the current line: records its token count if it has tokens and
/// moves to the next line.
pub open spec fn record_line_break(st: LexState) -> LexState {
    LexState {
        line_tokens: if st.on_line > 0 {
            st.line_tokens.push((st.line as u16, st.on_line as u16))
        } else {
            st.line_tokens
        },
        line: st.line + 1,
        on_line: 0,
        ..st
    }
}

/// The offset at which the line holding offset `p` begins: one past the
/// last newline before `p`, or 0.
pub open spec fn line_start_before(input: Seq<char>, p: int) -> int
    decreases p,
{
    if p <= 0 {
        0
    } else if input[p - 1] == '\n' {
        p
    } else {
        line_start_before(input, p - 1)
    }
}

/// Appends an error found at offset `start` to the state.
pub open spec fn add_error(
    input: Seq<char>,
    st: LexState,
    code: ErrorCode,
    message: Seq<char>,
    start: int,
    len: usize,
) -> LexState {
    LexState {
        errors: st.errors.push(
            SpecCompilerError {
                error_code: code,
                message,
                line: st.line,
                column: start - line_start_before(input, start) + 1,
                position: start,
                token_length: Some(len),
            },
        ),
        ..st
    }
}

/// The end of the run of identifier characters that starts at `i`.
pub open spec fn scan_identifier(input: Seq<char>, i: int) -> int
    decreases input.len() - i,
{
    if 0 <= i < input.len() && is_identifier_char(input[i]) {
        scan_identifier(input, i + 1)
    } else {
        i
    }
}

/// The end of the run of ASCII letters and digits that starts at `i`.
pub open spec fn scan_ascii_word(input: Seq<char>, i: int) -> int
    decreases input.len() - i,
{
    if 0 <= i < input.len() && is_ascii_letter_or_digit(input[i]) {
        scan_ascii_word(input, i + 1)
    } else {
        i
    }
}

/// The end of the numeric part of a number starting at `i`, and whether a
/// decimal point was seen: digits, at most one point, and exponent markers
/// `e`/`E` each optionally followed by a sign.
pub open spec fn scan_number(input: Seq<char>, i: int, is_float: bool) -> (int, bool)
    decreases input.len() - i,
{
    if i < 0 || i >= input.len() {
        (i, is_float)
    } else {
        let c = input[i];
        if is_digit(c) {
            scan_number(input, i + 1, is_float)
        } else if c == '.' {
            if is_float {
                (i, true)
            } else {
                scan_number(input, i + 1, true)
            }
        } else if c == 'e' || c == 'E' {
            let j = if i + 1 < input.len() && (input[i + 1] == '+' || input[i + 1] == '-') {
                i + 2
            } else {
                i + 1
            };
            scan_number(input, j, is_float)
        } else {
            (i, is_float)
        }
    }
}

/// Scanning a number never moves backwards.
pub proof fn lemma_scan_number_progress(input: Seq<char>, i: int, is_float: bool)
    requires
        0 <= i,
    ensures
        scan_number(input, i, is_float).0 >= i,
        i <= input.len() ==> scan_number(input, i, is_float).0 <= input.len(),
    decreases input.len() - i,
{
    if i < input.len() {
        let c = input[i];
        if is_digit(c) {
            lemma_scan_number_progress(input, i + 1, is_float);
        } else if c == '.' {
            if !is_float {
                lemma_scan_number_progress(input, i + 1, true);
            }
        } else if c == 'e' || c == 'E' {
            let j = if i + 1 < input.len() && (input[i + 1] == '+' || input[i + 1] == '-') {
                i + 2
            } else {
                i + 1
            };
            lemma_scan_number_progress(input, j, is_float);
        }
    }
}

/// The offset of the first `"` at or after `i`, or the length of the input.
pub open spec fn scan_string(input: Seq<char>, i: int) -> int
    decreases input.len() - i,
{
    if i < 0 || i >= input.len() || input[i] == '"' {
        i
    } else {
        scan_string(input, i + 1)
    }
}

/// The offset of the first newline at or after `i`, or the length of the input.
pub open spec fn scan_newline(input: Seq<char>, i: int) -> int
    decreases input.len() - i,
{
    if i < 0 || i >= input.len() || input[i] == '\n' {
        i
    } else {
        scan_newline(input, i + 1)
    }
}

/// The number of newlines in `s`.
pub open spec fn count_newlines(s: Seq<char>) -> int
    decreases s.len(),
{
    if s.len() == 0 {
        0
    } else {
        count_newlines(s.drop_last()) + if s.last() == '\n' { 1int } else { 0int }
    }
}

/// The token type of a word: a keyword, a boolean literal, or an identifier.
pub open spec fn keyword_type(w: Seq<char>) -> Tokentype {
    if w == seq!['l', 'e', 't'] {
        Tokentype::Let
    } else if w == seq!['m', 'u', 't'] {
        Tokentype::Mut
    } else if w == seq!['s', 't', 'r', 'u', 'c', 't'] {
        Tokentype::Struct
    } else if w == seq!['f', 'n'] {
        Tokentype::Fn
    } else if w == seq!['r', 'e', 't', 'u', 'r', 'n'] {
        Tokentype::Return
    } else if w == seq!['i', 'f'] {
        Tokentype::If
    } else if w == seq!['e', 'l', 's', 'e'] {
        Tokentype::Else
    } else if w == seq!['t', 'r', 'u', 'e'] || w == seq!['f', 'a', 'l', 's', 'e'] {
        Tokentype::BooleanLiteral
    } else {
        Tokentype::Identifier
    }
}

/// The numeric type suffixes that literals may carry.
pub open spec fn is_type_suffix(w: Seq<char>) -> bool {
    ||| w == seq!['i', '3', '2']
    ||| w == seq!['i', '6', '4']
    ||| w == seq!['u', '3', '2']
    ||| w == seq!['u', '6', '4']
    ||| w == seq!['f', '3', '2']
    ||| w == seq!['f', '6', '4']
}

/// Whitespace: skipped; a newline ends the line.
pub open spec fn lex_whitespace(input: Seq<char>, st: LexState) -> LexState {
    let next = at(st, st.pos + 1);
    if input[st.pos] == '\n' {
        record_line_break(next)
    } else {
        next
    }
}

/// An identifier or keyword: the longest run of identifier characters.
pub open spec fn lex_identifier(input: Seq<char>, st: LexState) -> LexState {
    let end = scan_identifier(input, st.pos + 1);
    let word = input.subrange(st.pos, end);
    add_token(at(st, end), keyword_type(word), word, st.pos, None)
}

/// A number with an optional type suffix; a run of ASCII letters and digits
/// that is not a known suffix is left for the next token.
pub open spec fn lex_number(input: Seq<char>, st: LexState) -> LexState {
    let (end, is_float) = scan_number(input, st.pos, false);
    let number = input.subrange(st.pos, end);
    let word_end = scan_ascii_word(input, end);
    let has_suffix = end < input.len() && is_ascii_letter(input[end]) && is_type_suffix(
        input.subrange(end, word_end),
    );
    let next = if has_suffix { word_end } else { end };
    let suffix = if has_suffix { Some(input.subrange(end, word_end)) } else { None };
    let tt = if is_float { Tokentype::FloatLiteral } else { Tokentype::IntegerLiteral };
    add_token(at(st, next), tt, number, st.pos, suffix)
}

/// The message of the error for a string literal without closing quote.
pub open spec fn unterminated_string_message() -> Seq<char> {
    "Expected closing quote for string literal"@
}

/// A string literal; its newlines advance the line count. Without a
/// closing quote it yields an error instead of a token.
pub open spec fn lex_string(input: Seq<char>, st: LexState) -> LexState {
    let close = scan_string(input, st.pos + 1);
    let content = input.subrange(st.pos + 1, close);
    let moved = LexState { line: st.line + count_newlines(content), ..st };
    if close < input.len() {
        add_token(at(moved, close + 1), Tokentype::StringLiteral, content, st.pos, None)
    } else {
        add_error(
            input,
            at(moved, close),
            ErrorCode::ExpectedClosingQuote,
            unterminated_string_message(),
            st.pos,
            (content.len() + 1) as usize,
        )
    }
}

/// A one-character token.
pub open spec fn lex_single(st: LexState, tt: Tokentype, c: char) -> LexState {
    add_token(at(st, st.pos + 1), tt, seq![c], st.pos, None)
}

/// A token of one character, or of two when the next character is `second`.
pub open spec fn lex_pair(
    input: Seq<char>,
    st: LexState,
    second: char,
    long: Tokentype,
    short: Tokentype,
) -> LexState {
    let c = input[st.pos];
    if st.pos + 1 < input.len() && input[st.pos + 1] == second {
        add_token(at(st, st.pos + 2), long, seq![c, second], st.pos, None)
    } else {
        add_token(at(st, st.pos + 1), short, seq![c], st.pos, None)
    }
}

/// A line comment that starts with `//` at the current offset: skipped up
/// to and including the next newline, which ends the line.
pub open spec fn lex_line_comment(input: Seq<char>, st: LexState) -> LexState {
    let nl = scan_newline(input, st.pos + 2);
    if nl < input.len() {
        record_line_break(at(st, nl + 1))
    } else {
        at(st, nl)
    }
}

/// The body of a block comment at nesting depth `nesting`; `/*` opens a
/// nested comment and `*/` closes one; newlines end lines.
pub open spec fn block_comment(input: Seq<char>, st: LexState, nesting: int) -> LexState
    decreases input.len() - st.pos,
{
    if nesting <= 0 || st.pos < 0 || st.pos >= input.len() {
        st
    } else {
        let c = input[st.pos];
        let st1 = if c == '\n' { record_line_break(st) } else { st };
        let has_next = st.pos + 1 < input.len();
        if c == '*' && has_next && input[st.pos + 1] == '/' {
            block_comment(input, at(st1, st.pos + 2), nesting - 1)
        } else if c == '/' && has_next && input[st.pos + 1] == '*' {
            block_comment(input, at(st1, st.pos + 2), nesting + 1)
        } else {
            block_comment(input, at(st1, st.pos + 1), nesting)
        }
    }
}

/// A `/`: a division operator, a line comment or a block comment.
pub open spec fn lex_slash(input: Seq<char>, st: LexState) -> LexState {
    if st.pos + 1 < input.len() && input[st.pos + 1] == '/' {
        lex_line_comment(input, st)
    } else if st.pos + 1 < input.len() && input[st.pos + 1] == '*' {
        block_comment(input, at(st, st.pos + 2), 1)
    } else {
        lex_single(st, Tokentype::Divide, '/')
    }
}

/// One step of tokenization at the current offset, chosen by the current
/// character.
pub open spec fn lex_step(input: Seq<char>, st: LexState) -> LexState {
    let c = input[st.pos];
    if char_is_whitespace(c) {
        lex_whitespace(input, st)
    } else if char_is_alphabetic(c) {
        lex_identifier(input, st)
    } else if is_digit(c) {
        lex_number(input, st)
    } else if c == '"' {
        lex_string(input, st)
    } else if c == ':' {
        lex_single(st, Tokentype::Colon, c)
    } else if c == '+' {
        lex_single(st, Tokentype::Plus, c)
    } else if c == '-' {
        lex_pair(input, st, '>', Tokentype::Arrow, Tokentype::Minus)
    } else if c == '*' {
        lex_single(st, Tokentype::Multiply, c)
    } else if c == '/' {
        lex_slash(input, st)
    } else if c == '=' {
        lex_pair(input, st, '=', Tokentype::EqualEqual, Tokentype::Equal)
    } else if c == '<' {
        lex_pair(input, st, '=', Tokentype::LessEqual, Tokentype::Less)
    } else if c == '>' {
        lex_pair(input, st, '=', Tokentype::GreaterEqual, Tokentype::Greater)
    } else if c == '!' {
        lex_pair(input, st, '=', Tokentype::NotEqual, Tokentype::Not)
    } else if c == ';' {
        lex_single(st, Tokentype::Semicolon, c)
    } else if c == '{' {
        lex_single(st, Tokentype::LeftBrace, c)
    } else if c == '}' {
        lex_single(st, Tokentype::RightBrace, c)
    } else if c == ',' {
        lex_single(st, Tokentype::Comma, c)
    } else if c == '(' {
        lex_single(st, Tokentype::LeftParen, c)
    } else if c == ')' {
        lex_single(st, Tokentype::RightParen, c)
    } else if c == '&' {
        lex_pair(input, st, '&', Tokentype::And, Tokentype::Invalid)
    } else if c == '|' {
        lex_pair(input, st, '|', Tokentype::Or, Tokentype::Invalid)
    } else {
        lex_single(st, Tokentype::Invalid, c)
    }
}

/// Tokenization from state `st` to the end of the input.
pub open spec fn lex_run(input: Seq<char>, st: LexState) -> LexState
    decreases input.len() - st.pos,
{
    if st.pos < 0 || st.pos >= input.len() {
        st
    } else {
        let next = lex_step(input, st);
        if next.pos <= st.pos || next.pos > input.len() {
            st
        } else {
            lex_run(input, next)
        }
    }
}

/// The state after the whole input has been read.
pub open spec fn lex_final(input: Seq<char>) -> LexState {
    lex_run(input, initial_state())
}

/// The tokens of `input`, ending with an end-of-file token at the end.
pub open spec fn lex_tokens(input: Seq<char>) -> Seq<SpecToken> {
    let st = lex_final(input);
    st.tokens.push(SpecToken { token_type: Tokentype::Eof, lexeme: seq![], pos: st.pos, suffix: None })
}

/// The token counts per line of `input`, including the last line.
pub open spec fn lex_line_tokens(input: Seq<char>) -> Seq<(u16, u16)> {
    let st = lex_final(input);
    if st.on_line > 0 {
        st.line_tokens.push((st.line as u16, st.on_line as u16))
    } else {
        st.line_tokens
    }
}

/// The errors found in `input`.
pub open spec fn lex_errors(input: Seq<char>) -> Seq<SpecCompilerError> {
    lex_final(input).errors
}

} // verus!
