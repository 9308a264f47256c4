//! Properties that every tokenization has: tokens follow the source text
//! in order, the end-of-file token closes the sequence, and the only error
//! is an unterminated string literal, which ends tokenization.
use vstd::prelude::*;
use crate::error_codes::ErrorCode;
use crate::lexer_spec::{
    add_token, at, block_comment, initial_state, lex_errors, lex_final, lex_identifier,
    lex_line_comment, lex_number, lex_pair, lex_run, lex_single, lex_slash, lex_step, lex_string,
    lex_tokens, lex_whitespace, record_line_break, scan_ascii_word, scan_identifier,
    scan_newline, scan_number, scan_string, LexState, lemma_scan_number_progress,
};
use crate::token::{SpecToken, Tokentype};
use crate::lexer_spec::{char_is_alphabetic, unterminated_string_message};

verus! {

/// The offset just past the source text of token `t`: past the closing
/// quote of a string literal, past the suffix of a number.
pub open spec fn token_end(t: SpecToken) -> int {
    if t.token_type == Tokentype::StringLiteral {
        t.pos + t.lexeme.len() + 2
    } else {
        t.pos + t.lexeme.len() + match t.suffix {
            Some(s) => s.len() as int,
            None => 0,
        }
    }
}

/// Token `t` is the text of `input` at its position: for a string literal,
/// the text between two quotes; for other tokens, the text itself followed
/// by the suffix, if any.
pub open spec fn token_matches_source(input: Seq<char>, t: SpecToken) -> bool {
    &&& 0 <= t.pos
    &&& token_end(t) <= input.len()
    &&& if t.token_type == Tokentype::StringLiteral {
        &&& input[t.pos] == '"'
        &&& input.subrange(t.pos + 1, t.pos + 1 + t.lexeme.len()) == t.lexeme
        &&& input[t.pos + 1 + t.lexeme.len()] == '"'
        &&& t.suffix is None
    } else {
        &&& input.subrange(t.pos, t.pos + t.lexeme.len()) == t.lexeme
        &&& match t.suffix {
            Some(s) => input.subrange(t.pos + t.lexeme.len(), token_end(t)) == s,
            None => true,
        }
    }
}

/// What holds of every state reached during tokenization.
pub open spec fn state_follows_source(input: Seq<char>, st: LexState) -> bool {
    &&& 0 <= st.pos <= input.len()
    &&& forall|i: int| 0 <= i < st.tokens.len() ==> {
        &&& token_matches_source(input, #[trigger] st.tokens[i])
        &&& token_end(st.tokens[i]) <= st.pos
        &&& st.tokens[i].token_type != Tokentype::Eof
    }
    &&& forall|i: int, j: int| 0 <= i < j < st.tokens.len() ==>
        token_end(#[trigger] st.tokens[i]) <= (#[trigger] st.tokens[j]).pos
    &&& st.errors.len() <= 1
    &&& st.errors.len() == 1 ==> {
        &&& st.pos == input.len()
        &&& st.errors[0].error_code == ErrorCode::ExpectedClosingQuote
        &&& input[st.errors[0].position] == '"'
        &&& 0 <= st.errors[0].position < input.len()
    }
}

proof fn lemma_scan_identifier_bounds(input: Seq<char>, i: int)
    requires
        0 <= i <= input.len(),
    ensures
        i <= scan_identifier(input, i) <= input.len(),
    decreases input.len() - i,
{
    if i < input.len() && crate::lexer_spec::is_identifier_char(input[i]) {
        lemma_scan_identifier_bounds(input, i + 1);
    }
}

proof fn lemma_scan_ascii_word_bounds(input: Seq<char>, i: int)
    requires
        0 <= i <= input.len(),
    ensures
        i <= scan_ascii_word(input, i) <= input.len(),
    decreases input.len() - i,
{
    if i < input.len() && crate::lexer_spec::is_ascii_letter_or_digit(input[i]) {
        lemma_scan_ascii_word_bounds(input, i + 1);
    }
}

proof fn lemma_scan_string_bounds(input: Seq<char>, i: int)
    requires
        0 <= i <= input.len(),
    ensures
        i <= scan_string(input, i) <= input.len(),
        scan_string(input, i) < input.len() ==> input[scan_string(input, i)] == '"',
    decreases input.len() - i,
{
    if i < input.len() && input[i] != '"' {
        lemma_scan_string_bounds(input, i + 1);
    }
}

proof fn lemma_scan_newline_bounds(input: Seq<char>, i: int)
    requires
        0 <= i <= input.len(),
    ensures
        i <= scan_newline(input, i) <= input.len(),
    decreases input.len() - i,
{
    if i < input.len() && input[i] != '\n' {
        lemma_scan_newline_bounds(input, i + 1);
    }
}

proof fn lemma_block_comment(input: Seq<char>, st: LexState, nesting: int)
    requires
        0 <= st.pos <= input.len(),
    ensures
        st.pos <= block_comment(input, st, nesting).pos <= input.len(),
        block_comment(input, st, nesting).tokens == st.tokens,
        block_comment(input, st, nesting).errors == st.errors,
    decreases input.len() - st.pos,
{
    if nesting > 0 && st.pos < input.len() {
        let c = input[st.pos];
        let st1 = if c == '\n' { record_line_break(st) } else { st };
        let has_next = st.pos + 1 < input.len();
        if c == '*' && has_next && input[st.pos + 1] == '/' {
            lemma_block_comment(input, at(st1, st.pos + 2), nesting - 1);
        } else if c == '/' && has_next && input[st.pos + 1] == '*' {
            lemma_block_comment(input, at(st1, st.pos + 2), nesting + 1);
        } else {
            lemma_block_comment(input, at(st1, st.pos + 1), nesting);
        }
    }
}

/// Adding a token that matches the source, starts at the current offset and
/// ends at the new offset keeps the state following the source.
proof fn lemma_add_token(input: Seq<char>, st: LexState, next: int, t: SpecToken)
    requires
        state_follows_source(input, st),
        st.errors.len() == 0,
        t.pos == st.pos,
        token_matches_source(input, t),
        token_end(t) <= next <= input.len(),
        t.token_type != Tokentype::Eof,
    ensures
        state_follows_source(
            input,
            add_token(at(st, next), t.token_type, t.lexeme, t.pos, t.suffix),
        ),
{
    let st2 = add_token(at(st, next), t.token_type, t.lexeme, t.pos, t.suffix);
    assert(st2.tokens.last() == t);
    assert forall|i: int| 0 <= i < st2.tokens.len() implies {
        &&& token_matches_source(input, #[trigger] st2.tokens[i])
        &&& token_end(st2.tokens[i]) <= st2.pos
        &&& st2.tokens[i].token_type != Tokentype::Eof
    } by {
        if i < st.tokens.len() {
            assert(st2.tokens[i] == st.tokens[i]);
        }
    }
    assert forall|i: int, j: int| 0 <= i < j < st2.tokens.len() implies
        token_end(#[trigger] st2.tokens[i]) <= (#[trigger] st2.tokens[j]).pos by {
        assert(st2.tokens[i] == st.tokens[i]);
        if j < st.tokens.len() {
            assert(st2.tokens[j] == st.tokens[j]);
        }
    }
}

/// Moving forward without adding tokens keeps the state following the source.
proof fn lemma_move(input: Seq<char>, st: LexState, st2: LexState)
    requires
        state_follows_source(input, st),
        st.errors.len() == 0,
        st2.tokens == st.tokens,
        st2.errors == st.errors,
        st.pos <= st2.pos <= input.len(),
    ensures
        state_follows_source(input, st2),
{
    assert forall|i: int| 0 <= i < st2.tokens.len() implies {
        &&& token_matches_source(input, #[trigger] st2.tokens[i])
        &&& token_end(st2.tokens[i]) <= st2.pos
        &&& st2.tokens[i].token_type != Tokentype::Eof
    } by {
        assert(st2.tokens[i] == st.tokens[i]);
    }
}

/// A single character token at the current offset.
proof fn lemma_single(input: Seq<char>, st: LexState, tt: Tokentype)
    requires
        state_follows_source(input, st),
        st.errors.len() == 0,
        st.pos < input.len(),
        tt != Tokentype::Eof,
        tt != Tokentype::StringLiteral,
    ensures
        state_follows_source(input, lex_single(st, tt, input[st.pos])),
        lex_single(st, tt, input[st.pos]).pos == st.pos + 1,
{
    let t = SpecToken { token_type: tt, lexeme: seq![input[st.pos]], pos: st.pos, suffix: None };
    assert(input.subrange(st.pos, st.pos + 1) =~= seq![input[st.pos]]);
    lemma_add_token(input, st, st.pos + 1, t);
}

/// A one or two character token at the current offset.
proof fn lemma_pair(input: Seq<char>, st: LexState, second: char, long: Tokentype, short: Tokentype)
    requires
        state_follows_source(input, st),
        st.errors.len() == 0,
        st.pos < input.len(),
        long != Tokentype::Eof,
        long != Tokentype::StringLiteral,
        short != Tokentype::Eof,
        short != Tokentype::StringLiteral,
    ensures
        state_follows_source(input, lex_pair(input, st, second, long, short)),
        st.pos < lex_pair(input, st, second, long, short).pos,
{
    let c = input[st.pos];
    if st.pos + 1 < input.len() && input[st.pos + 1] == second {
        let t = SpecToken { token_type: long, lexeme: seq![c, second], pos: st.pos, suffix: None };
        assert(input.subrange(st.pos, st.pos + 2) =~= seq![c, second]);
        lemma_add_token(input, st, st.pos + 2, t);
    } else {
        lemma_single(input, st, short);
    }
}

/// One step of tokenization keeps the state following the source, and moves
/// forward within the input.
pub proof fn lemma_step_follows_source(input: Seq<char>, st: LexState)
    requires
        state_follows_source(input, st),
        st.pos < input.len(),
    ensures
        state_follows_source(input, lex_step(input, st)),
        st.pos < lex_step(input, st).pos <= input.len(),
{
    assert(st.errors.len() == 0);
    let c = input[st.pos];
    if crate::lexer_spec::char_is_whitespace(c) {
        let next = at(st, st.pos + 1);
        if c == '\n' {
            lemma_move(input, st, record_line_break(next));
        } else {
            lemma_move(input, st, next);
        }
    } else if crate::lexer_spec::char_is_alphabetic(c) {
        let end = scan_identifier(input, st.pos + 1);
        lemma_scan_identifier_bounds(input, st.pos + 1);
        let word = input.subrange(st.pos, end);
        let t = SpecToken {
            token_type: crate::lexer_spec::keyword_type(word),
            lexeme: word,
            pos: st.pos,
            suffix: None,
        };
        lemma_add_token(input, st, end, t);
    } else if crate::lexer_spec::is_digit(c) {
        let (end, is_float) = scan_number(input, st.pos, false);
        lemma_scan_number_progress(input, st.pos + 1, false);
        let word_end = scan_ascii_word(input, end);
        lemma_scan_ascii_word_bounds(input, end);
        let number = input.subrange(st.pos, end);
        let has_suffix = end < input.len() && crate::lexer_spec::is_ascii_letter(input[end])
            && crate::lexer_spec::is_type_suffix(input.subrange(end, word_end));
        let next = if has_suffix { word_end } else { end };
        let suffix = if has_suffix { Some(input.subrange(end, word_end)) } else { None };
        let tt = if is_float { Tokentype::FloatLiteral } else { Tokentype::IntegerLiteral };
        let t = SpecToken { token_type: tt, lexeme: number, pos: st.pos, suffix };
        lemma_add_token(input, st, next, t);
    } else if c == '"' {
        let close = scan_string(input, st.pos + 1);
        lemma_scan_string_bounds(input, st.pos + 1);
        let content = input.subrange(st.pos + 1, close);
        let moved = LexState { line: st.line + crate::lexer_spec::count_newlines(content), ..st };
        if close < input.len() {
            let t = SpecToken { token_type: Tokentype::StringLiteral, lexeme: content, pos: st.pos, suffix: None };
            lemma_move(input, st, moved);
            lemma_add_token(input, moved, close + 1, t);
        } else {
            let st2 = lex_string(input, st);
            assert(st2.tokens == st.tokens);
            assert forall|i: int| 0 <= i < st2.tokens.len() implies {
                &&& token_matches_source(input, #[trigger] st2.tokens[i])
                &&& token_end(st2.tokens[i]) <= st2.pos
                &&& st2.tokens[i].token_type != Tokentype::Eof
            } by {
                assert(st2.tokens[i] == st.tokens[i]);
            }
        }
    } else if c == '/' {
        if st.pos + 1 < input.len() && input[st.pos + 1] == '/' {
            let nl = scan_newline(input, st.pos + 2);
            lemma_scan_newline_bounds(input, st.pos + 2);
            if nl < input.len() {
                lemma_move(input, st, record_line_break(at(st, nl + 1)));
            } else {
                lemma_move(input, st, at(st, nl));
            }
        } else if st.pos + 1 < input.len() && input[st.pos + 1] == '*' {
            lemma_block_comment(input, at(st, st.pos + 2), 1);
            lemma_move(input, st, block_comment(input, at(st, st.pos + 2), 1));
        } else {
            lemma_single(input, st, Tokentype::Divide);
        }
    } else if c == '-' {
        lemma_pair(input, st, '>', Tokentype::Arrow, Tokentype::Minus);
    } else if c == '=' {
        lemma_pair(input, st, '=', Tokentype::EqualEqual, Tokentype::Equal);
    } else if c == '<' {
        lemma_pair(input, st, '=', Tokentype::LessEqual, Tokentype::Less);
    } else if c == '>' {
        lemma_pair(input, st, '=', Tokentype::GreaterEqual, Tokentype::Greater);
    } else if c == '!' {
        lemma_pair(input, st, '=', Tokentype::NotEqual, Tokentype::Not);
    } else if c == '&' {
        lemma_pair(input, st, '&', Tokentype::And, Tokentype::Invalid);
    } else if c == '|' {
        lemma_pair(input, st, '|', Tokentype::Or, Tokentype::Invalid);
    } else {
        let tt = if c == ':' {
            Tokentype::Colon
        } else if c == '+' {
            Tokentype::Plus
        } else if c == '*' {
            Tokentype::Multiply
        } else if c == ';' {
            Tokentype::Semicolon
        } else if c == '{' {
            Tokentype::LeftBrace
        } else if c == '}' {
            Tokentype::RightBrace
        } else if c == ',' {
            Tokentype::Comma
        } else if c == '(' {
            Tokentype::LeftParen
        } else if c == ')' {
            Tokentype::RightParen
        } else {
            Tokentype::Invalid
        };
        lemma_single(input, st, tt);
    }
}

/// Tokenization from a state that follows the source ends at the end of the
/// input in a state that follows the source.
pub proof fn lemma_run_follows_source(input: Seq<char>, st: LexState)
    requires
        state_follows_source(input, st),
    ensures
        state_follows_source(input, lex_run(input, st)),
        lex_run(input, st).pos == input.len(),
    decreases input.len() - st.pos,
{
    if st.pos < input.len() {
        lemma_step_follows_source(input, st);
        lemma_run_follows_source(input, lex_step(input, st));
    }
}

/// Tokenization yields tokens in the order of their positions, each of
/// them the text of the source at its position (a string literal: the text
/// between its quotes), followed by a single end-of-file token at the end of
/// the source.
pub proof fn lemma_tokens_follow_source(input: Seq<char>)
    ensures
        lex_tokens(input).len() >= 1,
        lex_tokens(input).last().token_type == Tokentype::Eof,
        lex_tokens(input).last().pos == input.len(),
        lex_tokens(input).last().lexeme.len() == 0,
        forall|i: int| 0 <= i < lex_tokens(input).len() - 1 ==> {
            &&& token_matches_source(input, #[trigger] lex_tokens(input)[i])
            &&& lex_tokens(input)[i].token_type != Tokentype::Eof
        },
        forall|i: int, j: int| 0 <= i < j < lex_tokens(input).len() ==>
            token_end(#[trigger] lex_tokens(input)[i]) <= (#[trigger] lex_tokens(input)[j]).pos,
{
    lemma_run_follows_source(input, initial_state());
    let st = lex_final(input);
    let toks = lex_tokens(input);
    assert forall|i: int| 0 <= i < toks.len() - 1 implies {
        &&& token_matches_source(input, #[trigger] toks[i])
        &&& toks[i].token_type != Tokentype::Eof
    } by {
        assert(toks[i] == st.tokens[i]);
    }
    assert forall|i: int, j: int| 0 <= i < j < toks.len() implies
        token_end(#[trigger] toks[i]) <= (#[trigger] toks[j]).pos by {
        assert(toks[i] == st.tokens[i]);
        if j < st.tokens.len() {
            assert(toks[j] == st.tokens[j]);
        }
    }
}

/// The lexer reports at most one error, and only for a string literal that
/// is not closed: its position holds the opening quote.
pub proof fn lemma_only_unterminated_strings_fail(input: Seq<char>)
    ensures
        lex_errors(input).len() <= 1,
        lex_errors(input).len() == 1 ==> {
            &&& lex_errors(input)[0].error_code == ErrorCode::ExpectedClosingQuote
            &&& 0 <= lex_errors(input)[0].position < input.len()
            &&& input[lex_errors(input)[0].position] == '"'
        },
{
    lemma_run_follows_source(input, initial_state());
}

/// The tokens of every source text that fits in memory are fit for
/// parsing: they end with the end-of-file token, their offsets increase,
/// and each of them ends before the largest offset.
pub proof fn lemma_lexed_tokens_fit_for_parsing(input: Seq<char>)
    requires
        input.len() < usize::MAX,
    ensures
        crate::grammar::tokens_wf(lex_tokens(input)),
{
    lemma_tokens_follow_source(input);
    let toks = lex_tokens(input);
    assert forall|i: int| 0 <= i < toks.len() implies 0 <= #[trigger] toks[i].pos && toks[i].pos
        + toks[i].lexeme.len() < usize::MAX by {
        if i < toks.len() - 1 {
            assert(token_matches_source(input, toks[i]));
        }
    }
    assert forall|i: int, j: int| 0 <= i <= j < toks.len() implies #[trigger] toks[i].pos <= #[trigger] toks[j].pos by {
        if i < j {
            assert(token_end(toks[i]) <= toks[j].pos);
            if i < toks.len() - 1 {
                assert(token_matches_source(input, toks[i]));
            }
        }
    }
}

/// Whether tokenization from `st` starts a step at offset `p`: a step
/// starts at each token, comment and run of whitespace, so never inside a
/// comment or a string literal.
pub open spec fn run_visits(input: Seq<char>, st: LexState, p: int) -> bool
    decreases input.len() - st.pos,
{
    if st.pos < 0 || st.pos >= input.len() {
        false
    } else if st.pos == p {
        true
    } else {
        let next = lex_step(input, st);
        if next.pos <= st.pos || next.pos > input.len() {
            false
        } else {
            run_visits(input, next, p)
        }
    }
}

/// With no quote from `i` on, the scan for a closing quote runs to the end.
proof fn lemma_scan_string_unclosed(input: Seq<char>, i: int)
    requires
        0 <= i <= input.len(),
        forall|k: int| i <= k < input.len() ==> input[k] != '"',
    ensures
        scan_string(input, i) == input.len(),
    decreases input.len() - i,
{
    if i < input.len() {
        lemma_scan_string_unclosed(input, i + 1);
    }
}

/// Tokenization from a state that follows the source, reaching a quote
/// that no quote follows, reports exactly one error: the missing closing
/// quote, at that quote.
proof fn lemma_unclosed_quote_from(input: Seq<char>, st: LexState, p: int)
    requires
        state_follows_source(input, st),
        run_visits(input, st, p),
        input[p] == '"',
        forall|k: int| p < k < input.len() ==> input[k] != '"',
        !char_is_alphabetic('"'),
    ensures
        lex_run(input, st).errors.len() == 1,
        lex_run(input, st).errors[0].error_code == ErrorCode::ExpectedClosingQuote,
        lex_run(input, st).errors[0].message == unterminated_string_message(),
        lex_run(input, st).errors[0].position == p,
    decreases input.len() - st.pos,
{
    assert(st.errors.len() == 0);
    if st.pos == p {
        lemma_scan_string_unclosed(input, p + 1);
        let next = lex_step(input, st);
        assert(next == lex_string(input, st));
        assert(next.pos == input.len());
        assert(lex_run(input, st) == lex_run(input, next));
    } else {
        lemma_step_follows_source(input, st);
        lemma_unclosed_quote_from(input, lex_step(input, st), p);
    }
}

/// Every quote at which tokenization starts a step, outside comments and
/// string literals, and after which no quote follows, makes tokenization
/// fail with one error: the missing closing quote, at that quote. (A quote
/// is not alphabetic in Unicode; the lexer tests alphabetic characters
/// before quotes, so the law takes that as given.)
pub proof fn lemma_unclosed_quote_fails(input: Seq<char>, p: int)
    requires
        run_visits(input, initial_state(), p),
        input[p] == '"',
        forall|k: int| p < k < input.len() ==> input[k] != '"',
        !char_is_alphabetic('"'),
    ensures
        lex_errors(input).len() == 1,
        lex_errors(input)[0].error_code == ErrorCode::ExpectedClosingQuote,
        lex_errors(input)[0].message == unterminated_string_message(),
        lex_errors(input)[0].position == p,
{
    lemma_unclosed_quote_from(input, initial_state(), p);
}

/// Token `t` has the text its type spells, when its type has one.
pub open spec fn spelled_as_typed(t: SpecToken) -> bool {
    t.token_type.spec_spelling() matches Some(w) ==> t.lexeme == w
}

/// Every token of `ts` has the text its type spells.
pub open spec fn all_spelled_as_typed(ts: Seq<SpecToken>) -> bool {
    forall|i: int| 0 <= i < ts.len() ==> spelled_as_typed(#[trigger] ts[i])
}

/// Appending a token that has the text its type spells keeps them all so.
proof fn lemma_push_spelled(ts: Seq<SpecToken>, t: SpecToken)
    requires
        all_spelled_as_typed(ts),
        spelled_as_typed(t),
    ensures
        all_spelled_as_typed(ts.push(t)),
{
    assert forall|i: int| 0 <= i < ts.push(t).len() implies spelled_as_typed(#[trigger] ts.push(t)[i]) by {
        if i < ts.len() {
            assert(ts.push(t)[i] == ts[i]);
        }
    }
}

/// One step of tokenization adds only tokens that have the text their
/// type spells.
proof fn lemma_step_spelled(input: Seq<char>, st: LexState)
    requires
        all_spelled_as_typed(st.tokens),
        0 <= st.pos < input.len(),
    ensures
        all_spelled_as_typed(lex_step(input, st).tokens),
{
    let c = input[st.pos];
    let next = lex_step(input, st);
    if crate::lexer_spec::char_is_whitespace(c) {
        assert(next.tokens == st.tokens);
    } else if crate::lexer_spec::char_is_alphabetic(c) {
        let end = scan_identifier(input, st.pos + 1);
        let word = input.subrange(st.pos, end);
        let t = SpecToken { token_type: crate::lexer_spec::keyword_type(word), lexeme: word, pos: st.pos, suffix: None };
        assert(spelled_as_typed(t));
        assert(next.tokens == st.tokens.push(t));
        lemma_push_spelled(st.tokens, t);
    } else if crate::lexer_spec::is_digit(c) {
        assert(next.tokens.len() == st.tokens.len() + 1);
        assert(spelled_as_typed(next.tokens.last()));
        assert(next.tokens == st.tokens.push(next.tokens.last()));
        lemma_push_spelled(st.tokens, next.tokens.last());
    } else if c == '"' {
        if next.tokens.len() > st.tokens.len() {
            assert(next.tokens == st.tokens.push(next.tokens.last()));
            lemma_push_spelled(st.tokens, next.tokens.last());
        } else {
            assert(next.tokens == st.tokens);
        }
    } else if c == '/' && st.pos + 1 < input.len() && (input[st.pos + 1] == '/' || input[st.pos + 1] == '*') {
        if input[st.pos + 1] == '*' {
            lemma_block_comment(input, at(st, st.pos + 2), 1);
        }
        assert(next.tokens == st.tokens);
    } else {
        assert(next.tokens.len() == st.tokens.len() + 1);
        assert(next.tokens == st.tokens.push(next.tokens.last()));
        assert(spelled_as_typed(next.tokens.last()));
        lemma_push_spelled(st.tokens, next.tokens.last());
    }
}

/// Tokenization from a state whose tokens have the text their type spells
/// keeps them so.
proof fn lemma_run_spelled(input: Seq<char>, st: LexState)
    requires
        all_spelled_as_typed(st.tokens),
    ensures
        all_spelled_as_typed(lex_run(input, st).tokens),
    decreases input.len() - st.pos,
{
    if 0 <= st.pos < input.len() {
        let next = lex_step(input, st);
        lemma_step_spelled(input, st);
        if st.pos < next.pos <= input.len() {
            lemma_run_spelled(input, next);
        }
    }
}

/// Every token the lexer produces for a keyword, an operator or a
/// punctuation mark has the text its type spells: a `!=` token is
/// `NotEqual`, a `>=` token `GreaterEqual`, and no token of one of those
/// types has another text. With `lemma_tokens_follow_source`, the type of
/// such a token is the one its source text spells.
pub proof fn lemma_tokens_spelled_as_typed(input: Seq<char>)
    ensures
        forall|i: int| 0 <= i < lex_tokens(input).len() ==> spelled_as_typed(#[trigger] lex_tokens(input)[i]),
{
    lemma_run_spelled(input, initial_state());
    let st = lex_final(input);
    let toks = lex_tokens(input);
    assert forall|i: int| 0 <= i < toks.len() implies spelled_as_typed(#[trigger] toks[i]) by {
        if i < st.tokens.len() {
            assert(toks[i] == st.tokens[i]);
            assert(spelled_as_typed(st.tokens[i]));
        }
    }
}

} // verus!
