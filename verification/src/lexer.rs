//! The lexer: turns source text into tokens, recording how many tokens each
//! line holds and the errors it finds.
use vstd::prelude::*;
use crate::compiler_error::{CompilerError, SpecCompilerError};
use crate::error_codes::ErrorCode;
use crate::lexer_spec::{
    add_token, at, block_comment, count_newlines, initial_state, is_alphabetic, is_alphanumeric,
    is_ascii_letter, is_digit, is_type_suffix, is_whitespace, keyword_type, lex_final,
    lex_line_tokens, lex_errors, lex_identifier, lex_line_comment, lex_number, lex_pair, lex_run,
    lex_single, lex_slash, lex_step, lex_string, lex_tokens, lex_whitespace, line_start_before,
    record_line_break, scan_ascii_word, scan_identifier, scan_newline, scan_number, scan_string,
    unterminated_string_message, LexState,
};
use crate::line_info::LineInfo;
use crate::text::{chars_of, push_char, push_str};
use crate::token::{SpecToken, Token, Tokentype};

verus! {

/// A result that is either a value or the list of errors that prevented it.
pub type CompileResult<T> = Result<T, Vec<CompilerError>>;

/// The tokens of a source text and its line information.
pub struct LexerResult<'a> {
    /// The tokens, ending with an end-of-file token.
    pub tokens: Vec<Token>,
    /// Line information of the source, with the token count of each line.
    pub line_info: LineInfo<'a>,
}

/// The views of a sequence of tokens.
pub open spec fn tokens_view(v: Seq<Token>) -> Seq<SpecToken> {
    v.map_values(|t: Token| t@)
}

/// The views of a sequence of compiler errors.
pub open spec fn errors_view(v: Seq<CompilerError>) -> Seq<SpecCompilerError> {
    v.map_values(|e: CompilerError| e@)
}

/// The characters from `a` to `b` of `chars`, as a string.
fn substring(chars: &Vec<char>, a: usize, b: usize) -> (s: String)
    requires
        a <= b <= chars@.len(),
    ensures
        s@ == chars@.subrange(a as int, b as int),
{
    let mut s = String::new();
    let mut i = a;
    while i < b
        invariant
            a <= i <= b <= chars@.len(),
            s@ == chars@.subrange(a as int, i as int),
        decreases b - i,
    {
        push_char(&mut s, chars[i]);
        i = i + 1;
        assert(s@ =~= chars@.subrange(a as int, i as int));
    }
    s
}

fn is_digit_char(c: char) -> (b: bool)
    ensures
        b == is_digit(c),
{
    c >= '0' && c <= '9'
}

fn is_ascii_letter_char(c: char) -> (b: bool)
    ensures
        b == is_ascii_letter(c),
{
    (c >= 'a' && c <= 'z') || (c >= 'A' && c <= 'Z')
}

fn scan_identifier_exec(chars: &Vec<char>, i: usize) -> (j: usize)
    requires
        i <= chars@.len(),
    ensures
        j == scan_identifier(chars@, i as int),
        i <= j <= chars@.len(),
{
    let mut j = i;
    while j < chars.len() && (is_alphanumeric(chars[j]) || chars[j] == '_')
        invariant
            i <= j <= chars@.len(),
            scan_identifier(chars@, j as int) == scan_identifier(chars@, i as int),
        decreases chars@.len() - j,
    {
        j = j + 1;
    }
    j
}

fn scan_ascii_word_exec(chars: &Vec<char>, i: usize) -> (j: usize)
    requires
        i <= chars@.len(),
    ensures
        j == scan_ascii_word(chars@, i as int),
        i <= j <= chars@.len(),
{
    let mut j = i;
    while j < chars.len() && (is_ascii_letter_char(chars[j]) || is_digit_char(chars[j]))
        invariant
            i <= j <= chars@.len(),
            scan_ascii_word(chars@, j as int) == scan_ascii_word(chars@, i as int),
        decreases chars@.len() - j,
    {
        j = j + 1;
    }
    j
}

fn scan_string_exec(chars: &Vec<char>, i: usize) -> (j: usize)
    requires
        i <= chars@.len(),
    ensures
        j == scan_string(chars@, i as int),
        i <= j <= chars@.len(),
{
    let mut j = i;
    while j < chars.len() && chars[j] != '"'
        invariant
            i <= j <= chars@.len(),
            scan_string(chars@, j as int) == scan_string(chars@, i as int),
        decreases chars@.len() - j,
    {
        j = j + 1;
    }
    j
}

fn scan_newline_exec(chars: &Vec<char>, i: usize) -> (j: usize)
    requires
        i <= chars@.len(),
    ensures
        j == scan_newline(chars@, i as int),
        i <= j <= chars@.len(),
{
    let mut j = i;
    while j < chars.len() && chars[j] != '\n'
        invariant
            i <= j <= chars@.len(),
            scan_newline(chars@, j as int) == scan_newline(chars@, i as int),
        decreases chars@.len() - j,
    {
        j = j + 1;
    }
    j
}

fn scan_number_exec(chars: &Vec<char>, i: usize) -> (r: (usize, bool))
    requires
        i <= chars@.len(),
    ensures
        (r.0 as int, r.1) == scan_number(chars@, i as int, false),
        i <= r.0 <= chars@.len(),
{
    let len = chars.len();
    let mut j = i;
    let mut is_float = false;
    loop
        invariant_except_break
            i <= j <= len,
            len == chars@.len(),
            scan_number(chars@, j as int, is_float) == scan_number(chars@, i as int, false),
        ensures
            i <= j <= len,
            (j as int, is_float) == scan_number(chars@, i as int, false),
        decreases len - j,
    {
        if j >= len {
            break;
        }
        let c = chars[j];
        if is_digit_char(c) {
            j = j + 1;
        } else if c == '.' {
            if is_float {
                break;
            }
            is_float = true;
            j = j + 1;
        } else if c == 'e' || c == 'E' {
            if j + 1 < len && (chars[j + 1] == '+' || chars[j + 1] == '-') {
                j = j + 2;
            } else {
                j = j + 1;
            }
        } else {
            break;
        }
    }
    (j, is_float)
}

/// The number of newlines among the characters from `a` to `b`.
fn count_newlines_exec(chars: &Vec<char>, a: usize, b: usize) -> (n: usize)
    requires
        a <= b <= chars@.len(),
    ensures
        n == count_newlines(chars@.subrange(a as int, b as int)),
        n <= b - a,
{
    let mut n: usize = 0;
    let mut i = a;
    while i < b
        invariant
            a <= i <= b <= chars@.len(),
            n == count_newlines(chars@.subrange(a as int, i as int)),
            n <= i - a,
        decreases b - i,
    {
        assert(chars@.subrange(a as int, i + 1).drop_last() =~= chars@.subrange(a as int, i as int));
        if chars[i] == '\n' {
            n = n + 1;
        }
        i = i + 1;
    }
    n
}

fn line_start_before_exec(chars: &Vec<char>, p: usize) -> (s: usize)
    requires
        p <= chars@.len(),
    ensures
        s == line_start_before(chars@, p as int),
        s <= p,
{
    let mut q = p;
    while q > 0 && chars[q - 1] != '\n'
        invariant
            q <= p <= chars@.len(),
            line_start_before(chars@, q as int) == line_start_before(chars@, p as int),
        decreases q,
    {
        q = q - 1;
    }
    q
}

/// The string made of the given characters.
fn string_of(cs: &[char]) -> (s: String)
    ensures
        s@ == cs@,
{
    let mut s = String::new();
    let mut i: usize = 0;
    while i < cs.len()
        invariant
            i <= cs@.len(),
            s@ == cs@.subrange(0, i as int),
        decreases cs@.len() - i,
    {
        push_char(&mut s, cs[i]);
        i = i + 1;
        assert(s@ =~= cs@.subrange(0, i as int));
    }
    assert(cs@.subrange(0, cs@.len() as int) =~= cs@);
    s
}

fn word_is(chars: &Vec<char>, a: usize, b: usize, w: &[char]) -> (r: bool)
    requires
        a <= b <= chars@.len(),
    ensures
        r == (chars@.subrange(a as int, b as int) == w@),
{
    if b - a != w.len() {
        return false;
    }
    let mut i: usize = 0;
    while i < w.len()
        invariant
            i <= w@.len(),
            b - a == w@.len(),
            a <= b <= chars@.len(),
            forall|k: int| 0 <= k < i ==> chars@[a + k] == w@[k],
        decreases w@.len() - i,
    {
        if chars[a + i] != w[i] {
            assert(chars@.subrange(a as int, b as int)[i as int] != w@[i as int]);
            return false;
        }
        i = i + 1;
    }
    assert(chars@.subrange(a as int, b as int) =~= w@);
    true
}

fn keyword_type_exec(chars: &Vec<char>, a: usize, b: usize) -> (t: Tokentype)
    requires
        a <= b <= chars@.len(),
    ensures
        t == keyword_type(chars@.subrange(a as int, b as int)),
{
    let ghost w = chars@.subrange(a as int, b as int);
    if word_is(chars, a, b, &['l', 'e', 't']) {
        assert(w == seq!['l', 'e', 't']);
        Tokentype::Let
    } else if word_is(chars, a, b, &['m', 'u', 't']) {
        assert(w == seq!['m', 'u', 't']);
        Tokentype::Mut
    } else if word_is(chars, a, b, &['s', 't', 'r', 'u', 'c', 't']) {
        assert(w == seq!['s', 't', 'r', 'u', 'c', 't']);
        Tokentype::Struct
    } else if word_is(chars, a, b, &['f', 'n']) {
        assert(w == seq!['f', 'n']);
        Tokentype::Fn
    } else if word_is(chars, a, b, &['r', 'e', 't', 'u', 'r', 'n']) {
        assert(w == seq!['r', 'e', 't', 'u', 'r', 'n']);
        Tokentype::Return
    } else if word_is(chars, a, b, &['i', 'f']) {
        assert(w == seq!['i', 'f']);
        Tokentype::If
    } else if word_is(chars, a, b, &['e', 'l', 's', 'e']) {
        assert(w == seq!['e', 'l', 's', 'e']);
        Tokentype::Else
    } else if word_is(chars, a, b, &['t', 'r', 'u', 'e']) || word_is(chars, a, b, &['f', 'a', 'l', 's', 'e']) {
        assert(w == seq!['t', 'r', 'u', 'e'] || w == seq!['f', 'a', 'l', 's', 'e']);
        Tokentype::BooleanLiteral
    } else {
        Tokentype::Identifier
    }
}


/// The lexer, holding the position and the results of tokenization so far.
pub struct Lexer<'a> {
    /// The source text.
    input: &'a str,
    /// The characters of the source text.
    chars: Vec<char>,
    /// Current character offset.
    current_pos: usize,
    /// Current line, counted from 1.
    current_line: usize,
    /// Number of tokens on the current line.
    tokens_on_current_line: usize,
    /// Tokens produced so far.
    tokens: Vec<Token>,
    /// (line, token count) for each finished line that holds tokens.
    line_tokens: Vec<(u16, u16)>,
    /// Errors found so far.
    errors: Vec<CompilerError>,
}

impl<'a> Lexer<'a> {
    /// The source text, as characters.
    pub closed spec fn source(&self) -> Seq<char> {
        self.input@
    }

    /// The state of tokenization.
    pub closed spec fn state(&self) -> LexState {
        LexState {
            pos: self.current_pos as int,
            line: self.current_line as int,
            on_line: self.tokens_on_current_line as int,
            tokens: tokens_view(self.tokens@),
            line_tokens: self.line_tokens@,
            errors: errors_view(self.errors@),
        }
    }

    /// The internal consistency of the lexer: its characters are those of
    /// its source, and its counters stay within the bounds of the offset.
    pub closed spec fn inv(&self) -> bool {
        &&& self.chars@ == self.input@
        &&& self.chars@.len() < usize::MAX
        &&& self.current_pos <= self.chars@.len()
        &&& 1 <= self.current_line <= self.current_pos + 1
        &&& self.tokens_on_current_line <= self.current_pos
    }

    /// Creates a lexer at the start of `input`.
    pub fn new(input: &'a str) -> (l: Lexer<'a>)
        requires
            input@.len() < usize::MAX,
        ensures
            l.inv(),
            l.source() == input@,
            l.state() == initial_state(),
    {
        let chars = chars_of(input);
        let l = Lexer {
            input,
            chars,
            current_pos: 0,
            current_line: 1,
            tokens_on_current_line: 0,
            tokens: Vec::new(),
            line_tokens: Vec::new(),
            errors: Vec::new(),
        };
        assert(tokens_view(l.tokens@) =~= seq![]);
        assert(errors_view(l.errors@) =~= seq![]);
        l
    }

    /// Appends a token that starts at `start`.
    fn add_token(&mut self, token_type: Tokentype, lexeme: String, start: usize, suffix: Option<String>)
        requires
            old(self).tokens_on_current_line < usize::MAX,
        ensures
            final(self).state() == add_token(
                old(self).state(),
                token_type,
                lexeme@,
                start as int,
                match suffix {
                    Some(s) => Some(s@),
                    None => None::<Seq<char>>,
                },
            ),
            final(self).chars == old(self).chars,
            final(self).input == old(self).input,
            final(self).current_pos == old(self).current_pos,
            final(self).current_line == old(self).current_line,
            final(self).tokens_on_current_line == old(self).tokens_on_current_line + 1,
    {
        let t = Token::new_with_suffix(token_type, lexeme, start, suffix);
        self.tokens.push(t);
        self.tokens_on_current_line = self.tokens_on_current_line + 1;
        assert(tokens_view(self.tokens@) =~= tokens_view(old(self).tokens@).push(t@));
    }

    /// Ends the current line.
    fn record_line_break(&mut self)
        requires
            old(self).current_line < usize::MAX,
        ensures
            final(self).state() == record_line_break(old(self).state()),
            final(self).chars == old(self).chars,
            final(self).input == old(self).input,
            final(self).current_pos == old(self).current_pos,
            final(self).current_line == old(self).current_line + 1,
            final(self).tokens_on_current_line == 0,
    {
        if self.tokens_on_current_line > 0 {
            self.line_tokens.push((self.current_line as u16, self.tokens_on_current_line as u16));
        }
        self.current_line = self.current_line + 1;
        self.tokens_on_current_line = 0;
    }

    /// Appends an error found at offset `start`.
    fn add_error(&mut self, error_code: ErrorCode, message: String, start: usize, token_length: usize)
        requires
            start <= old(self).chars@.len(),
            old(self).chars@.len() < usize::MAX,
        ensures
            final(self).state() == crate::lexer_spec::add_error(
                old(self).chars@,
                old(self).state(),
                error_code,
                message@,
                start as int,
                token_length,
            ),
            final(self).chars == old(self).chars,
            final(self).input == old(self).input,
            final(self).current_pos == old(self).current_pos,
            final(self).current_line == old(self).current_line,
            final(self).tokens_on_current_line == old(self).tokens_on_current_line,
    {
        let line_start = line_start_before_exec(&self.chars, start);
        let column = start - line_start + 1;
        let e = CompilerError::new(error_code, message, self.current_line, column, start, Some(token_length));
        self.errors.push(e);
        assert(errors_view(self.errors@) =~= errors_view(old(self).errors@).push(e@));
    }

    fn handle_whitespace(&mut self)
        requires
            old(self).inv(),
            old(self).current_pos < old(self).chars@.len(),
        ensures
            final(self).current_pos > old(self).current_pos,
            final(self).inv(),
            final(self).state() == lex_whitespace(old(self).chars@, old(self).state()),
            final(self).chars == old(self).chars,
            final(self).input == old(self).input,
    {
        let c = self.chars[self.current_pos];
        self.current_pos = self.current_pos + 1;
        if c == '\n' {
            self.record_line_break();
        }
    }

    fn handle_identifier(&mut self)
        requires
            old(self).inv(),
            old(self).current_pos < old(self).chars@.len(),
            char_is_alphabetic_at(old(self).chars@, old(self).current_pos as int),
        ensures
            final(self).current_pos > old(self).current_pos,
            final(self).inv(),
            final(self).state() == lex_identifier(old(self).chars@, old(self).state()),
            final(self).chars == old(self).chars,
            final(self).input == old(self).input,
    {
        let start = self.current_pos;
        let first_is_identifier_char = is_alphanumeric(self.chars[start]);
        let end = scan_identifier_exec(&self.chars, start + 1);
        proof {
            assert(scan_identifier(self.chars@, start as int) == end);
        }
        let word = substring(&self.chars, start, end);
        let tt = keyword_type_exec(&self.chars, start, end);
        self.current_pos = end;
        self.add_token(tt, word, start, None);
    }

    fn handle_number(&mut self)
        requires
            old(self).inv(),
            old(self).current_pos < old(self).chars@.len(),
            is_digit(old(self).chars@[old(self).current_pos as int]),
        ensures
            final(self).current_pos > old(self).current_pos,
            final(self).inv(),
            final(self).state() == lex_number(old(self).chars@, old(self).state()),
            final(self).chars == old(self).chars,
            final(self).input == old(self).input,
    {
        let start = self.current_pos;
        let (end, is_float) = scan_number_exec(&self.chars, start);
        proof {
            crate::lexer_spec::lemma_scan_number_progress(self.chars@, start as int + 1, false);
        }
        let number = substring(&self.chars, start, end);
        let word_end = scan_ascii_word_exec(&self.chars, end);
        let mut next = end;
        let mut suffix: Option<String> = None;
        if end < self.chars.len() && is_ascii_letter_char(self.chars[end]) {
            if word_is(&self.chars, end, word_end, &['i', '3', '2'])
                || word_is(&self.chars, end, word_end, &['i', '6', '4'])
                || word_is(&self.chars, end, word_end, &['u', '3', '2'])
                || word_is(&self.chars, end, word_end, &['u', '6', '4'])
                || word_is(&self.chars, end, word_end, &['f', '3', '2'])
                || word_is(&self.chars, end, word_end, &['f', '6', '4']) {
                next = word_end;
                suffix = Some(substring(&self.chars, end, word_end));
            }
        }
        let tt = if is_float { Tokentype::FloatLiteral } else { Tokentype::IntegerLiteral };
        self.current_pos = next;
        self.add_token(tt, number, start, suffix);
    }

    fn handle_string(&mut self)
        requires
            old(self).inv(),
            old(self).current_pos < old(self).chars@.len(),
            old(self).chars@[old(self).current_pos as int] == '"',
        ensures
            final(self).current_pos > old(self).current_pos,
            final(self).inv(),
            final(self).state() == lex_string(old(self).chars@, old(self).state()),
            final(self).chars == old(self).chars,
            final(self).input == old(self).input,
    {
        let start = self.current_pos;
        let close = scan_string_exec(&self.chars, start + 1);
        let content = substring(&self.chars, start + 1, close);
        let newlines = count_newlines_exec(&self.chars, start + 1, close);
        self.current_line = self.current_line + newlines;
        if close < self.chars.len() {
            self.current_pos = close + 1;
            self.add_token(Tokentype::StringLiteral, content, start, None);
        } else {
            self.current_pos = close;
            let message = text_of("Expected closing quote for string literal");
            self.add_error(ErrorCode::ExpectedClosingQuote, message, start, close - start);
        }
    }

    fn handle_single(&mut self, token_type: Tokentype)
        requires
            old(self).inv(),
            old(self).current_pos < old(self).chars@.len(),
        ensures
            final(self).current_pos > old(self).current_pos,
            final(self).inv(),
            final(self).state() == lex_single(
                old(self).state(),
                token_type,
                old(self).chars@[old(self).current_pos as int],
            ),
            final(self).chars == old(self).chars,
            final(self).input == old(self).input,
    {
        let start = self.current_pos;
        let c = self.chars[start];
        self.current_pos = start + 1;
        self.add_token(token_type, string1(c), start, None);
    }

    fn handle_pair(&mut self, second: char, long: Tokentype, short: Tokentype)
        requires
            old(self).inv(),
            old(self).current_pos < old(self).chars@.len(),
        ensures
            final(self).current_pos > old(self).current_pos,
            final(self).inv(),
            final(self).state() == lex_pair(old(self).chars@, old(self).state(), second, long, short),
            final(self).chars == old(self).chars,
            final(self).input == old(self).input,
    {
        let start = self.current_pos;
        let c = self.chars[start];
        if start + 1 < self.chars.len() && self.chars[start + 1] == second {
            self.current_pos = start + 2;
            self.add_token(long, string2(c, second), start, None);
        } else {
            self.current_pos = start + 1;
            self.add_token(short, string1(c), start, None);
        }
    }

    /// The body of a block comment, after its opening `/*`.
    fn handle_block_comment(&mut self)
        requires
            old(self).inv(),
            old(self).current_pos >= 2,
        ensures
            final(self).inv(),
            final(self).current_pos >= old(self).current_pos,
            final(self).state() == block_comment(old(self).chars@, old(self).state(), 1),
            final(self).chars == old(self).chars,
            final(self).input == old(self).input,
    {
        let mut nesting: usize = 1;
        while nesting > 0 && self.current_pos < self.chars.len()
            invariant
                self.inv(),
                self.chars == old(self).chars,
                self.input == old(self).input,
                self.current_pos >= old(self).current_pos,
                nesting <= self.current_pos,
                block_comment(self.chars@, self.state(), nesting as int) == block_comment(
                    old(self).chars@,
                    old(self).state(),
                    1,
                ),
            decreases self.chars@.len() - self.current_pos,
        {
            let pos = self.current_pos;
            let c = self.chars[pos];
            if c == '\n' {
                self.record_line_break();
            }
            let has_next = pos + 1 < self.chars.len();
            if c == '*' && has_next && self.chars[pos + 1] == '/' {
                self.current_pos = pos + 2;
                nesting = nesting - 1;
            } else if c == '/' && has_next && self.chars[pos + 1] == '*' {
                self.current_pos = pos + 2;
                nesting = nesting + 1;
            } else {
                self.current_pos = pos + 1;
            }
        }
    }

    /// A `/` at the current offset: division, line comment or block comment.
    fn handle_slash(&mut self)
        requires
            old(self).inv(),
            old(self).current_pos < old(self).chars@.len(),
            old(self).chars@[old(self).current_pos as int] == '/',
        ensures
            final(self).inv(),
            final(self).current_pos > old(self).current_pos,
            final(self).state() == lex_slash(old(self).chars@, old(self).state()),
            final(self).chars == old(self).chars,
            final(self).input == old(self).input,
    {
        let pos = self.current_pos;
        let has_next = pos + 1 < self.chars.len();
        if has_next && self.chars[pos + 1] == '/' {
            let nl = scan_newline_exec(&self.chars, pos + 2);
            if nl < self.chars.len() {
                self.current_pos = nl + 1;
                self.record_line_break();
            } else {
                self.current_pos = nl;
            }
        } else if has_next && self.chars[pos + 1] == '*' {
            self.current_pos = pos + 2;
            self.handle_block_comment();
        } else {
            self.handle_single(Tokentype::Divide);
        }
    }

    /// One step of tokenization at the current offset.
    fn step(&mut self)
        requires
            old(self).inv(),
            old(self).current_pos < old(self).chars@.len(),
        ensures
            final(self).inv(),
            final(self).current_pos > old(self).current_pos,
            final(self).state() == lex_step(old(self).chars@, old(self).state()),
            final(self).chars == old(self).chars,
            final(self).input == old(self).input,
    {
        let c = self.chars[self.current_pos];
        if is_whitespace(c) {
            self.handle_whitespace();
        } else if is_alphabetic(c) {
            self.handle_identifier();
        } else if is_digit_char(c) {
            self.handle_number();
        } else if c == '"' {
            self.handle_string();
        } else if c == ':' {
            self.handle_single(Tokentype::Colon);
        } else if c == '+' {
            self.handle_single(Tokentype::Plus);
        } else if c == '-' {
            self.handle_pair('>', Tokentype::Arrow, Tokentype::Minus);
        } else if c == '*' {
            self.handle_single(Tokentype::Multiply);
        } else if c == '/' {
            self.handle_slash();
        } else if c == '=' {
            self.handle_pair('=', Tokentype::EqualEqual, Tokentype::Equal);
        } else if c == '<' {
            self.handle_pair('=', Tokentype::LessEqual, Tokentype::Less);
        } else if c == '>' {
            self.handle_pair('=', Tokentype::GreaterEqual, Tokentype::Greater);
        } else if c == '!' {
            self.handle_pair('=', Tokentype::NotEqual, Tokentype::Not);
        } else if c == ';' {
            self.handle_single(Tokentype::Semicolon);
        } else if c == '{' {
            self.handle_single(Tokentype::LeftBrace);
        } else if c == '}' {
            self.handle_single(Tokentype::RightBrace);
        } else if c == ',' {
            self.handle_single(Tokentype::Comma);
        } else if c == '(' {
            self.handle_single(Tokentype::LeftParen);
        } else if c == ')' {
            self.handle_single(Tokentype::RightParen);
        } else if c == '&' {
            self.handle_pair('&', Tokentype::And, Tokentype::Invalid);
        } else if c == '|' {
            self.handle_pair('|', Tokentype::Or, Tokentype::Invalid);
        } else {
            self.handle_single(Tokentype::Invalid);
        }
    }

    /// Tokenizes the whole source. Returns the tokens, ending with an
    /// end-of-file token, and the line information of the source; or, when
    /// a string literal lacks its closing quote, the errors found.
    pub fn tokenize(self) -> (r: CompileResult<LexerResult<'a>>)
        requires
            self.inv(),
            self.state() == initial_state(),
        ensures
            match r {
                Ok(res) => {
                    &&& lex_errors(self.source()).len() == 0
                    &&& tokens_view(res.tokens@) == lex_tokens(self.source())
                    &&& res.line_info.wf()
                    &&& res.line_info.source_text() == self.source()
                    &&& res.line_info.line_counts() == lex_line_tokens(self.source())
                },
                Err(errs) => {
                    &&& lex_errors(self.source()).len() > 0
                    &&& errors_view(errs@) == lex_errors(self.source())
                },
            },
    {
        let ghost src = self.chars@;
        let mut lexer = self;
        while lexer.current_pos < lexer.chars.len()
            invariant
                lexer.inv(),
                lexer.chars@ == src,
                lexer.input@ == src,
                lex_run(src, lexer.state()) == lex_final(src),
            decreases src.len() - lexer.current_pos,
        {
            lexer.step();
        }
        lexer.finish()
    }

    /// Ends tokenization: records the last line, appends the end-of-file
    /// token and builds the line information.
    fn finish(self) -> (r: CompileResult<LexerResult<'a>>)
        requires
            self.inv(),
            self.current_pos >= self.chars@.len(),
            lex_run(self.chars@, self.state()) == lex_final(self.chars@),
        ensures
            match r {
                Ok(res) => {
                    &&& lex_errors(self.source()).len() == 0
                    &&& tokens_view(res.tokens@) == lex_tokens(self.source())
                    &&& res.line_info.wf()
                    &&& res.line_info.source_text() == self.source()
                    &&& res.line_info.line_counts() == lex_line_tokens(self.source())
                },
                Err(errs) => {
                    &&& lex_errors(self.source()).len() > 0
                    &&& errors_view(errs@) == lex_errors(self.source())
                },
            },
    {
        let Lexer {
            input,
            chars,
            current_pos,
            current_line,
            tokens_on_current_line,
            mut tokens,
            mut line_tokens,
            errors,
        } = self;
        if tokens_on_current_line > 0 {
            line_tokens.push((current_line as u16, tokens_on_current_line as u16));
        }
        let eof = Token::new(Tokentype::Eof, String::new(), current_pos);
        tokens.push(eof);
        proof {
            assert(tokens_view(tokens@) =~= lex_tokens(chars@));
        }
        let mut info = LineInfo::new(input);
        info.set_line_counts(line_tokens);
        if errors.len() > 0 {
            return Err(errors);
        }
        Ok(LexerResult { tokens, line_info: info })
    }
}

/// The string made of `c`.
fn string1(c: char) -> (s: String)
    ensures
        s@ == seq![c],
{
    let mut s = String::new();
    push_char(&mut s, c);
    assert(s@ =~= seq![c]);
    s
}

/// The string made of `c` followed by `d`.
fn string2(c: char, d: char) -> (s: String)
    ensures
        s@ == seq![c, d],
{
    let mut s = String::new();
    push_char(&mut s, c);
    push_char(&mut s, d);
    assert(s@ =~= seq![c, d]);
    s
}

/// A string holding the characters of `t`.
fn text_of(t: &str) -> (s: String)
    ensures
        s@ == t@,
{
    let mut s = String::new();
    push_str(&mut s, t);
    assert(s@ =~= t@);
    s
}

/// The character at `i` is alphabetic.
pub open spec fn char_is_alphabetic_at(chars: Seq<char>, i: int) -> bool {
    crate::lexer_spec::char_is_alphabetic(chars[i])
}

} // verus!
