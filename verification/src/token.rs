//! Tokens produced by the lexer.
use vstd::prelude::*;
use crate::text::push_str;

verus! {

/// Types of tokens.
#[derive(Debug, Clone, Copy, PartialEq, Eq, Structural)]
pub enum Tokentype {
    /// `x, y, myVar`
    Identifier,
    /// `123`
    IntegerLiteral,
    /// `123.45`
    FloatLiteral,
    /// `"hello world"`
    StringLiteral,
    /// `true, false`
    BooleanLiteral,
    /// `let`
    Let,
    /// `mut`
    Mut,
    /// `if`
    If,
    /// `else`
    Else,
    /// `+`
    Plus,
    /// `-`
    Minus,
    /// `*`
    Multiply,
    /// `/`
    Divide,
    /// `!`
    Not,
    /// `&&`
    And,
    /// `||`
    Or,
    /// `>`
    Greater,
    /// `<`
    Less,
    /// `>=`
    GreaterEqual,
    /// `<=`
    LessEqual,
    /// `==`
    EqualEqual,
    /// `!=`
    NotEqual,
    /// `unrecognized character`
    Invalid,
    /// `=`
    Equal,
    /// `:`
    Colon,
    /// `;`
    Semicolon,
    /// `struct`
    Struct,
    /// `{`
    LeftBrace,
    /// `}`
    RightBrace,
    /// `,`
    Comma,
    /// `fn`
    Fn,
    /// `(`
    LeftParen,
    /// `)`
    RightParen,
    /// `->`
    Arrow,
    /// `return`
    Return,
    /// `end of file`
    Eof,
}

impl Tokentype {
    /// The one text that a token of this type has in source code: its
    /// keyword, operator or punctuation; `None` for identifiers, literals,
    /// invalid characters and the end of input, whose text varies.
    pub open spec fn spec_spelling(self) -> Option<Seq<char>> {
        match self {
            Tokentype::Let => Some(seq!['l', 'e', 't']),
            Tokentype::Mut => Some(seq!['m', 'u', 't']),
            Tokentype::If => Some(seq!['i', 'f']),
            Tokentype::Else => Some(seq!['e', 'l', 's', 'e']),
            Tokentype::Struct => Some(seq!['s', 't', 'r', 'u', 'c', 't']),
            Tokentype::Fn => Some(seq!['f', 'n']),
            Tokentype::Return => Some(seq!['r', 'e', 't', 'u', 'r', 'n']),
            Tokentype::Plus => Some(seq!['+']),
            Tokentype::Minus => Some(seq!['-']),
            Tokentype::Multiply => Some(seq!['*']),
            Tokentype::Divide => Some(seq!['/']),
            Tokentype::Not => Some(seq!['!']),
            Tokentype::And => Some(seq!['&', '&']),
            Tokentype::Or => Some(seq!['|', '|']),
            Tokentype::Greater => Some(seq!['>']),
            Tokentype::Less => Some(seq!['<']),
            Tokentype::GreaterEqual => Some(seq!['>', '=']),
            Tokentype::LessEqual => Some(seq!['<', '=']),
            Tokentype::EqualEqual => Some(seq!['=', '=']),
            Tokentype::NotEqual => Some(seq!['!', '=']),
            Tokentype::Equal => Some(seq!['=']),
            Tokentype::Colon => Some(seq![':']),
            Tokentype::Semicolon => Some(seq![';']),
            Tokentype::LeftBrace => Some(seq!['{']),
            Tokentype::RightBrace => Some(seq!['}']),
            Tokentype::Comma => Some(seq![',']),
            Tokentype::LeftParen => Some(seq!['(']),
            Tokentype::RightParen => Some(seq![')']),
            Tokentype::Arrow => Some(seq!['-', '>']),
            _ => None,
        }
    }

    /// The human readable name of the token type.
    pub open spec fn spec_display_name(self) -> Seq<char> {
        match self {
            Tokentype::Identifier => "identifier"@,
            Tokentype::IntegerLiteral => "integer literal"@,
            Tokentype::FloatLiteral => "float literal"@,
            Tokentype::StringLiteral => "string literal"@,
            Tokentype::BooleanLiteral => "boolean literal"@,
            Tokentype::Let => "let keyword"@,
            Tokentype::Mut => "mut keyword"@,
            Tokentype::If => "if keyword"@,
            Tokentype::Else => "else keyword"@,
            Tokentype::Plus => "'+'"@,
            Tokentype::Minus => "'-'"@,
            Tokentype::Multiply => "'*'"@,
            Tokentype::Divide => "'/'"@,
            Tokentype::Not => "'!'"@,
            Tokentype::And => "'&&'"@,
            Tokentype::Or => "'||'"@,
            Tokentype::Greater => "'>'"@,
            Tokentype::Less => "'<'"@,
            Tokentype::GreaterEqual => "'>='"@,
            Tokentype::LessEqual => "'<='"@,
            Tokentype::EqualEqual => "'=='"@,
            Tokentype::NotEqual => "'!='"@,
            Tokentype::Invalid => "invalid token"@,
            Tokentype::Equal => "'='"@,
            Tokentype::Colon => "':'"@,
            Tokentype::Semicolon => "';'"@,
            Tokentype::Struct => "sturct keyword"@,
            Tokentype::LeftBrace => "'{'"@,
            Tokentype::RightBrace => "'}'"@,
            Tokentype::Comma => "','"@,
            Tokentype::Fn => "fn keyword"@,
            Tokentype::LeftParen => "'('"@,
            Tokentype::RightParen => "')'"@,
            Tokentype::Arrow => "'->'"@,
            Tokentype::Return => "return keyword"@,
            Tokentype::Eof => "<EOF>"@,
        }
    }

    /// The name of the variant, as written in the source of this type.
    pub open spec fn spec_variant_name(self) -> Seq<char> {
        match self {
            Tokentype::Identifier => "Identifier"@,
            Tokentype::IntegerLiteral => "IntegerLiteral"@,
            Tokentype::FloatLiteral => "FloatLiteral"@,
            Tokentype::StringLiteral => "StringLiteral"@,
            Tokentype::BooleanLiteral => "BooleanLiteral"@,
            Tokentype::Let => "Let"@,
            Tokentype::Mut => "Mut"@,
            Tokentype::If => "If"@,
            Tokentype::Else => "Else"@,
            Tokentype::Plus => "Plus"@,
            Tokentype::Minus => "Minus"@,
            Tokentype::Multiply => "Multiply"@,
            Tokentype::Divide => "Divide"@,
            Tokentype::Not => "Not"@,
            Tokentype::And => "And"@,
            Tokentype::Or => "Or"@,
            Tokentype::Greater => "Greater"@,
            Tokentype::Less => "Less"@,
            Tokentype::GreaterEqual => "GreaterEqual"@,
            Tokentype::LessEqual => "LessEqual"@,
            Tokentype::EqualEqual => "EqualEqual"@,
            Tokentype::NotEqual => "NotEqual"@,
            Tokentype::Invalid => "Invalid"@,
            Tokentype::Equal => "Equal"@,
            Tokentype::Colon => "Colon"@,
            Tokentype::Semicolon => "Semicolon"@,
            Tokentype::Struct => "Struct"@,
            Tokentype::LeftBrace => "LeftBrace"@,
            Tokentype::RightBrace => "RightBrace"@,
            Tokentype::Comma => "Comma"@,
            Tokentype::Fn => "Fn"@,
            Tokentype::LeftParen => "LeftParen"@,
            Tokentype::RightParen => "RightParen"@,
            Tokentype::Arrow => "Arrow"@,
            Tokentype::Return => "Return"@,
            Tokentype::Eof => "Eof"@,
        }
    }

    /// Returns the human readable name of the token type.
    pub fn display_name(&self) -> (s: &'static str)
        ensures
            s@ == self.spec_display_name(),
    {
        match self {
            Tokentype::Identifier => "identifier",
            Tokentype::IntegerLiteral => "integer literal",
            Tokentype::FloatLiteral => "float literal",
            Tokentype::StringLiteral => "string literal",
            Tokentype::BooleanLiteral => "boolean literal",
            Tokentype::Let => "let keyword",
            Tokentype::Mut => "mut keyword",
            Tokentype::If => "if keyword",
            Tokentype::Else => "else keyword",
            Tokentype::Plus => "'+'",
            Tokentype::Minus => "'-'",
            Tokentype::Multiply => "'*'",
            Tokentype::Divide => "'/'",
            Tokentype::Not => "'!'",
            Tokentype::And => "'&&'",
            Tokentype::Or => "'||'",
            Tokentype::Greater => "'>'",
            Tokentype::Less => "'<'",
            Tokentype::GreaterEqual => "'>='",
            Tokentype::LessEqual => "'<='",
            Tokentype::EqualEqual => "'=='",
            Tokentype::NotEqual => "'!='",
            Tokentype::Invalid => "invalid token",
            Tokentype::Equal => "'='",
            Tokentype::Colon => "':'",
            Tokentype::Semicolon => "';'",
            Tokentype::Struct => "sturct keyword",
            Tokentype::LeftBrace => "'{'",
            Tokentype::RightBrace => "'}'",
            Tokentype::Comma => "','",
            Tokentype::Fn => "fn keyword",
            Tokentype::LeftParen => "'('",
            Tokentype::RightParen => "')'",
            Tokentype::Arrow => "'->'",
            Tokentype::Return => "return keyword",
            Tokentype::Eof => "<EOF>",
        }
    }

    /// Returns the name of the variant.
    pub fn variant_name(&self) -> (s: &'static str)
        ensures
            s@ == self.spec_variant_name(),
    {
        match self {
            Tokentype::Identifier => "Identifier",
            Tokentype::IntegerLiteral => "IntegerLiteral",
            Tokentype::FloatLiteral => "FloatLiteral",
            Tokentype::StringLiteral => "StringLiteral",
            Tokentype::BooleanLiteral => "BooleanLiteral",
            Tokentype::Let => "Let",
            Tokentype::Mut => "Mut",
            Tokentype::If => "If",
            Tokentype::Else => "Else",
            Tokentype::Plus => "Plus",
            Tokentype::Minus => "Minus",
            Tokentype::Multiply => "Multiply",
            Tokentype::Divide => "Divide",
            Tokentype::Not => "Not",
            Tokentype::And => "And",
            Tokentype::Or => "Or",
            Tokentype::Greater => "Greater",
            Tokentype::Less => "Less",
            Tokentype::GreaterEqual => "GreaterEqual",
            Tokentype::LessEqual => "LessEqual",
            Tokentype::EqualEqual => "EqualEqual",
            Tokentype::NotEqual => "NotEqual",
            Tokentype::Invalid => "Invalid",
            Tokentype::Equal => "Equal",
            Tokentype::Colon => "Colon",
            Tokentype::Semicolon => "Semicolon",
            Tokentype::Struct => "Struct",
            Tokentype::LeftBrace => "LeftBrace",
            Tokentype::RightBrace => "RightBrace",
            Tokentype::Comma => "Comma",
            Tokentype::Fn => "Fn",
            Tokentype::LeftParen => "LeftParen",
            Tokentype::RightParen => "RightParen",
            Tokentype::Arrow => "Arrow",
            Tokentype::Return => "Return",
            Tokentype::Eof => "Eof",
        }
    }
}

/// The mathematical content of a token: its type, text, position and
/// numeric suffix.
pub struct SpecToken {
    /// The type of the token.
    pub token_type: Tokentype,
    /// The text of the token.
    pub lexeme: Seq<char>,
    /// Character offset of the token.
    pub pos: int,
    /// The numeric type suffix, if any.
    pub suffix: Option<Seq<char>>,
}

/// A token of the source code.
pub struct Token {
    /// The type of the token.
    pub token_type: Tokentype,
    /// The text of the token.
    pub lexeme: String,
    /// Character offset of the token; used with `LineInfo` to find its line.
    pub pos: usize,
    /// The type suffix of a numeric literal (such as `i64`), if any.
    pub suffix: Option<String>,
}

impl View for Token {
    type V = SpecToken;

    open spec fn view(&self) -> SpecToken {
        SpecToken {
            token_type: self.token_type,
            lexeme: self.lexeme@,
            pos: self.pos as int,
            suffix: match self.suffix {
                Some(s) => Some(s@),
                None => None,
            },
        }
    }
}

impl Token {
    /// Creates a token without suffix.
    pub fn new(token_type: Tokentype, lexeme: String, pos: usize) -> (t: Token)
        ensures
            t.token_type == token_type,
            t.lexeme@ == lexeme@,
            t.pos == pos,
            t.suffix is None,
    {
        Token { token_type, lexeme, pos, suffix: None }
    }

    /// Creates a token with an optional suffix.
    pub fn new_with_suffix(token_type: Tokentype, lexeme: String, pos: usize, suffix: Option<String>) -> (t: Token)
        ensures
            t.token_type == token_type,
            t.lexeme@ == lexeme@,
            t.pos == pos,
            t.suffix == suffix,
            t@.suffix == match suffix {
                Some(s) => Some(s@),
                None => None::<Seq<char>>,
            },
    {
        Token { token_type, lexeme, pos, suffix }
    }

    /// The display text of a token: its type name, a colon, and its text.
    pub open spec fn spec_display_text(&self) -> Seq<char> {
        self.token_type.spec_display_name() + seq![':', ' '] + self.lexeme@
    }

    /// Returns the display text of the token.
    pub fn display_text(&self) -> (s: String)
        ensures
            s@ == self.spec_display_text(),
    {
        let mut s = String::new();
        push_str(&mut s, self.token_type.display_name());
        push_str(&mut s, ": ");
        push_str(&mut s, self.lexeme.as_str());
        proof {
            reveal_strlit(": ");
        }
        assert(s@ =~= self.spec_display_text());
        s
    }
}

} // verus!
