//! Rendering tokens as text for inspection: the padded name of the token
//! type, the lexeme in quotes, and the category that selects their colors.
use vstd::prelude::*;
use crate::text::{push_char, push_repeated, push_str, space_padded_right};
use crate::token::Tokentype;

verus! {

/// The group a token type belongs to when tokens are displayed.
#[derive(Debug, Clone, Copy, PartialEq, Eq, Structural)]
pub enum TokenCategory {
    /// `let`, `mut`, `fn`, `return`, `if`, `else`, `struct`.
    Keyword,
    /// Integer, float, string and boolean literals.
    Literal,
    /// Identifiers.
    Identifier,
    /// Arithmetic, comparison, assignment and logical operators.
    Operator,
    /// Separators, parentheses, braces and the arrow.
    Punctuation,
    /// The end-of-file token.
    EndOfFile,
    /// Invalid tokens.
    Error,
}

/// How a lexeme is rendered.
#[derive(Debug, Clone, Copy, PartialEq, Eq, Structural)]
pub enum LexemeStyle {
    /// A string literal.
    StringValue,
    /// The text of an invalid token.
    Invalid,
    /// The end-of-file marker.
    EndOfFile,
    /// The marker for an empty lexeme.
    Empty,
    /// Any other lexeme.
    Plain,
}

/// The category of a token type.
pub open spec fn spec_category(t: Tokentype) -> TokenCategory {
    match t {
        Tokentype::Let | Tokentype::Mut | Tokentype::Fn | Tokentype::Return | Tokentype::If
        | Tokentype::Else | Tokentype::Struct => TokenCategory::Keyword,
        Tokentype::IntegerLiteral | Tokentype::FloatLiteral | Tokentype::StringLiteral
        | Tokentype::BooleanLiteral => TokenCategory::Literal,
        Tokentype::Identifier => TokenCategory::Identifier,
        Tokentype::Plus | Tokentype::Minus | Tokentype::Multiply | Tokentype::Divide
        | Tokentype::Equal | Tokentype::EqualEqual | Tokentype::NotEqual | Tokentype::Less
        | Tokentype::Greater | Tokentype::LessEqual | Tokentype::GreaterEqual | Tokentype::And
        | Tokentype::Or | Tokentype::Not => TokenCategory::Operator,
        Tokentype::Semicolon | Tokentype::Comma | Tokentype::Colon | Tokentype::Arrow
        | Tokentype::LeftParen | Tokentype::RightParen | Tokentype::LeftBrace
        | Tokentype::RightBrace => TokenCategory::Punctuation,
        Tokentype::Eof => TokenCategory::EndOfFile,
        Tokentype::Invalid => TokenCategory::Error,
    }
}

/// The displayed text of a lexeme of a token of type `t`.
pub open spec fn spec_lexeme_text(lexeme: Seq<char>, t: Tokentype) -> Seq<char> {
    match t {
        Tokentype::StringLiteral => seq!['"'] + lexeme + seq!['"'],
        Tokentype::Invalid => seq!['\''] + lexeme + seq!['\''],
        Tokentype::Eof => "<EOF>"@,
        _ => if lexeme.len() == 0 {
            "<empty>"@
        } else {
            seq!['\''] + lexeme + seq!['\'']
        },
    }
}

/// The style of a lexeme of a token of type `t`.
pub open spec fn spec_lexeme_style(lexeme: Seq<char>, t: Tokentype) -> LexemeStyle {
    match t {
        Tokentype::StringLiteral => LexemeStyle::StringValue,
        Tokentype::Invalid => LexemeStyle::Invalid,
        Tokentype::Eof => LexemeStyle::EndOfFile,
        _ => if lexeme.len() == 0 {
            LexemeStyle::Empty
        } else {
            LexemeStyle::Plain
        },
    }
}

/// Renders tokens for inspection.
pub struct TokenPrinter;

impl TokenPrinter {
    /// Creates a token printer.
    pub fn new() -> (p: TokenPrinter)
        ensures
            p == TokenPrinter,
    {
        TokenPrinter
    }

    /// The category of a token type.
    pub fn category(&self, token_type: &Tokentype) -> (c: TokenCategory)
        ensures
            c == spec_category(*token_type),
    {
        match token_type {
            Tokentype::Let | Tokentype::Mut | Tokentype::Fn | Tokentype::Return | Tokentype::If
            | Tokentype::Else | Tokentype::Struct => TokenCategory::Keyword,
            Tokentype::IntegerLiteral | Tokentype::FloatLiteral | Tokentype::StringLiteral
            | Tokentype::BooleanLiteral => TokenCategory::Literal,
            Tokentype::Identifier => TokenCategory::Identifier,
            Tokentype::Plus | Tokentype::Minus | Tokentype::Multiply | Tokentype::Divide
            | Tokentype::Equal | Tokentype::EqualEqual | Tokentype::NotEqual | Tokentype::Less
            | Tokentype::Greater | Tokentype::LessEqual | Tokentype::GreaterEqual
            | Tokentype::And | Tokentype::Or | Tokentype::Not => TokenCategory::Operator,
            Tokentype::Semicolon | Tokentype::Comma | Tokentype::Colon | Tokentype::Arrow
            | Tokentype::LeftParen | Tokentype::RightParen | Tokentype::LeftBrace
            | Tokentype::RightBrace => TokenCategory::Punctuation,
            Tokentype::Eof => TokenCategory::EndOfFile,
            Tokentype::Invalid => TokenCategory::Error,
        }
    }

    /// The name of the token type, padded with spaces to 15 characters.
    pub fn format_token_type(&self, token_type: &Tokentype) -> (s: String)
        ensures
            s@ == space_padded_right(token_type.spec_variant_name(), 15),
    {
        let name = token_type.variant_name();
        let mut s = String::new();
        push_str(&mut s, name);
        let len = name.unicode_len();
        if len < 15 {
            push_repeated(&mut s, ' ', 15 - len);
        }
        assert(s@ =~= space_padded_right(token_type.spec_variant_name(), 15));
        s
    }

    /// The displayed text of a lexeme: a string literal in double quotes,
    /// other lexemes in single quotes, `<EOF>` for the end of file and
    /// `<empty>` for an empty lexeme.
    pub fn format_lexeme(&self, lexeme: &str, token_type: &Tokentype) -> (s: String)
        ensures
            s@ == spec_lexeme_text(lexeme@, *token_type),
    {
        let mut s = String::new();
        match token_type {
            Tokentype::StringLiteral => {
                push_char(&mut s, '"');
                push_str(&mut s, lexeme);
                push_char(&mut s, '"');
            },
            Tokentype::Eof => {
                push_str(&mut s, "<EOF>");
            },
            _ => {
                if lexeme.is_empty() && *token_type != Tokentype::Invalid {
                    push_str(&mut s, "<empty>");
                } else {
                    push_char(&mut s, '\'');
                    push_str(&mut s, lexeme);
                    push_char(&mut s, '\'');
                }
            },
        }
        assert(s@ =~= spec_lexeme_text(lexeme@, *token_type));
        s
    }

    /// The style of a lexeme.
    pub fn lexeme_style(&self, lexeme: &str, token_type: &Tokentype) -> (st: LexemeStyle)
        ensures
            st == spec_lexeme_style(lexeme@, *token_type),
    {
        match token_type {
            Tokentype::StringLiteral => LexemeStyle::StringValue,
            Tokentype::Invalid => LexemeStyle::Invalid,
            Tokentype::Eof => LexemeStyle::EndOfFile,
            _ => if lexeme.is_empty() {
                LexemeStyle::Empty
            } else {
                LexemeStyle::Plain
            },
        }
    }
}

impl Default for TokenPrinter {
    fn default() -> (p: TokenPrinter)
        ensures
            p == TokenPrinter,
    {
        TokenPrinter::new()
    }
}

} // verus!
