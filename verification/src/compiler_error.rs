//! Compiler errors, their display next to the offending source line, and a
//! simple collector of errors.
use vstd::prelude::*;
use crate::error_codes::ErrorCode;
use crate::line_info::{line_col_in, LineInfo};
use crate::text::{decimal, push_char, push_decimal, push_repeated, push_str, repeated, string_from};

verus! {

/// A compiler error: its code, message, line and column, character offset
/// and the length of the offending token, if known.
#[derive(Debug)]
pub struct CompilerError {
    /// The structured error code.
    pub error_code: ErrorCode,
    /// The error message.
    pub message: String,
    /// The line at which the error occurred.
    pub line: usize,
    /// The column at which the error occurred.
    pub column: usize,
    /// The character offset of the error in the source.
    pub position: usize,
    /// The length of the offending token, if applicable.
    pub token_length: Option<usize>,
}

/// The mathematical content of a compiler error.
pub struct SpecCompilerError {
    /// The structured error code.
    pub error_code: ErrorCode,
    /// The error message.
    pub message: Seq<char>,
    /// The line at which the error occurred.
    pub line: int,
    /// The column at which the error occurred.
    pub column: int,
    /// The character offset of the error.
    pub position: int,
    /// The length of the offending token, if applicable.
    pub token_length: Option<usize>,
}

impl View for CompilerError {
    type V = SpecCompilerError;

    open spec fn view(&self) -> SpecCompilerError {
        SpecCompilerError {
            error_code: self.error_code,
            message: self.message@,
            line: self.line as int,
            column: self.column as int,
            position: self.position as int,
            token_length: self.token_length,
        }
    }
}

/// How a piece of a displayed error is to be rendered.
#[derive(Debug, Clone, Copy, PartialEq, Eq, Structural)]
pub enum TextStyle {
    /// Unstyled text.
    Plain,
    /// The word `error` at the start of the heading.
    Heading,
    /// The error code label.
    Code,
    /// Arrows and pipes that frame the source line.
    Frame,
    /// The line number in the margin.
    LineNumber,
    /// The carets that mark the offending token.
    Marker,
    /// The error message.
    Message,
}

/// A piece of displayed text together with its style.
pub struct StyledText {
    /// How the text is to be rendered.
    pub style: TextStyle,
    /// The text itself.
    pub text: String,
}

/// The texts of a sequence of styled pieces, concatenated.
pub open spec fn concat_texts(parts: Seq<(TextStyle, Seq<char>)>) -> Seq<char>
    decreases parts.len(),
{
    if parts.len() == 0 {
        seq![]
    } else {
        concat_texts(parts.drop_last()) + parts.last().1
    }
}

/// The pieces of the display of an error whose code has label `label` and
/// description `desc`, at line `line` and column `col`, next to source line
/// `line_text`, marking `marker_len` characters and followed by `message`.
pub open spec fn display_parts(
    label: Seq<char>,
    desc: Seq<char>,
    line: usize,
    col: usize,
    line_text: Seq<char>,
    marker_len: nat,
    message: Seq<char>,
) -> Seq<(TextStyle, Seq<char>)> {
    let line_num = decimal(line as nat);
    let indent = repeated(' ', line_num.len() + 1);
    let marker_gap = repeated(' ', if col >= 1 { (col - 1) as nat } else { 0 });
    seq![
        (TextStyle::Heading, "error"@),
        (TextStyle::Plain, seq![' ']),
        (TextStyle::Code, label),
        (TextStyle::Plain, seq![':', ' '] + desc + seq!['\n', ' ', ' ']),
        (TextStyle::Frame, seq!['-', '-', '>']),
        (TextStyle::Plain, seq![' ', 'm', 'a', 'i', 'n', ':'] + decimal(line as nat) + seq![':'] + decimal(col as nat) + seq!['\n'] + indent),
        (TextStyle::Frame, seq!['|']),
        (TextStyle::Plain, seq!['\n']),
        (TextStyle::LineNumber, line_num),
        (TextStyle::Plain, seq![' ']),
        (TextStyle::Frame, seq!['|']),
        (TextStyle::Plain, seq![' '] + line_text + seq!['\n'] + indent),
        (TextStyle::Frame, seq!['|']),
        (TextStyle::Plain, seq![' '] + marker_gap),
        (TextStyle::Marker, repeated('^', marker_len)),
        (TextStyle::Plain, seq![' ']),
        (TextStyle::Message, message),
        (TextStyle::Plain, seq!['\n']),
    ]
}

/// The views of a sequence of styled pieces.
pub open spec fn styled_view(parts: Seq<StyledText>) -> Seq<(TextStyle, Seq<char>)> {
    parts.map_values(|p: StyledText| (p.style, p.text@))
}

fn push_part(parts: &mut Vec<StyledText>, style: TextStyle, text: String)
    ensures
        styled_view(final(parts)@) == styled_view(old(parts)@).push((style, text@)),
{
    parts.push(StyledText { style, text });
    assert(styled_view(parts@) =~= styled_view(old(parts)@).push((style, text@)));
}

impl CompilerError {
    /// Creates a compiler error from its parts.
    pub fn new(
        error_code: ErrorCode,
        message: String,
        line: usize,
        column: usize,
        position: usize,
        token_length: Option<usize>,
    ) -> (e: CompilerError)
        ensures
            e.error_code == error_code,
            e.message@ == message@,
            e.line == line,
            e.column == column,
            e.position == position,
            e.token_length == token_length,
    {
        CompilerError { error_code, message, line, column, position, token_length }
    }

    /// The number of carets that mark the offending token: its length, at least one.
    pub open spec fn marker_length(&self) -> nat {
        match self.token_length {
            Some(n) => if n >= 1 { n as nat } else { 1 },
            None => 1,
        }
    }

    /// The pieces of the display of this error, given where its position lies.
    pub open spec fn spec_display(&self, info: &LineInfo, line: usize, col: usize) -> Seq<(TextStyle, Seq<char>)> {
        let line_text = match info.spec_line_text(line) {
            Some(t) => t,
            None => "<line not available>"@,
        };
        display_parts(
            self.error_code.spec_label(),
            self.error_code.spec_description(),
            line,
            col,
            line_text,
            self.marker_length(),
            self.message@,
        )
    }

    /// Splits the display of this error into styled pieces: a heading with
    /// the error code and its description, a pointer to the line and
    /// column, the source line, and carets under the offending token
    /// followed by the message.
    pub fn display_segments(&self, line_info: &LineInfo) -> (parts: Vec<StyledText>)
        requires
            line_info.wf(),
            self.position < usize::MAX || line_info.starts().len() > 1,
        ensures
            styled_view(parts@) == self.spec_display(
                line_info,
                line_col_in(line_info.starts(), self.position).0,
                line_col_in(line_info.starts(), self.position).1,
            ),
    {
        let (line, col) = line_info.get_line_col(self.position);
        let line_text = match line_info.get_line_text(line) {
            Some(t) => string_from(t),
            None => string_from("<line not available>"),
        };
        let marker_len: usize = match self.token_length {
            Some(n) => if n >= 1 { n } else { 1 },
            None => 1,
        };
        let mut line_num = String::new();
        push_decimal(&mut line_num, line);
        proof {
            crate::text::lemma_decimal_len(line as nat);
        }
        let indent_width = chars_len(&line_num) + 1;

        let mut parts: Vec<StyledText> = Vec::new();
        push_part(&mut parts, TextStyle::Heading, string_from("error"));
        push_part(&mut parts, TextStyle::Plain, string_from(" "));
        push_part(&mut parts, TextStyle::Code, self.error_code.label());
        let mut s = string_from(": ");
        push_str(&mut s, self.error_code.description());
        push_str(&mut s, "\n  ");
        push_part(&mut parts, TextStyle::Plain, s);
        push_part(&mut parts, TextStyle::Frame, string_from("-->"));
        let mut s = string_from(" main:");
        push_decimal(&mut s, line);
        push_char(&mut s, ':');
        push_decimal(&mut s, col);
        push_char(&mut s, '\n');
        push_repeated(&mut s, ' ', indent_width);
        push_part(&mut parts, TextStyle::Plain, s);
        push_part(&mut parts, TextStyle::Frame, string_from("|"));
        push_part(&mut parts, TextStyle::Plain, string_from("\n"));
        push_part(&mut parts, TextStyle::LineNumber, line_num);
        push_part(&mut parts, TextStyle::Plain, string_from(" "));
        push_part(&mut parts, TextStyle::Frame, string_from("|"));
        let mut s = string_from(" ");
        push_str(&mut s, line_text.as_str());
        push_char(&mut s, '\n');
        push_repeated(&mut s, ' ', indent_width);
        push_part(&mut parts, TextStyle::Plain, s);
        push_part(&mut parts, TextStyle::Frame, string_from("|"));
        let mut s = string_from(" ");
        push_repeated(&mut s, ' ', if col >= 1 { col - 1 } else { 0 });
        push_part(&mut parts, TextStyle::Plain, s);
        let mut s = String::new();
        push_repeated(&mut s, '^', marker_len);
        push_part(&mut parts, TextStyle::Marker, s);
        push_part(&mut parts, TextStyle::Plain, string_from(" "));
        push_part(&mut parts, TextStyle::Message, string_from(self.message.as_str()));
        push_part(&mut parts, TextStyle::Plain, string_from("\n"));
        proof {
            reveal_strlit("error");
            reveal_strlit(" ");
            reveal_strlit(": ");
            reveal_strlit("\n  ");
            reveal_strlit("-->");
            reveal_strlit(" main:");
            reveal_strlit("|");
            reveal_strlit("\n");
            let v = styled_view(parts@);
            let sp = self.spec_display(line_info, line, col);
            assert(v.len() == sp.len());
            assert(v[0] == sp[0]);
            assert(v[1] == sp[1]);
            assert(v[2] == sp[2]);
            assert(v[3] == sp[3]);
            assert(v[4] == sp[4]);
            assert(v[5] == sp[5]);
            assert(v[6] == sp[6]);
            assert(v[7] == sp[7]);
            assert(v[8] == sp[8]);
            assert(v[9] == sp[9]);
            assert(v[10] == sp[10]);
            assert(v[11] == sp[11]);
            assert(v[12] == sp[12]);
            assert(v[13] == sp[13]);
            assert(v[14] == sp[14]);
            assert(v[15] == sp[15]);
            assert(v[16] == sp[16]);
            assert(v[17] == sp[17]);
            assert(styled_view(parts@) =~= self.spec_display(line_info, line, col));
        }
        parts
    }

    /// Formats the error for display: the concatenated texts of its styled
    /// pieces.
    pub fn format_for_display(&self, line_info: &LineInfo) -> (s: String)
        requires
            line_info.wf(),
            self.position < usize::MAX || line_info.starts().len() > 1,
        ensures
            s@ == concat_texts(
                self.spec_display(
                    line_info,
                    line_col_in(line_info.starts(), self.position).0,
                    line_col_in(line_info.starts(), self.position).1,
                ),
            ),
    {
        let parts = self.display_segments(line_info);
        let mut s = String::new();
        let mut i: usize = 0;
        while i < parts.len()
            invariant
                i <= parts@.len(),
                s@ == concat_texts(styled_view(parts@).take(i as int)),
            decreases parts@.len() - i,
        {
            push_str(&mut s, parts[i].text.as_str());
            proof {
                assert(styled_view(parts@).take(i + 1).drop_last() =~= styled_view(parts@).take(i as int));
            }
            i = i + 1;
        }
        assert(styled_view(parts@).take(parts@.len() as int) =~= styled_view(parts@));
        s
    }
}

/// The number of characters of `s`.
pub fn chars_len(s: &String) -> (n: usize)
    ensures
        n == s@.len(),
{
    s.as_str().unicode_len()
}

/// A list of compiler errors, in the order in which they were added.
pub struct ErrorCollector {
    errors: Vec<CompilerError>,
}

impl View for ErrorCollector {
    type V = Seq<CompilerError>;

    closed spec fn view(&self) -> Seq<CompilerError> {
        self.errors@
    }
}

impl ErrorCollector {
    /// Creates an empty collector.
    pub fn new() -> (c: ErrorCollector)
        ensures
            c@.len() == 0,
    {
        ErrorCollector { errors: Vec::new() }
    }

    /// Appends `error` to the collected errors.
    pub fn add_error(&mut self, error: CompilerError)
        ensures
            final(self)@ == old(self)@.push(error),
    {
        self.errors.push(error);
    }

    /// Whether any error has been collected.
    pub fn has_errors(&self) -> (b: bool)
        ensures
            b == (self@.len() > 0),
    {
        self.errors.len() > 0
    }

    /// The collected errors.
    pub fn errors(&self) -> (v: &Vec<CompilerError>)
        ensures
            v@ == self@,
    {
        &self.errors
    }

    /// Removes all collected errors.
    pub fn clear(&mut self)
        ensures
            final(self)@.len() == 0,
    {
        self.errors.clear();
    }

    /// Returns the collected errors and leaves the collector empty.
    pub fn take_errors(&mut self) -> (v: Vec<CompilerError>)
        ensures
            v@ == old(self)@,
            final(self)@.len() == 0,
    {
        let mut taken: Vec<CompilerError> = Vec::new();
        std::mem::swap(&mut taken, &mut self.errors);
        taken
    }
}

impl Default for ErrorCollector {
    fn default() -> (c: ErrorCollector)
        ensures
            c@.len() == 0,
    {
        ErrorCollector::new()
    }
}

} // verus!
