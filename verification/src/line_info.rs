//! Mapping offsets in the source to lines and columns.
//!
//! Lines begin at byte offsets of the UTF-8 encoding of the source, and a
//! column is one more than the distance in bytes from the start of its
//! line. The lexer counts its offsets in characters (Unicode scalar
//! values); for ASCII text the two agree.
use vstd::prelude::*;
use crate::text::chars_of;

verus! {

/// The number of bytes in the UTF-8 encoding of `c`.
pub open spec fn utf8_width(c: char) -> nat {
    if (c as u32) <= 0x7F {
        1
    } else if (c as u32) <= 0x7FF {
        2
    } else if (c as u32) <= 0xFFFF {
        3
    } else {
        4
    }
}

/// The number of bytes in the UTF-8 encoding of `s`.
pub open spec fn byte_len(s: Seq<char>) -> nat
    decreases s.len(),
{
    if s.len() == 0 {
        0
    } else {
        byte_len(s.drop_last()) + utf8_width(s.last())
    }
}

/// The byte length of two texts one after the other is the sum of theirs.
pub proof fn lemma_byte_len_concat(a: Seq<char>, b: Seq<char>)
    ensures
        byte_len(a + b) == byte_len(a) + byte_len(b),
    decreases b.len(),
{
    if b.len() == 0 {
        assert(a + b =~= a);
    } else {
        assert((a + b).drop_last() =~= a + b.drop_last());
        assert((a + b).last() == b.last());
        lemma_byte_len_concat(a, b.drop_last());
    }
}

/// A text has at least as many bytes as characters.
pub proof fn lemma_byte_len_at_least_len(s: Seq<char>)
    ensures
        byte_len(s) >= s.len(),
    decreases s.len(),
{
    if s.len() > 0 {
        lemma_byte_len_at_least_len(s.drop_last());
    }
}

/// The bytes before character `c` of `s` are those before character `a`
/// and those from `a` to `c`; with more characters, more bytes.
pub proof fn lemma_byte_len_take_split(s: Seq<char>, a: int, c: int)
    requires
        0 <= a <= c <= s.len(),
    ensures
        byte_len(s.take(c)) == byte_len(s.take(a)) + byte_len(s.subrange(a, c)),
        a < c ==> byte_len(s.take(a)) < byte_len(s.take(c)),
{
    assert(s.take(c) =~= s.take(a) + s.subrange(a, c));
    lemma_byte_len_concat(s.take(a), s.subrange(a, c));
    lemma_byte_len_at_least_len(s.subrange(a, c));
}

/// `byte_len` counts the bytes of the UTF-8 encoding.
pub proof fn lemma_byte_len_encoded(s: Seq<char>)
    ensures
        vstd::utf8::encode_utf8(s).len() == byte_len(s),
    decreases s.len(),
{
    if s.len() > 0 {
        assert(s =~= seq![s[0]] + s.drop_first());
        lemma_byte_len_concat(seq![s[0]], s.drop_first());
        assert(seq![s[0]].drop_last() =~= Seq::<char>::empty());
        vstd::utf8::char_is_scalar(s[0]);
        lemma_byte_len_encoded(s.drop_first());
        let v = s[0] as u32;
        assert(byte_len(Seq::<char>::empty()) == 0);
        assert(byte_len(seq![s[0]]) == utf8_width(s[0]));
        assert(vstd::utf8::encode_scalar(v).len() == utf8_width(s[0]));
        assert(vstd::utf8::encode_utf8(s) == vstd::utf8::encode_scalar(v) + vstd::utf8::encode_utf8(s.drop_first()));
    }
}

/// Returns the number of bytes in the UTF-8 encoding of `c`.
fn utf8_width_of(c: char) -> (w: usize)
    ensures
        w == utf8_width(c),
{
    let v = c as u32;
    if v <= 0x7F {
        1
    } else if v <= 0x7FF {
        2
    } else if v <= 0xFFFF {
        3
    } else {
        4
    }
}

/// The character offsets at which lines begin in the first `n` characters
/// of `s`: offset 0, and the offset after every newline.
pub open spec fn char_starts_upto(s: Seq<char>, n: nat) -> Seq<usize>
    decreases n,
{
    if n == 0 {
        seq![0usize]
    } else {
        let prev = char_starts_upto(s, (n - 1) as nat);
        if s[n - 1] == '\n' {
            prev.push(n as usize)
        } else {
            prev
        }
    }
}

/// The character offsets at which the lines of `s` begin.
pub open spec fn char_starts_of(s: Seq<char>) -> Seq<usize> {
    char_starts_upto(s, s.len())
}

/// The byte offsets at which lines begin in the first `n` characters of
/// `s`: offset 0, and the byte offset after every newline.
pub open spec fn line_starts_upto(s: Seq<char>, n: nat) -> Seq<usize>
    decreases n,
{
    if n == 0 {
        seq![0usize]
    } else {
        let prev = line_starts_upto(s, (n - 1) as nat);
        if s[n - 1] == '\n' {
            prev.push(byte_len(s.take(n as int)) as usize)
        } else {
            prev
        }
    }
}

/// The byte offsets at which the lines of `s` begin.
pub open spec fn line_starts_of(s: Seq<char>) -> Seq<usize> {
    line_starts_upto(s, s.len())
}

/// Each byte line start is the byte offset of the character line start of
/// the same line.
pub proof fn lemma_starts_correspond(s: Seq<char>, n: nat)
    requires
        n <= s.len(),
        byte_len(s) <= usize::MAX,
    ensures
        line_starts_upto(s, n).len() == char_starts_upto(s, n).len(),
        forall|j: int| 0 <= j < line_starts_upto(s, n).len() ==> #[trigger] line_starts_upto(s, n)[j] as int == byte_len(
            s.take(char_starts_upto(s, n)[j] as int),
        ),
    decreases n,
{
    if n == 0 {
        assert(s.take(0) =~= Seq::<char>::empty());
    } else {
        lemma_starts_correspond(s, (n - 1) as nat);
        lemma_byte_len_at_least_len(s);
        lemma_byte_len_take_split(s, n as int, s.len() as int);
        assert(s.take(s.len() as int) =~= s);
        let prev = line_starts_upto(s, (n - 1) as nat);
        let cur = line_starts_upto(s, n);
        let cprev = char_starts_upto(s, (n - 1) as nat);
        let ccur = char_starts_upto(s, n);
        assert forall|j: int| 0 <= j < cur.len() implies #[trigger] cur[j] as int == byte_len(s.take(ccur[j] as int)) by {
            if s[n - 1] == '\n' {
                assert(cur == prev.push(byte_len(s.take(n as int)) as usize));
                assert(ccur == cprev.push(n as usize));
                if j < prev.len() {
                    assert(cur[j] == prev[j]);
                    assert(ccur[j] == cprev[j]);
                } else {
                    assert(cur[j] as int == byte_len(s.take(n as int)));
                }
            } else {
                assert(cur == prev);
                assert(ccur == cprev);
            }
        }
    }
}

/// Character line starts are well ordered: they begin at 0, increase
/// strictly and never exceed the number of characters read.
pub proof fn lemma_char_starts_ordered(s: Seq<char>, n: nat)
    requires
        n <= s.len(),
        s.len() <= usize::MAX,
    ensures
        well_ordered_starts(char_starts_upto(s, n), n),
    decreases n,
{
    if n > 0 {
        lemma_char_starts_ordered(s, (n - 1) as nat);
    }
}

/// `starts` begins with 0, increases strictly and stays within `bound`.
pub open spec fn well_ordered_starts(starts: Seq<usize>, bound: nat) -> bool {
    &&& starts.len() >= 1
    &&& starts[0] == 0
    &&& forall|i: int, j: int| 0 <= i < j < starts.len() ==> starts[i] < starts[j]
    &&& forall|i: int| 0 <= i < starts.len() ==> starts[i] <= bound
}

/// Byte line starts are well ordered: they begin at 0, increase strictly
/// and never exceed the number of bytes read.
pub proof fn lemma_line_starts_ordered(s: Seq<char>, n: nat)
    requires
        n <= s.len(),
        byte_len(s) <= usize::MAX,
    ensures
        well_ordered_starts(line_starts_upto(s, n), byte_len(s.take(n as int))),
    decreases n,
{
    if n == 0 {
        assert(s.take(0) =~= Seq::<char>::empty());
    } else {
        lemma_line_starts_ordered(s, (n - 1) as nat);
        lemma_byte_len_take_split(s, n - 1, n as int);
        lemma_byte_len_take_split(s, n as int, s.len() as int);
        assert(s.take(s.len() as int) =~= s);
    }
}

/// `r` is the line (counted from 1) and column (counted from 1) of offset
/// `pos`, for lines that begin at `starts`: the line is the number of line
/// starts at or before `pos`, the column is one more than the distance from
/// that line's start.
pub open spec fn starts_line_col(starts: Seq<usize>, pos: usize, r: (usize, usize)) -> bool {
    &&& 1 <= r.0 <= starts.len()
    &&& starts[r.0 - 1] <= pos
    &&& (r.0 == starts.len() || pos < starts[r.0 as int])
    &&& r.1 == pos - starts[r.0 - 1] + 1
}

/// The line and column of offset `pos`, for lines that begin at `starts`.
pub open spec fn line_col_in(starts: Seq<usize>, pos: usize) -> (usize, usize) {
    choose|r: (usize, usize)| starts_line_col(starts, pos, r)
}

/// For strictly increasing line starts, the line and column of an offset
/// are unique.
pub proof fn lemma_line_col_unique(starts: Seq<usize>, pos: usize, r: (usize, usize))
    requires
        forall|i: int, j: int| 0 <= i < j < starts.len() ==> starts[i] < starts[j],
        starts_line_col(starts, pos, r),
    ensures
        line_col_in(starts, pos) == r,
{
    let q = line_col_in(starts, pos);
    assert(starts_line_col(starts, pos, q));
    if q.0 < r.0 {
        assert(starts[q.0 as int] <= starts[r.0 - 1]);
    } else if q.0 > r.0 {
        assert(starts[r.0 as int] <= starts[q.0 - 1]);
    }
}

/// The text of line `line` (counted from 1) of `src`, whose lines begin at
/// `starts`, without its newline; `None` for line 0 and lines beyond the
/// last.
pub open spec fn line_text_in(starts: Seq<usize>, src: Seq<char>, line: usize) -> Option<Seq<char>> {
    if line == 0 || line > starts.len() {
        None
    } else {
        let start = starts[line - 1] as int;
        let end = if line < starts.len() { starts[line as int] as int } else { src.len() as int };
        let actual_end = if start < end && end > 0 && src[end - 1] == '\n' { end - 1 } else { end };
        Some(src.subrange(start, actual_end))
    }
}

/// Every line start after the first follows a newline, and every newline
/// is followed by a line start.
proof fn lemma_starts_follow_newlines(s: Seq<char>, n: nat)
    requires
        n <= s.len(),
        s.len() <= usize::MAX,
    ensures
        forall|j: int| 0 < j < char_starts_upto(s, n).len() ==> 1 <= #[trigger] char_starts_upto(s, n)[j] <= n && s[char_starts_upto(s, n)[j] - 1] == '\n',
        forall|i: int| 0 <= i < n && #[trigger] s[i] == '\n' ==> exists|j: int| 0 < j < char_starts_upto(s, n).len() && char_starts_upto(s, n)[j] == i + 1,
    decreases n,
{
    if n > 0 {
        lemma_starts_follow_newlines(s, (n - 1) as nat);
        lemma_char_starts_ordered(s, (n - 1) as nat);
        let prev = char_starts_upto(s, (n - 1) as nat);
        let cur = char_starts_upto(s, n);
        assert forall|i: int| 0 <= i < n && #[trigger] s[i] == '\n' implies exists|j: int| 0 < j < cur.len() && cur[j] == i + 1 by {
            if i < n - 1 {
                assert(s[i] == '\n');
                let j = choose|j: int| 0 < j < prev.len() && prev[j] == i + 1;
                assert(prev.len() <= cur.len());
                assert(cur[j] == prev[j]);
                assert(0 < j < cur.len() && cur[j] == i + 1);
            } else {
                assert(cur == prev.push(n as usize));
                let j = cur.len() - 1;
                assert(0 < j < cur.len() && cur[j] == i + 1);
            }
        }
    }
}

/// In strictly increasing starts from 0, the `j`-th start is at least `j`.
proof fn lemma_start_at_least_index(starts: Seq<usize>, j: int)
    requires
        well_ordered_starts(starts, starts[starts.len() - 1] as nat),
        0 <= j < starts.len(),
    ensures
        starts[j] >= j,
    decreases j,
{
    if j > 0 {
        lemma_start_at_least_index(starts, j - 1);
        assert(starts[j - 1] < starts[j]);
    }
}

/// The line of `pos`: a start at or before `pos` from the `m`-th on, which
/// is the last start or is followed by one after `pos`.
proof fn lemma_find_line(starts: Seq<usize>, pos: usize, m: int) -> (k: int)
    requires
        1 <= m <= starts.len(),
        starts[m - 1] <= pos,
        forall|i: int, j: int| 0 <= i < j < starts.len() ==> starts[i] < starts[j],
    ensures
        m <= k <= starts.len(),
        starts[k - 1] <= pos,
        k == starts.len() || pos < starts[k],
    decreases starts.len() - m,
{
    if m == starts.len() || pos < starts[m] {
        m
    } else {
        lemma_find_line(starts, pos, m + 1)
    }
}

/// The line of character `i` among the character line starts, and the
/// text of that line holds the character at its distance from the start.
proof fn lemma_char_line_of(s: Seq<char>, i: int) -> (k: int)
    requires
        s.len() <= usize::MAX,
        0 <= i < s.len(),
        s[i] != '\n',
    ensures
        1 <= k <= char_starts_of(s).len(),
        char_starts_of(s)[k - 1] <= i,
        k == char_starts_of(s).len() || i < char_starts_of(s)[k],
        line_text_in(char_starts_of(s), s, k as usize) is Some,
        i - char_starts_of(s)[k - 1] < line_text_in(char_starts_of(s), s, k as usize)->0.len(),
        line_text_in(char_starts_of(s), s, k as usize)->0[i - char_starts_of(s)[k - 1]] == s[i],
{
    let cstarts = char_starts_of(s);
    lemma_char_starts_ordered(s, s.len());
    lemma_starts_follow_newlines(s, s.len());
    let k = lemma_find_line(cstarts, i as usize, 1);
    lemma_start_at_least_index(cstarts, k - 1);
    let end = if k < cstarts.len() { cstarts[k] as int } else { s.len() as int };
    if k < cstarts.len() {
        assert(s[cstarts[k] - 1] == '\n');
    }
    assert(i < end - 1 || s[end - 1] != '\n');
    k
}

/// The byte line and column of the byte offset of character `i`, given
/// the character line `k` that holds it.
proof fn lemma_byte_line_of(s: Seq<char>, i: int, k: int)
    requires
        byte_len(s) <= usize::MAX,
        0 <= i < s.len(),
        1 <= k <= char_starts_of(s).len(),
        char_starts_of(s)[k - 1] <= i,
        k == char_starts_of(s).len() || i < char_starts_of(s)[k],
    ensures
        k <= usize::MAX,
        byte_len(s.subrange(char_starts_of(s)[k - 1] as int, i)) + 1 <= usize::MAX,
        line_col_in(line_starts_of(s), byte_len(s.take(i)) as usize) == (
            k as usize,
            (byte_len(s.subrange(char_starts_of(s)[k - 1] as int, i)) + 1) as usize,
        ),
{
    let cstarts = char_starts_of(s);
    let bstarts = line_starts_of(s);
    lemma_byte_len_at_least_len(s);
    lemma_char_starts_ordered(s, s.len());
    lemma_start_at_least_index(cstarts, k - 1);
    lemma_line_starts_ordered(s, s.len());
    lemma_starts_correspond(s, s.len());
    let cs = cstarts[k - 1] as int;
    lemma_byte_len_take_split(s, cs, i);
    lemma_byte_len_take_split(s, i, s.len() as int);
    assert(s.take(s.len() as int) =~= s);
    let b = byte_len(s.take(i)) as usize;
    assert(bstarts[k - 1] as int == byte_len(s.take(cs)));
    if k < cstarts.len() {
        lemma_byte_len_take_split(s, i, cstarts[k] as int);
        assert(bstarts[k as int] as int == byte_len(s.take(cstarts[k] as int)));
    }
    let r = (k as usize, (byte_len(s.subrange(cs, i)) + 1) as usize);
    assert(starts_line_col(bstarts, b, r));
    lemma_line_col_unique(bstarts, b, r);
}

/// The line text at the line of a character that is not a newline holds
/// that character, and the column of the character's byte offset is one
/// more than the number of bytes before it on its line.
pub proof fn lemma_line_text_round_trip(s: Seq<char>, i: int)
    requires
        byte_len(s) <= usize::MAX,
        0 <= i < s.len(),
        s[i] != '\n',
    ensures
        ({
            let b = byte_len(s.take(i)) as usize;
            let r = line_col_in(line_starts_of(s), b);
            let cs = char_starts_of(s)[r.0 - 1] as int;
            &&& 1 <= r.0 <= char_starts_of(s).len()
            &&& line_text_in(char_starts_of(s), s, r.0) is Some
            &&& cs <= i
            &&& r.1 - 1 == byte_len(s.subrange(cs, i))
            &&& i - cs < line_text_in(char_starts_of(s), s, r.0)->0.len()
            &&& line_text_in(char_starts_of(s), s, r.0)->0[i - cs] == s[i]
        }),
{
    lemma_byte_len_at_least_len(s);
    let k = lemma_char_line_of(s, i);
    lemma_byte_line_of(s, i, k);
    let r = line_col_in(line_starts_of(s), byte_len(s.take(i)) as usize);
    assert(r.0 == k);
    assert(r.1 - 1 == byte_len(s.subrange(char_starts_of(s)[k - 1] as int, i)));
}

/// No line text holds a newline.
pub proof fn lemma_line_text_has_no_newline(s: Seq<char>, line: usize)
    requires
        s.len() <= usize::MAX,
        line_text_in(char_starts_of(s), s, line) is Some,
    ensures
        forall|i: int| 0 <= i < line_text_in(char_starts_of(s), s, line)->0.len() ==> #[trigger] line_text_in(char_starts_of(s), s, line)->0[i] != '\n',
{
    let starts = char_starts_of(s);
    lemma_char_starts_ordered(s, s.len());
    lemma_starts_follow_newlines(s, s.len());
    let t = line_text_in(starts, s, line)->0;
    let start = starts[line - 1] as int;
    let end = if line < starts.len() { starts[line as int] as int } else { s.len() as int };
    if line < starts.len() {
        assert(s[starts[line as int] - 1] == '\n');
    }
    assert forall|i: int| 0 <= i < t.len() implies #[trigger] t[i] != '\n' by {
        let p = start + i;
        assert(t[i] == s[p]);
        if s[p] == '\n' {
            let j = choose|j: int| 0 < j < starts.len() && starts[j] == p + 1;
            if j < line {
                assert(starts[j] <= starts[line - 1]);
            } else {
                assert(starts[line as int] <= starts[j]);
            }
        }
    }
}

/// Line information for a source text.
pub struct LineInfo<'a> {
    /// Number of tokens on each line, as (line number, tokens on that line),
    /// for the lines that hold tokens.
    pub per_line: Vec<(u16, u16)>,
    /// The source text.
    source: &'a str,
    /// The byte offset at which each line begins.
    pub line_starts: Vec<usize>,
    /// The character offset at which each line begins.
    char_starts: Vec<usize>,
}

impl<'a> LineInfo<'a> {
    /// The source text this line information describes.
    pub closed spec fn source_text(&self) -> Seq<char> {
        self.source@
    }

    /// The byte offsets at which the lines begin.
    pub closed spec fn starts(&self) -> Seq<usize> {
        self.line_starts@
    }

    /// The character offsets at which the lines begin.
    pub closed spec fn char_starts(&self) -> Seq<usize> {
        self.char_starts@
    }

    /// The token counts recorded per line.
    pub closed spec fn line_counts(&self) -> Seq<(u16, u16)> {
        self.per_line@
    }

    /// The line starts are those of the source text, in bytes and in
    /// characters, and its encoding fits in `usize`.
    pub open spec fn wf(&self) -> bool {
        &&& self.starts() == line_starts_of(self.source_text())
        &&& self.char_starts() == char_starts_of(self.source_text())
        &&& byte_len(self.source_text()) <= usize::MAX
    }

    /// The line (counted from 1) and column (counted from 1) of offset `pos`:
    /// the line is the number of line starts at or before `pos`, the column
    /// is one more than the distance from that line's start.
    pub open spec fn spec_line_col(&self, pos: usize, r: (usize, usize)) -> bool {
        starts_line_col(self.starts(), pos, r)
    }

    /// The text of line `line` (counted from 1) without its newline, or
    /// `None` for line 0 and lines beyond the last.
    pub open spec fn spec_line_text(&self, line: usize) -> Option<Seq<char>> {
        line_text_in(self.char_starts(), self.source_text(), line)
    }

    /// Computes the line starts of `source`, as byte offsets: 0, and the
    /// offset after each newline.
    pub fn new(source: &'a str) -> (info: LineInfo<'a>)
        ensures
            info.wf(),
            info.source_text() == source@,
            info.line_counts().len() == 0,
    {
        let chars = chars_of(source);
        let total = source.as_bytes().len();
        proof {
            lemma_byte_len_encoded(source@);
        }
        let mut line_starts: Vec<usize> = Vec::new();
        let mut char_starts: Vec<usize> = Vec::new();
        line_starts.push(0);
        char_starts.push(0);
        let mut byte: usize = 0;
        let mut i: usize = 0;
        assert(source@.take(0) =~= Seq::<char>::empty());
        while i < chars.len()
            invariant
                i <= chars@.len(),
                chars@ == source@,
                byte_len(source@) <= usize::MAX,
                byte as int == byte_len(source@.take(i as int)),
                line_starts@ == line_starts_upto(source@, i as nat),
                char_starts@ == char_starts_upto(source@, i as nat),
            decreases chars@.len() - i,
        {
            let w = utf8_width_of(chars[i]);
            proof {
                lemma_byte_len_take_split(source@, (i + 1) as int, source@.len() as int);
                assert(source@.take(source@.len() as int) =~= source@);
                assert(source@.take(i + 1).drop_last() =~= source@.take(i as int));
            }
            byte = byte + w;
            if chars[i] == '\n' {
                line_starts.push(byte);
                char_starts.push(i + 1);
            }
            i = i + 1;
        }
        LineInfo { per_line: Vec::new(), source, line_starts, char_starts }
    }

    /// Records the number of tokens on each line.
    pub fn set_line_counts(&mut self, counts: Vec<(u16, u16)>)
        ensures
            final(self).line_counts() == counts@,
            final(self).starts() == old(self).starts(),
            final(self).char_starts() == old(self).char_starts(),
            final(self).source_text() == old(self).source_text(),
    {
        self.per_line = counts;
    }

    /// Returns the line and column of offset `pos`.
    pub fn get_line_col(&self, pos: usize) -> (r: (usize, usize))
        requires
            self.wf(),
            pos < usize::MAX || self.starts().len() > 1,
        ensures
            self.spec_line_col(pos, r),
            r == line_col_in(self.starts(), pos),
    {
        proof {
            lemma_line_starts_ordered(self.source_text(), self.source_text().len());
            assert(self.source_text().take(self.source_text().len() as int) =~= self.source_text());
        }
        let starts = &self.line_starts;
        let mut lo: usize = 0;
        let mut hi: usize = starts.len();
        while lo < hi
            invariant
                0 <= lo <= hi <= starts@.len(),
                starts@ == self.starts(),
                well_ordered_starts(starts@, byte_len(self.source_text())),
                forall|i: int| 0 <= i < lo ==> starts@[i] <= pos,
                forall|i: int| hi <= i < starts@.len() ==> starts@[i] > pos,
            decreases hi - lo,
        {
            let mid = lo + (hi - lo) / 2;
            if starts[mid] <= pos {
                lo = mid + 1;
            } else {
                hi = mid;
            }
        }
        let line = lo;
        let start = starts[line - 1];
        proof {
            if pos == usize::MAX {
                assert(starts@[starts@.len() - 1] > 0);
            }
        }
        let r = (line, pos - start + 1);
        proof {
            lemma_line_col_unique(starts@, pos, r);
        }
        r
    }

    /// Returns the text of line `line` (counted from 1), without its newline.
    pub fn get_line_text(&self, line: usize) -> (r: Option<&str>)
        requires
            self.wf(),
        ensures
            match r {
                Some(t) => self.spec_line_text(line) == Some(t@),
                None => self.spec_line_text(line) is None,
            },
    {
        proof {
            lemma_byte_len_at_least_len(self.source_text());
            lemma_char_starts_ordered(self.source_text(), self.source_text().len());
        }
        if line == 0 || line > self.char_starts.len() {
            return None;
        }
        let start = self.char_starts[line - 1];
        let end = if line < self.char_starts.len() {
            self.char_starts[line]
        } else {
            self.source.unicode_len()
        };
        let actual_end = if start < end && end > 0 && self.source.get_char(end - 1) == '\n' {
            end - 1
        } else {
            end
        };
        Some(self.source.substring_char(start, actual_end))
    }
}

} // verus!
