//! The source text as the scanner reads it: a list of lines and a position
//! in it that moves one character forward or back.

use vstd::prelude::*;

verus! {

/// The source as a mathematical value: the lines, every one with its line
/// end, and the row and column of the character that is read next.
pub struct SourceModel {
    pub lines: Seq<Seq<char>>,
    pub row: int,
    pub column: int,
}

/// The number of characters in the lines from the given row on.
pub open spec fn chars_from(lines: Seq<Seq<char>>, row: int) -> nat
    decreases lines.len() - row,
{
    if 0 <= row < lines.len() {
        lines[row].len() + chars_from(lines, row + 1)
    } else {
        0
    }
}

impl SourceModel {
    /// No line is empty, the lines and their number fit the machine, and the
    /// position is at a character or just behind the last line.
    pub open spec fn wf(self) -> bool {
        &&& forall|i: int|
            0 <= i < self.lines.len() ==> 0 < (#[trigger] self.lines[i]).len() <= usize::MAX
        &&& self.lines.len() <= usize::MAX
        &&& 0 <= self.row <= self.lines.len()
        &&& self.row < self.lines.len() ==> 0 <= self.column < self.lines[self.row].len()
        &&& self.row == self.lines.len() ==> self.column == 0
    }

    /// Whether everything was read.
    pub open spec fn at_end(self) -> bool {
        self.row >= self.lines.len()
    }

    /// The character that is read next; the null character at the end.
    pub open spec fn current(self) -> char {
        if self.at_end() {
            '\0'
        } else {
            self.lines[self.row][self.column]
        }
    }

    /// The source one character further on; unchanged at the end.
    pub open spec fn advance(self) -> SourceModel {
        if self.at_end() {
            self
        } else if self.column + 1 < self.lines[self.row].len() {
            SourceModel { column: self.column + 1, ..self }
        } else {
            SourceModel { row: self.row + 1, column: 0, ..self }
        }
    }

    /// The source one character back; unchanged at the start.
    pub open spec fn back(self) -> SourceModel {
        if self.row == 0 && self.column == 0 {
            self
        } else if self.column == 0 {
            SourceModel { row: self.row - 1, column: self.lines[self.row - 1].len() - 1, ..self }
        } else {
            SourceModel { column: self.column - 1, ..self }
        }
    }

    /// The number of characters still to be read.
    pub open spec fn remaining(self) -> int {
        chars_from(self.lines, self.row) - self.column
    }

    /// Reading a character leaves one less to read, and stepping back undoes
    /// it.
    pub proof fn lemma_advance(self)
        requires
            self.wf(),
            !self.at_end(),
        ensures
            self.advance().wf(),
            self.advance().remaining() == self.remaining() - 1,
            self.advance().back() == self,
            self.remaining() > 0,
    {
        assert(chars_from(self.lines, self.row) == self.lines[self.row].len() + chars_from(
            self.lines,
            self.row + 1,
        ));
        if self.column + 1 >= self.lines[self.row].len() {
            assert(self.lines[self.row + 1 - 1] == self.lines[self.row]);
        }
    }

    /// Stepping back keeps the source well-formed, and leaves one more
    /// character to read unless the position was at the start.
    pub proof fn lemma_back(self)
        requires
            self.wf(),
        ensures
            self.back().wf(),
            self.back().lines == self.lines,
            self.row == 0 && self.column == 0 ==> self.back() == self,
            !(self.row == 0 && self.column == 0) ==> self.back().remaining() == self.remaining()
                + 1,
    {
        if !(self.row == 0 && self.column == 0) && self.column == 0 {
            assert(chars_from(self.lines, self.row - 1) == self.lines[self.row - 1].len()
                + chars_from(self.lines, self.row - 1 + 1));
        }
    }

    /// The characters still to be read are fewer than the square of the
    /// largest machine number.
    pub proof fn lemma_bounded(self)
        requires
            self.wf(),
        ensures
            0 <= self.remaining() <= usize::MAX * usize::MAX,
    {
        lemma_chars_bounded(self.lines, self.row);
        assert((self.lines.len() - self.row) * usize::MAX <= usize::MAX * usize::MAX)
            by (nonlinear_arith)
            requires
                0 <= self.lines.len() - self.row <= usize::MAX,
        ;
    }

    /// At the end nothing is left to read.
    pub proof fn lemma_end(self)
        requires
            self.wf(),
            self.at_end(),
        ensures
            self.remaining() == 0,
    {
    }
}

proof fn lemma_chars_bounded(lines: Seq<Seq<char>>, row: int)
    requires
        0 <= row <= lines.len(),
        forall|i: int| 0 <= i < lines.len() ==> (#[trigger] lines[i]).len() <= usize::MAX,
    ensures
        chars_from(lines, row) <= (lines.len() - row) * usize::MAX,
    decreases lines.len() - row,
{
    if row < lines.len() {
        lemma_chars_bounded(lines, row + 1);
        assert((lines.len() - row) * usize::MAX == (lines.len() - (row + 1)) * usize::MAX
            + usize::MAX) by (nonlinear_arith);
    }
}

/// A line without the carriage return that may end it.
pub open spec fn strip_return(line: Seq<char>) -> Seq<char> {
    if line.len() > 0 && line.last() == '\r' {
        line.drop_last()
    } else {
        line
    }
}

/// The lines of the text from the index on, given the part of the current
/// line that was passed already. Lines end at a newline, with or without a
/// carriage return before it; a last line need not end. Every line comes
/// out with a newline at its end.
pub open spec fn lines_from(text: Seq<char>, from: int, line: Seq<char>) -> Seq<Seq<char>>
    decreases text.len() - from,
{
    if 0 <= from < text.len() {
        if text[from] == '\n' {
            seq![strip_return(line).push('\n')] + lines_from(text, from + 1, Seq::empty())
        } else {
            lines_from(text, from + 1, line.push(text[from]))
        }
    } else if line.len() > 0 {
        seq![line.push('\n')]
    } else {
        Seq::empty()
    }
}

/// The lines of a text.
pub open spec fn source_lines(text: Seq<char>) -> Seq<Seq<char>> {
    lines_from(text, 0, Seq::empty())
}

/// Every line of a text is non-empty.
pub proof fn lemma_lines_nonempty(text: Seq<char>, from: int, line: Seq<char>)
    ensures
        forall|i: int|
            0 <= i < lines_from(text, from, line).len() ==> (#[trigger] lines_from(
                text,
                from,
                line,
            )[i]).len() > 0,
    decreases text.len() - from,
{
    let all = lines_from(text, from, line);
    if 0 <= from < text.len() {
        if text[from] == '\n' {
            let rest = lines_from(text, from + 1, Seq::empty());
            lemma_lines_nonempty(text, from + 1, Seq::empty());
            assert forall|i: int| 0 <= i < all.len() implies (#[trigger] all[i]).len() > 0 by {
                if i > 0 {
                    assert(all[i] == rest[i - 1]);
                }
            }
        } else {
            lemma_lines_nonempty(text, from + 1, line.push(text[from]));
            assert(all == lines_from(text, from + 1, line.push(text[from])));
        }
    } else if line.len() > 0 {
        assert(all == seq![line.push('\n')]);
        assert(all[0].len() > 0);
    } else {
        assert(all.len() == 0);
    }
}

/// The characters of a string in order: `str::chars` of the standard
/// library, collected.
#[verifier::external_body]
fn characters(text: &str) -> (chars: Vec<char>)
    ensures
        chars@ == text@,
{
    text.chars().collect()
}

/// The views of a list of lines.
pub open spec fn lines_view(lines: Seq<Vec<char>>) -> Seq<Seq<char>> {
    Seq::new(lines.len(), |i: int| lines[i]@)
}

/// The source text and the position of the character that is read next.
pub struct Source {
    column: usize,
    row: usize,
    lines: Vec<Vec<char>>,
}

impl Source {
    pub closed spec fn view(&self) -> SourceModel {
        SourceModel {
            lines: lines_view(self.lines@),
            row: self.row as int,
            column: self.column as int,
        }
    }

    /// The source is in a state that its own operations produce.
    pub open spec fn wf(&self) -> bool {
        self@.wf()
    }

    fn move_index_over_line(&mut self)
        requires
            old(self).row < old(self).lines@.len(),
        ensures
            final(self).lines == old(self).lines,
            old(self).column >= old(self).lines@[old(self).row as int]@.len() ==> final(self).row
                == old(self).row + 1 && final(self).column == 0,
            old(self).column < old(self).lines@[old(self).row as int]@.len() ==> final(self).row
                == old(self).row && final(self).column == old(self).column,
    {
        let count = self.lines.len();
        if self.column >= self.lines[self.row].len() {
            self.row = self.row + 1;
            self.column = 0;
        }
    }

    /// Whether everything was read.
    pub fn end_of_file(&self) -> (at_end: bool)
        requires
            self.wf(),
        ensures
            at_end == self@.at_end(),
    {
        self.row >= self.lines.len() || (self.row + 1 == self.lines.len() && self.column
            == self.lines[self.row].len())
    }

    /// Reads the next character and moves past it. At the end the result is
    /// the null character and nothing moves.
    pub fn get_next_char(&mut self) -> (value: char)
        requires
            old(self).wf(),
        ensures
            final(self).wf(),
            value == old(self)@.current(),
            final(self)@ == old(self)@.advance(),
            final(self)@.lines == old(self)@.lines,
            old(self)@.at_end() ==> final(self)@ == old(self)@,
            !old(self)@.at_end() ==> final(self)@.remaining() == old(self)@.remaining() - 1,
            !old(self)@.at_end() ==> final(self)@.back() == old(self)@,
            final(self)@.remaining() >= 0,
    {
        proof {
            if self@.at_end() {
                self@.lemma_end();
            }
        }
        if self.end_of_file() {
            '\0'
        } else {
            proof {
                self@.lemma_advance();
            }
            assert(self@.lines[self.row as int] == self.lines@[self.row as int]@);
            let width = self.lines[self.row].len();
            let value = self.lines[self.row][self.column];
            self.column = self.column + 1;
            self.move_index_over_line();
            value
        }
    }

    /// The next character, without moving. At the end the result is the null
    /// character.
    pub fn peek(&self) -> (value: char)
        requires
            self.wf(),
        ensures
            value == self@.current(),
    {
        if self.end_of_file() {
            '\0'
        } else {
            if self.column < self.lines[self.row].len() {
                self.lines[self.row][self.column]
            } else if self.row + 1 < self.lines.len() {
                self.lines[self.row + 1][0]
            } else {
                '\0'
            }
        }
    }

    fn reverse_over_line(&mut self)
        requires
            old(self).wf(),
            old(self).row > 0,
            old(self).column == 0,
        ensures
            final(self).wf(),
            final(self)@ == old(self)@.back(),
    {
        proof {
            self@.lemma_back();
        }
        self.row = self.row - 1;
        self.column = self.lines[self.row].len() - 1;
    }

    /// Moves one character back. At the start nothing moves.
    pub fn reverse(&mut self)
        requires
            old(self).wf(),
        ensures
            final(self).wf(),
            final(self)@ == old(self)@.back(),
            final(self)@.lines == old(self)@.lines,
    {
        proof {
            self@.lemma_back();
        }
        if self.column == 0 && self.row == 0 {
            return ;
        } else if self.column == 0 {
            self.reverse_over_line()
        } else {
            self.column = self.column - 1;
        }
    }

    /// The row of the character that is read next, counted from zero.
    pub fn get_row(&self) -> (row: usize)
        ensures
            row == self@.row,
    {
        self.row
    }

    /// The column of the character that is read next, counted from zero.
    pub fn get_column(&self) -> (column: usize)
        ensures
            column == self@.column,
    {
        self.column
    }
}

/// Splits a text into lines and puts the position at its start.
pub fn create_source(text: String) -> (source: Source)
    ensures
        source.wf(),
        source@ == (SourceModel { lines: source_lines(text@), row: 0, column: 0 }),
{
    let chars = characters(text.as_str());
    let mut v: Vec<Vec<char>> = Vec::new();
    let mut lv: Vec<char> = Vec::new();
    let mut i: usize = 0;
    assert(lines_view(v@) =~= Seq::empty());
    assert(lines_view(v@) + lines_from(chars@, 0, lv@) =~= source_lines(text@));
    while i < chars.len()
        invariant
            i <= chars.len(),
            chars@ == text@,
            lines_view(v@) + lines_from(chars@, i as int, lv@) == source_lines(text@),
        decreases chars.len() - i,
    {
        let c = chars[i];
        let ghost before = v@;
        let ghost line = lv@;
        if c == '\n' {
            let n = lv.len();
            if n > 0 && lv[n - 1] == '\r' {
                lv.pop();
            }
            lv.push('\n');
            v.push(lv);
            lv = Vec::new();
            assert(lines_view(v@) =~= lines_view(before) + seq![strip_return(line).push('\n')]);
            assert(lines_view(v@) + lines_from(chars@, i + 1, lv@) =~= lines_view(before)
                + lines_from(chars@, i as int, line));
        } else {
            lv.push(c);
        }
        i = i + 1;
    }
    let ghost before = v@;
    let ghost line = lv@;
    if lv.len() > 0 {
        lv.push('\n');
        v.push(lv);
        assert(lines_view(v@) =~= lines_view(before) + lines_from(chars@, i as int, line));
    } else {
        assert(lines_view(v@) =~= lines_view(before) + lines_from(chars@, i as int, line));
    }
    let source = Source { column: 0, row: 0, lines: v };
    proof {
        lemma_lines_nonempty(text@, 0, Seq::empty());
        assert(source@.lines == source_lines(text@));
        assert(v.len() <= usize::MAX);
        assert(source@.lines.len() == v@.len());
        assert forall|i: int| 0 <= i < source@.lines.len() implies 0 < (
        #[trigger] source@.lines[i]).len() <= usize::MAX by {
            assert(source@.lines[i] == v@[i]@);
            assert(v@[i].len() <= usize::MAX);
            assert(source@.lines[i] == lines_from(text@, 0, Seq::empty())[i]);
        }
    }
    source
}

} // verus!
