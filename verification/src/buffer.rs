//! The line buffer: the document as an ordered sequence of lines, each an
//! ordered sequence of character cells. A well-formed document always holds
//! at least one line; an empty document is one empty line, never zero lines.

use vstd::prelude::*;
use crate::text::join_lines;
use crate::text::split_lines;

verus! {

/// Splitting line `row` at `col`: the prefix stays at `row`, the suffix
/// becomes a new line at `row + 1`.
pub open spec fn split_step(b: Seq<Seq<char>>, row: int, col: int) -> Seq<Seq<char>> {
    b.update(row, b[row].take(col)).insert(row + 1, b[row].skip(col))
}

/// Backward deletion at (`row`, `col`): removes the cell before `col`, or at
/// column 0 joins line `row` onto its predecessor, or does nothing at (0, 0).
pub open spec fn delete_step(b: Seq<Seq<char>>, row: int, col: int) -> Seq<Seq<char>> {
    if col > 0 {
        b.update(row, b[row].remove(col - 1))
    } else if row > 0 {
        b.update(row - 1, b[row - 1] + b[row]).remove(row)
    } else {
        b
    }
}

/// The document buffer. Viewed as a sequence of lines, each line a sequence
/// of character cells.
pub struct Buffer {
    /// The path the document is bound to, if any.
    pub file: Option<String>,
    /// The lines of the document, in visual order.
    pub lines: Vec<Vec<char>>,
}

impl View for Buffer {
    type V = Seq<Seq<char>>;

    open spec fn view(&self) -> Seq<Seq<char>> {
        self.lines@.map_values(|l: Vec<char>| l@)
    }
}

impl Buffer {
    /// Well-formedness: the document never has zero lines.
    pub open spec fn wf(self) -> bool {
        self@.len() >= 1
    }

    /// The width of line `row`, or 0 if `row` is out of range.
    pub open spec fn width(self, row: int) -> nat {
        if 0 <= row < self@.len() {
            self@[row].len()
        } else {
            0
        }
    }

    /// A new buffer: one empty line, no bound path.
    pub fn new() -> (r: Buffer)
        ensures
            r.wf(),
            r@ == seq![Seq::<char>::empty()],
            r.file is None,
    {
        let b = Buffer { file: None, lines: vec![Vec::new()] };
        proof {
            assert(b@ =~~= seq![Seq::<char>::empty()]);
        }
        b
    }

    /// Number of lines in the document.
    pub fn height(&self) -> (r: usize)
        ensures
            r == self@.len(),
    {
        self.lines.len()
    }

    /// Number of cells in line `row`; 0 when `row` is out of range.
    pub fn line_width(&self, row: usize) -> (r: usize)
        ensures
            r == self.width(row as int),
    {
        if row < self.lines.len() {
            self.lines[row].len()
        } else {
            0
        }
    }

    /// The cell at (`row`, `col`), or a blank placeholder when out of range.
    pub fn get(&self, row: usize, col: usize) -> (r: char)
        ensures
            r == (if row < self@.len() && col < self@[row as int].len() {
                self@[row as int][col as int]
            } else {
                ' '
            }),
    {
        if row < self.lines.len() {
            if col < self.lines[row].len() {
                return self.lines[row][col];
            }
        }
        ' '
    }

    /// Inserts cell `c` before position `col` in line `row`.
    pub fn insert(&mut self, c: char, row: usize, col: usize)
        requires
            row < old(self)@.len(),
            col <= old(self)@[row as int].len(),
        ensures
            final(self)@ == old(self)@.update(row as int, old(self)@[row as int].insert(col as int, c)),
            final(self).wf(),
            final(self).file == old(self).file,
    {
        let mut line = self.lines.remove(row);
        line.insert(col, c);
        self.lines.insert(row, line);
        proof {
            assert(self@ =~~= old(self)@.update(
                row as int,
                old(self)@[row as int].insert(col as int, c),
            ));
        }
    }

    /// Splits line `row` at `col`: the prefix stays at `row`, the suffix
    /// becomes a new line at `row + 1`. The height grows by one.
    pub fn insert_line(&mut self, row: usize, col: usize)
        requires
            row < old(self)@.len(),
            col <= old(self)@[row as int].len(),
        ensures
            final(self)@ == split_step(old(self)@, row as int, col as int),
            final(self)@.len() == old(self)@.len() + 1,
            final(self).wf(),
            final(self).file == old(self).file,
    {
        // Binds the height as a machine integer: `row + 1` below cannot overflow.
        let h = self.lines.len();
        assert(row < h);
        let mut line = self.lines.remove(row);
        let rest = line.split_off(col);
        self.lines.insert(row, line);
        self.lines.insert(row + 1, rest);
        proof {
            assert(self@ =~~= split_step(old(self)@, row as int, col as int));
        }
    }

    /// Backward deletion at (`row`, `col`): removes the cell before `col`
    /// when `col > 0`; at column 0 joins line `row` onto the end of line
    /// `row - 1` and removes it; at (0, 0) does nothing.
    pub fn delete(&mut self, row: usize, col: usize)
        requires
            row < old(self)@.len(),
            col <= old(self)@[row as int].len(),
        ensures
            final(self)@ == delete_step(old(self)@, row as int, col as int),
            final(self).wf(),
            final(self).file == old(self).file,
    {
        if col > 0 {
            let mut line = self.lines.remove(row);
            line.remove(col - 1);
            self.lines.insert(row, line);
            proof {
                assert(self@ =~~= delete_step(old(self)@, row as int, col as int));
            }
        } else if row > 0 {
            let mut line = self.lines.remove(row);
            let mut prev = self.lines.remove(row - 1);
            prev.append(&mut line);
            self.lines.insert(row - 1, prev);
            proof {
                assert(self@ =~~= delete_step(old(self)@, row as int, col as int));
            }
        }
    }

    /// Replaces the document with `text` split on newline cells and binds the
    /// buffer to `filename`. The result is never empty: an empty text loads
    /// as one empty line.
    pub fn load(&mut self, filename: Option<String>, text: &Vec<char>)
        ensures
            final(self)@ == split_lines(text@),
            final(self).wf(),
            final(self).file == filename,
    {
        let ghost whole = text@;
        let mut done: Vec<Vec<char>> = Vec::new();
        let mut cur: Vec<char> = Vec::new();
        let mut i: usize = 0;
        proof {
            assert(whole.take(0) =~= Seq::<char>::empty());
            assert(done@.map_values(|l: Vec<char>| l@).push(cur@) =~~= split_lines(whole.take(0)));
        }
        while i < text.len()
            invariant
                i <= text.len(),
                whole == text@,
                done@.map_values(|l: Vec<char>| l@).push(cur@) == split_lines(whole.take(i as int)),
            decreases text.len() - i,
        {
            proof {
                crate::text::lemma_split_lines_push(whole.take(i as int), whole[i as int]);
                assert(whole.take(i + 1) =~= whole.take(i as int).push(whole[i as int]));
                crate::text::lemma_split_lines_nonempty(whole.take(i as int));
            }
            let c = text[i];
            if c == '\n' {
                done.push(cur);
                cur = Vec::new();
            } else {
                cur.push(c);
            }
            i = i + 1;
            proof {
                assert(done@.map_values(|l: Vec<char>| l@).push(cur@) =~~= split_lines(
                    whole.take(i as int),
                ));
            }
        }
        done.push(cur);
        self.file = filename;
        self.lines = done;
        proof {
            assert(whole.take(whole.len() as int) =~= whole);
            assert(self@ =~~= split_lines(text@));
            crate::text::lemma_split_lines_nonempty(text@);
        }
    }

    /// Serializes the document: the lines joined with a newline between
    /// consecutive lines and no trailing terminator.
    pub fn serialize(&self) -> (r: Vec<char>)
        requires
            self.wf(),
        ensures
            r@ == join_lines(self@),
    {
        let mut out: Vec<char> = Vec::new();
        let mut row: usize = 0;
        proof {
            assert(self@.take(0) =~~= Seq::<Seq<char>>::empty());
        }
        while row < self.lines.len()
            invariant
                row <= self@.len(),
                self.wf(),
                out@ == join_lines(self@.take(row as int)),
            decreases self@.len() - row,
        {
            proof {
                assert(self@.take(row + 1) =~~= self@.take(row as int).push(self@[row as int]));
                if row > 0 {
                    crate::text::lemma_join_lines_push(self@.take(row as int), self@[row as int]);
                }
            }
            if row > 0 {
                out.push('\n');
            }
            let ghost base = out@;
            let mut col: usize = 0;
            while col < self.lines[row].len()
                invariant
                    row < self@.len(),
                    col <= self@[row as int].len(),
                    self.lines@.map_values(|l: Vec<char>| l@) == self@,
                    out@ == base + self@[row as int].take(col as int),
                decreases self@[row as int].len() - col,
            {
                let c = self.lines[row][col];
                out.push(c);
                col = col + 1;
                proof {
                    assert(base + self@[row as int].take(col as int) =~= out@);
                }
            }
            proof {
                assert(self@[row as int].take(self@[row as int].len() as int) =~= self@[row as int]);
            }
            row = row + 1;
        }
        proof {
            assert(self@.take(self@.len() as int) =~= self@);
        }
        out
    }
}

/// Split/join inverse law over the document: splitting a line and deleting
/// backward at the start of the new line reconstructs the original lines.
pub proof fn lemma_split_then_delete(b: Seq<Seq<char>>, row: int, col: int)
    requires
        0 <= row < b.len(),
        0 <= col <= b[row].len(),
    ensures
        delete_step(split_step(b, row, col), row + 1, 0) == b,
{
    assert(b[row].take(col) + b[row].skip(col) =~= b[row]);
    assert(delete_step(split_step(b, row, col), row + 1, 0) =~~= b);
}

} // verus!
