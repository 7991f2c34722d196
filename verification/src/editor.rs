//! The editor: cursor and viewport state, the scroll-offset computation, and
//! the modal input state machine over plain key events.

use vstd::prelude::*;
use crate::buffer::Buffer;
use crate::buffer::delete_step;
use crate::buffer::split_step;

verus! {

/// The active input-interpretation state.
#[derive(Clone, Copy, Debug, PartialEq, Eq, Structural)]
pub enum Mode {
    Normal,
    Insert,
}

/// A plain key event, already decoded from the terminal.
#[derive(Clone, Copy, Debug)]
pub enum Key {
    Up,
    Down,
    Left,
    Right,
    Enter,
    Backspace,
    Esc,
    Char(char),
    Other,
}

/// What the caller of the event loop must do after a keystroke is handled.
#[derive(Clone, Copy, Debug, PartialEq, Eq, Structural)]
pub enum Action {
    /// Keep running; nothing to do outside.
    Continue,
    /// Terminate the main loop.
    Quit,
    /// Write the serialized document to the bound path.
    Save,
    /// A save was requested but no path is bound: an I/O error to report.
    SaveNoPath,
}

/// The abstract editor state the input state machine is specified over.
#[verifier::ext_equal]
pub ghost struct EdState {
    pub mode: Mode,
    pub row: int,
    pub col: int,
    pub lines: Seq<Seq<char>>,
    pub bound: bool,
}

/// One step of the state machine in Normal mode (given a press event).
pub open spec fn step_normal(s: EdState, key: Key) -> EdState {
    match key {
        Key::Up => if s.row > 0 {
            let r = s.row - 1;
            EdState {
                row: r,
                col: if s.col > s.lines[r].len() { s.lines[r].len() as int } else { s.col },
                ..s
            }
        } else {
            s
        },
        Key::Down => if s.row < s.lines.len() - 1 {
            let r = s.row + 1;
            EdState {
                row: r,
                col: if s.col > s.lines[r].len() { s.lines[r].len() as int } else { s.col },
                ..s
            }
        } else {
            s
        },
        Key::Left => if s.col > 0 {
            EdState { col: s.col - 1, ..s }
        } else if s.row > 0 {
            EdState { row: s.row - 1, col: s.lines[s.row - 1].len() as int, ..s }
        } else {
            s
        },
        Key::Right => if s.col < s.lines[s.row].len() {
            EdState { col: s.col + 1, ..s }
        } else if s.row < s.lines.len() - 1 {
            EdState { row: s.row + 1, col: 0, ..s }
        } else {
            s
        },
        Key::Char(c) => if c == 'i' {
            EdState { mode: Mode::Insert, ..s }
        } else {
            s
        },
        _ => s,
    }
}

/// One step of the state machine in Insert mode (given a press event).
pub open spec fn step_insert(s: EdState, key: Key) -> EdState {
    match key {
        Key::Esc => EdState { mode: Mode::Normal, ..s },
        Key::Char(c) => EdState {
            lines: s.lines.update(s.row, s.lines[s.row].insert(s.col, c)),
            col: s.col + 1,
            ..s
        },
        Key::Enter => EdState { lines: split_step(s.lines, s.row, s.col), row: s.row + 1, col: 0, ..s },
        Key::Backspace => if s.col > 0 {
            EdState { lines: delete_step(s.lines, s.row, s.col), col: s.col - 1, ..s }
        } else if s.row > 0 {
            EdState {
                lines: delete_step(s.lines, s.row, s.col),
                row: s.row - 1,
                col: s.lines[s.row - 1].len() as int,
                ..s
            }
        } else {
            s
        },
        _ => s,
    }
}

/// One step of the state machine: non-press events are ignored.
pub open spec fn step(s: EdState, key: Key, press: bool) -> EdState {
    if !press {
        s
    } else {
        match s.mode {
            Mode::Normal => step_normal(s, key),
            Mode::Insert => step_insert(s, key),
        }
    }
}

/// The action a keystroke asks of the surrounding loop. Only Normal mode
/// issues actions: `q` quits, `s` saves (an error when no path is bound).
pub open spec fn step_action(s: EdState, key: Key, press: bool) -> Action {
    if !press {
        Action::Continue
    } else {
        match s.mode {
            Mode::Normal => match key {
                Key::Char(c) => if c == 'q' {
                    Action::Quit
                } else if c == 's' {
                    if s.bound {
                        Action::Save
                    } else {
                        Action::SaveNoPath
                    }
                } else {
                    Action::Continue
                },
                _ => Action::Continue,
            },
            Mode::Insert => Action::Continue,
        }
    }
}

/// The scroll-offset rule for one axis: snap the offset to the cursor when
/// the cursor is before the window, or so the cursor lands on the window's
/// last cell when it is past the window; otherwise leave it alone.
pub open spec fn scroll_off(off: int, cur: int, size: int) -> int {
    let near = if cur < off {
        cur
    } else {
        off
    };
    if cur >= near + size {
        cur - size + 1
    } else {
        near
    }
}

/// The editor state: mode, viewport size, scroll offsets, cursor, document.
pub struct Editor {
    pub mode: Mode,
    /// Visible rows of the viewport.
    pub rows: usize,
    /// Visible columns of the viewport.
    pub cols: usize,
    pub row_off: usize,
    pub col_off: usize,
    pub current_row: usize,
    pub current_col: usize,
    pub buffer: Buffer,
}

impl Editor {
    /// Well-formedness: the document holds at least one line, the cursor row
    /// is a valid line, and the cursor column never exceeds that line's width.
    pub open spec fn wf(self) -> bool {
        &&& self.buffer.wf()
        &&& self.current_row < self.buffer@.len()
        &&& self.current_col <= self.buffer@[self.current_row as int].len()
    }

    /// The abstract state the input state machine is specified over.
    pub open spec fn abs(self) -> EdState {
        EdState {
            mode: self.mode,
            row: self.current_row as int,
            col: self.current_col as int,
            lines: self.buffer@,
            bound: self.buffer.file is Some,
        }
    }

    /// A fresh editor over `buffer`: Normal mode, cursor at the origin, no
    /// scroll, with the given viewport size.
    pub fn new(buffer: Buffer, rows: usize, cols: usize) -> (r: Editor)
        requires
            buffer.wf(),
        ensures
            r.wf(),
            r.mode == Mode::Normal,
            r.rows == rows,
            r.cols == cols,
            r.row_off == 0,
            r.col_off == 0,
            r.current_row == 0,
            r.current_col == 0,
            r.buffer == buffer,
    {
        Editor {
            mode: Mode::Normal,
            rows,
            cols,
            row_off: 0,
            col_off: 0,
            current_row: 0,
            current_col: 0,
            buffer,
        }
    }

    /// Dispatches one key event to the mapping of the active mode. Non-press
    /// events are ignored. Returns what the surrounding loop must do.
    pub fn handle_event(&mut self, key: Key, press: bool) -> (r: Action)
        requires
            old(self).wf(),
        ensures
            final(self).wf(),
            final(self).abs() == step(old(self).abs(), key, press),
            r == step_action(old(self).abs(), key, press),
            final(self).rows == old(self).rows,
            final(self).cols == old(self).cols,
            final(self).row_off == old(self).row_off,
            final(self).col_off == old(self).col_off,
            final(self).buffer.file == old(self).buffer.file,
    {
        if !press {
            return Action::Continue;
        }
        match self.mode {
            Mode::Normal => self.handle_normal_event(key),
            Mode::Insert => self.handle_insert_event(key),
        }
    }

    /// Normal mode: cursor movement with clamping and line wrapping, and the
    /// mode-switch, save and quit commands.
    fn handle_normal_event(&mut self, key: Key) -> (r: Action)
        requires
            old(self).wf(),
            old(self).mode == Mode::Normal,
        ensures
            final(self).wf(),
            final(self).abs() == step_normal(old(self).abs(), key),
            r == step_action(old(self).abs(), key, true),
            final(self).rows == old(self).rows,
            final(self).cols == old(self).cols,
            final(self).row_off == old(self).row_off,
            final(self).col_off == old(self).col_off,
            final(self).buffer.file == old(self).buffer.file,
    {
        match key {
            Key::Up => {
                if self.current_row != 0 {
                    self.current_row = self.current_row - 1;
                    let w = self.buffer.line_width(self.current_row);
                    if self.current_col > w {
                        self.current_col = w;
                    }
                }
                proof {
                    assert(self.abs() =~~= step_normal(old(self).abs(), key));
                }
                Action::Continue
            },
            Key::Down => {
                if self.current_row != self.buffer.height() - 1 {
                    self.current_row = self.current_row + 1;
                    let w = self.buffer.line_width(self.current_row);
                    if self.current_col > w {
                        self.current_col = w;
                    }
                }
                proof {
                    assert(self.abs() =~~= step_normal(old(self).abs(), key));
                }
                Action::Continue
            },
            Key::Left => {
                if self.current_col != 0 {
                    self.current_col = self.current_col - 1;
                } else if self.current_row != 0 {
                    self.current_row = self.current_row - 1;
                    self.current_col = self.buffer.line_width(self.current_row);
                }
                proof {
                    assert(self.abs() =~~= step_normal(old(self).abs(), key));
                }
                Action::Continue
            },
            Key::Right => {
                let w = self.buffer.line_width(self.current_row);
                if self.current_col != w {
                    self.current_col = self.current_col + 1;
                } else if self.current_row < self.buffer.height() - 1 {
                    self.current_row = self.current_row + 1;
                    self.current_col = 0;
                }
                proof {
                    assert(self.abs() =~~= step_normal(old(self).abs(), key));
                }
                Action::Continue
            },
            Key::Char(c) => {
                if c == 'i' {
                    self.mode = Mode::Insert;
                    proof {
                        assert(self.abs() =~~= step_normal(old(self).abs(), key));
                    }
                    Action::Continue
                } else if c == 'q' {
                    Action::Quit
                } else if c == 's' {
                    if self.buffer.file.is_some() {
                        Action::Save
                    } else {
                        Action::SaveNoPath
                    }
                } else {
                    Action::Continue
                }
            },
            _ => Action::Continue,
        }
    }

    /// Insert mode: printable cells are inserted at the cursor, Enter splits
    /// the line, Backspace deletes backward (joining lines at column 0), and
    /// Esc returns to Normal mode.
    fn handle_insert_event(&mut self, key: Key) -> (r: Action)
        requires
            old(self).wf(),
            old(self).mode == Mode::Insert,
        ensures
            final(self).wf(),
            final(self).abs() == step_insert(old(self).abs(), key),
            r == Action::Continue,
            final(self).rows == old(self).rows,
            final(self).cols == old(self).cols,
            final(self).row_off == old(self).row_off,
            final(self).col_off == old(self).col_off,
            final(self).buffer.file == old(self).buffer.file,
    {
        match key {
            Key::Esc => {
                self.mode = Mode::Normal;
                proof {
                    assert(self.abs() =~~= step_insert(old(self).abs(), key));
                }
            },
            Key::Char(c) => {
                self.buffer.insert(c, self.current_row, self.current_col);
                // The widened line's width bounds the cursor: no overflow below.
                let w = self.buffer.line_width(self.current_row);
                assert(self.current_col < w);
                self.current_col = self.current_col + 1;
                proof {
                    assert(self.abs() =~~= step_insert(old(self).abs(), key));
                }
            },
            Key::Enter => {
                self.buffer.insert_line(self.current_row, self.current_col);
                // The grown document's height bounds the cursor: no overflow below.
                let h = self.buffer.height();
                assert(self.current_row < h);
                self.current_row = self.current_row + 1;
                self.current_col = 0;
                proof {
                    assert(self.abs() =~~= step_insert(old(self).abs(), key));
                }
            },
            Key::Backspace => {
                let prev = if self.current_row > 0 {
                    self.buffer.line_width(self.current_row - 1)
                } else {
                    0
                };
                self.buffer.delete(self.current_row, self.current_col);
                if self.current_col > 0 {
                    self.current_col = self.current_col - 1;
                } else if self.current_row > 0 {
                    self.current_row = self.current_row - 1;
                    self.current_col = prev;
                }
                proof {
                    assert(self.abs() =~~= step_insert(old(self).abs(), key));
                }
            },
            _ => {},
        }
        Action::Continue
    }

    /// Re-establishes the viewport around the cursor for the given visible
    /// size, scrolling only as far as needed: afterwards the cursor lies
    /// within the visible window on both axes.
    pub fn scroll(&mut self, rows: usize, cols: usize)
        requires
            rows >= 1,
            cols >= 1,
        ensures
            final(self).rows == rows,
            final(self).cols == cols,
            final(self).row_off == scroll_off(
                old(self).row_off as int,
                old(self).current_row as int,
                rows as int,
            ),
            final(self).col_off == scroll_off(
                old(self).col_off as int,
                old(self).current_col as int,
                cols as int,
            ),
            final(self).mode == old(self).mode,
            final(self).current_row == old(self).current_row,
            final(self).current_col == old(self).current_col,
            final(self).buffer == old(self).buffer,
            final(self).row_off <= final(self).current_row < final(self).row_off + rows,
            final(self).col_off <= final(self).current_col < final(self).col_off + cols,
    {
        self.rows = rows;
        self.cols = cols;
        if self.current_row < self.row_off {
            self.row_off = self.current_row;
        }
        if self.current_col < self.col_off {
            self.col_off = self.current_col;
        }
        if self.current_row - self.row_off >= self.rows {
            self.row_off = self.current_row - self.rows + 1;
        }
        if self.current_col - self.col_off >= self.cols {
            self.col_off = self.current_col - self.cols + 1;
        }
    }

    /// Where the cursor stands on screen, as (screen row, screen column).
    /// Immediately after `scroll` both are within the visible window.
    pub fn screen_position(&self) -> (r: (usize, usize))
        requires
            self.row_off <= self.current_row,
            self.col_off <= self.current_col,
        ensures
            r.0 == self.current_row - self.row_off,
            r.1 == self.current_col - self.col_off,
    {
        (self.current_row - self.row_off, self.current_col - self.col_off)
    }
}

/// Idempotence law of the scroll rule: with the cursor unmoved, recomputing
/// the offset a second time leaves it unchanged.
pub proof fn lemma_scroll_idempotent(off: int, cur: int, size: int)
    requires
        0 <= off,
        0 <= cur,
        size >= 1,
    ensures
        scroll_off(scroll_off(off, cur, size), cur, size) == scroll_off(off, cur, size),
{
}

/// Split/join inverse law over the whole editor state: in Insert mode,
/// pressing Enter and then Backspace returns to the very same state, cursor
/// position included.
pub proof fn lemma_enter_backspace_inverse(s: EdState)
    requires
        s.mode == Mode::Insert,
        0 <= s.row < s.lines.len(),
        0 <= s.col <= s.lines[s.row].len(),
    ensures
        step_insert(step_insert(s, Key::Enter), Key::Backspace) == s,
{
    crate::buffer::lemma_split_then_delete(s.lines, s.row, s.col);
    assert(step_insert(step_insert(s, Key::Enter), Key::Backspace) =~~= s);
}

} // verus!
