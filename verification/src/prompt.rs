use vstd::prelude::*;

use crate::color::Color;
use crate::emit::TermOp;
use crate::terminal_buffer::{pad_spec, put_run_spec, TerminalBuffer};
use crate::text::push_char;

verus! {

/// The editable input line: a cursor-addressable character sequence,
/// independent of rendering.  The cursor sits between characters, so it
/// ranges over `0 ..= data.len()`.
pub struct Prompt {
    pub data: Vec<char>,
    pub cursor: usize,
}

impl Default for Prompt {
    /// An empty prompt with the cursor at the start.
    fn default() -> (r: Self)
        ensures
            r.wf(),
            r.data@.len() == 0,
            r.cursor == 0,
    {
        Prompt { data: Vec::new(), cursor: 0 }
    }
}

impl Prompt {
    /// The prompt invariant: the cursor never exceeds the data length.
    /// Every editing operation requires and preserves it.
    pub open spec fn wf(&self) -> bool {
        self.cursor <= self.data@.len()
    }

    /// Inserts a character at the cursor, then advances the cursor past it.
    pub fn insert(&mut self, ch: char)
        requires
            old(self).wf(),
            old(self).data@.len() < usize::MAX,
        ensures
            final(self).wf(),
            final(self).data@ == old(self).data@.insert(old(self).cursor as int, ch),
            final(self).cursor == old(self).cursor + 1,
    {
        self.data.insert(self.cursor, ch);
        self.cursor = self.cursor + 1;
    }

    /// Removes the character immediately before the cursor and moves the
    /// cursor back by one; a no-op when the cursor is at the start.
    pub fn backspace(&mut self)
        requires
            old(self).wf(),
        ensures
            final(self).wf(),
            old(self).cursor > 0 ==> final(self).data@ == old(self).data@.remove(
                old(self).cursor - 1,
            ) && final(self).cursor == old(self).cursor - 1,
            old(self).cursor == 0 ==> *final(self) == *old(self),
    {
        if self.cursor > 0 {
            self.data.remove(self.cursor - 1);
            self.cursor = self.cursor - 1;
        }
    }

    /// Resets the prompt to empty with the cursor at the start, whatever
    /// its prior state; invoked after a line is accepted or on explicit
    /// cancel.
    pub fn clear(&mut self)
        ensures
            final(self).wf(),
            final(self).data@.len() == 0,
            final(self).cursor == 0,
    {
        self.cursor = 0;
        self.data.clear();
    }

    /// Moves the cursor one position left, clamped at the start of the
    /// line.
    pub fn cursor_move_left(&mut self)
        requires
            old(self).wf(),
        ensures
            final(self).wf(),
            final(self).data@ == old(self).data@,
            final(self).cursor == (if old(self).cursor > 0 {
                old(self).cursor - 1
            } else {
                0int
            }),
    {
        self.cursor = if self.cursor > 0 {
            self.cursor - 1
        } else {
            0
        };
    }

    /// Moves the cursor one position right, clamped at the end of the
    /// line.
    pub fn cursor_move_right(&mut self)
        requires
            old(self).wf(),
        ensures
            final(self).wf(),
            final(self).data@ == old(self).data@,
            final(self).cursor == (if old(self).cursor == old(self).data@.len() {
                old(self).cursor as int
            } else {
                old(self).cursor + 1
            }),
    {
        self.cursor = if self.cursor == self.data.len() {
            self.cursor
        } else {
            self.cursor + 1
        };
    }

    /// The current line as a string.
    pub fn get(&self) -> (r: String)
        ensures
            r@ == self.data@,
    {
        let mut r = String::new();
        let mut i: usize = 0;
        while i < self.data.len()
            invariant
                i <= self.data@.len(),
                r@.len() == i,
                forall|j: int| 0 <= j < i ==> r@[j] == self.data@[j],
            decreases self.data@.len() - i,
        {
            push_char(&mut r, self.data[i]);
            i = i + 1;
        }
        proof {
            assert(r@ =~= self.data@);
        }
        r
    }

    /// Writes the line as a run starting at `(x, y)`, then pads the
    /// remaining columns after the text, up to `w`, with default-styled
    /// spaces, erasing what a previously longer line left behind.
    pub fn render(&self, buffer: &mut TerminalBuffer, x: usize, y: usize, w: usize)
        requires
            old(buffer).wf(),
        ensures
            final(buffer).wf(),
            final(buffer).width == old(buffer).width,
            final(buffer).height == old(buffer).height,
            final(buffer).cells@ == pad_spec(
                put_run_spec(
                    old(buffer).cells@,
                    old(buffer).width as int,
                    old(buffer).height as int,
                    self.data@,
                    x as int,
                    y as int,
                    Color::White,
                    Color::Black,
                ),
                old(buffer).width as int,
                old(buffer).height as int,
                x as int + self.data@.len(),
                w as int,
                y as int,
                Color::White,
                Color::Black,
            ),
    {
        buffer.put_cells(self.data.as_slice(), x, y, Color::White, Color::Black);
        let after = if self.data.len() >= w || x >= w - self.data.len() {
            w
        } else {
            x + self.data.len()
        };
        let ghost g1 = buffer.cells@;
        let ghost bw = buffer.width as int;
        let ghost bh = buffer.height as int;
        buffer.pad_row(after, w, y, Color::White, Color::Black);
        proof {
            if after as int != x as int + self.data@.len() {
                assert(x as int + self.data@.len() >= w as int);
                assert(pad_spec(
                    g1,
                    bw,
                    bh,
                    x as int + self.data@.len(),
                    w as int,
                    y as int,
                    Color::White,
                    Color::Black,
                ) == g1);
                assert(pad_spec(g1, bw, bh, w as int, w as int, y as int, Color::White, Color::Black)
                    == g1);
            }
        }
    }

    /// The cursor-positioning operation issued after every emission batch:
    /// the physical cursor goes to column `min(x + cursor, w)` of row `y`.
    /// Cursor position is not part of the cell grid, so it is re-asserted
    /// every frame even when no cells changed.
    pub fn sync_cursor_op(&self, x: usize, y: usize, w: usize) -> (op: TermOp)
        requires
            x + self.cursor <= usize::MAX,
        ensures
            x + self.cursor <= w ==> op == TermOp::MoveTo((x + self.cursor) as usize, y),
            x + self.cursor > w ==> op == TermOp::MoveTo(w, y),
    {
        let pos = x + self.cursor;
        let cx = if pos < w {
            pos
        } else {
            w
        };
        TermOp::MoveTo(cx, y)
    }
}

} // verus!
