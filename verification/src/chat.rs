use vstd::prelude::*;

use crate::color::Color;
use crate::terminal_buffer::{lemma_put_run_oob, put_run_spec, Cell, TerminalBuffer};

verus! {

/// One chat log line: a message and its color tag (plain, error or info).
pub struct ChatEntry {
    pub message: Vec<char>,
    pub color: Color,
}

/// The append-only history of messages and system notices.  Entries are
/// only ever pushed at the end; nothing is evicted for the life of the
/// session.
pub struct ChatLog {
    pub items: Vec<ChatEntry>,
}

impl View for ChatLog {
    type V = Seq<(Seq<char>, Color)>;

    open spec fn view(&self) -> Seq<(Seq<char>, Color)> {
        self.items@.map_values(|e: ChatEntry| (e.message@, e.color))
    }
}

/// Rendering a chat history into a grid: one row per entry starting at
/// `(x, y)`, oldest first, top to bottom, each message left-aligned.  Rows
/// that fall below the grid are dropped; lines are not wrapped or
/// truncated to the grid width beyond the run truncation itself.
pub open spec fn chat_render_spec(
    g: Seq<Cell>,
    w: int,
    h: int,
    items: Seq<(Seq<char>, Color)>,
    x: int,
    y: int,
) -> Seq<Cell>
    decreases items.len(),
{
    if items.len() == 0 {
        g
    } else {
        chat_render_spec(
            put_run_spec(g, w, h, items[0].0, x, y, items[0].1, Color::Black),
            w,
            h,
            items.drop_first(),
            x,
            y + 1,
        )
    }
}

/// Rendering rows at or below the bottom edge writes nothing.
proof fn lemma_chat_render_oob(
    g: Seq<Cell>,
    w: int,
    h: int,
    items: Seq<(Seq<char>, Color)>,
    x: int,
    y: int,
)
    requires
        y >= h,
    ensures
        chat_render_spec(g, w, h, items, x, y) == g,
    decreases items.len(),
{
    if items.len() > 0 {
        lemma_put_run_oob(g, w, h, items[0].0, x, y, items[0].1, Color::Black);
        lemma_chat_render_oob(g, w, h, items.drop_first(), x, y + 1);
    }
}

impl Default for ChatLog {
    /// An empty history.
    fn default() -> (r: Self)
        ensures
            r@ == Seq::<(Seq<char>, Color)>::empty(),
    {
        let r = ChatLog { items: Vec::new() };
        proof {
            assert(r@ =~= Seq::<(Seq<char>, Color)>::empty());
        }
        r
    }
}

impl ChatLog {
    /// Appends one entry at the end of the history.
    pub fn insert(&mut self, message: Vec<char>, color: Color)
        ensures
            final(self)@ == old(self)@.push((message@, color)),
    {
        let ghost m = message@;
        self.items.push(ChatEntry { message, color });
        proof {
            assert(self@ =~= old(self)@.push((m, color)));
        }
    }

    /// Writes the history into the grid, one row per entry, starting at
    /// `(x, y)`.
    pub fn render(&self, buffer: &mut TerminalBuffer, x: usize, y: usize)
        requires
            old(buffer).wf(),
        ensures
            final(buffer).wf(),
            final(buffer).width == old(buffer).width,
            final(buffer).height == old(buffer).height,
            final(buffer).cells@ == chat_render_spec(
                old(buffer).cells@,
                old(buffer).width as int,
                old(buffer).height as int,
                self@,
                x as int,
                y as int,
            ),
    {
        let ghost g0 = buffer.cells@;
        let ghost w = buffer.width as int;
        let ghost h = buffer.height as int;
        proof {
            assert(self@.skip(0) =~= self@);
        }
        let mut dy: usize = 0;
        while dy < self.items.len()
            invariant
                buffer.wf(),
                buffer.width as int == w,
                buffer.height as int == h,
                buffer.width == old(buffer).width,
                buffer.height == old(buffer).height,
                g0 == old(buffer).cells@,
                dy <= self.items@.len(),
                self@.len() == self.items@.len(),
                chat_render_spec(g0, w, h, self@, x as int, y as int) == chat_render_spec(
                    buffer.cells@,
                    w,
                    h,
                    self@.skip(dy as int),
                    x as int,
                    y as int + dy,
                ),
            decreases self.items@.len() - dy,
        {
            if y >= buffer.height || dy >= buffer.height - y {
                proof {
                    lemma_chat_render_oob(
                        buffer.cells@,
                        w,
                        h,
                        self@.skip(dy as int),
                        x as int,
                        y as int + dy,
                    );
                }
                return;
            }
            let row = y + dy;
            let entry = &self.items[dy];
            proof {
                assert(self@[dy as int] == (entry.message@, entry.color));
                assert(self@.skip(dy as int)[0] == self@[dy as int]);
                assert(self@.skip(dy as int).drop_first() =~= self@.skip(dy as int + 1));
            }
            buffer.put_cells(entry.message.as_slice(), x, row, entry.color, Color::Black);
            dy = dy + 1;
        }
        proof {
            assert(self@.skip(dy as int) =~= Seq::<(Seq<char>, Color)>::empty());
        }
    }
}

} // verus!
