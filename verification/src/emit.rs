use vstd::prelude::*;

use crate::color::Color;
use crate::terminal_buffer::{Cell, Patch, TerminalBuffer};

verus! {

/// One terminal operation of the emission protocol.  The library computes
/// streams of these; the unverified shell writes them to the terminal in
/// order.
#[derive(PartialEq, Eq, Structural, Debug)]
pub enum TermOp {
    /// Clear the whole screen.
    ClearAll,
    /// Move the terminal cursor to column `x`, row `y`.
    MoveTo(usize, usize),
    /// Set the current foreground color.
    SetFg(Color),
    /// Set the current background color.
    SetBg(Color),
    /// Write one glyph at the cursor, advancing the cursor one column.
    Print(char),
}

/// The operations emitted for one patch, given the running emission state:
/// current colors `fg`/`bg` and the position of the previously written
/// patch, if any was written yet.  A cursor move is skipped exactly when
/// the patch extends the previous one horizontally; the first patch of a
/// batch has no previous patch and always gets a move.  Color sets are
/// emitted only on change.
pub open spec fn patch_ops(p: Patch, fg: Color, bg: Color, prev: Option<(int, int)>) -> Seq<TermOp> {
    (if (match prev {
        Some(pp) => pp.1 == p.y && pp.0 + 1 == p.x,
        None => false,
    }) {
        Seq::<TermOp>::empty()
    } else {
        seq![TermOp::MoveTo(p.x, p.y)]
    }) + (if fg == p.cell.fg {
        Seq::<TermOp>::empty()
    } else {
        seq![TermOp::SetFg(p.cell.fg)]
    }) + (if bg == p.cell.bg {
        Seq::<TermOp>::empty()
    } else {
        seq![TermOp::SetBg(p.cell.bg)]
    }) + seq![TermOp::Print(p.cell.ch)]
}

/// The operations emitted for a whole patch set.  After each patch the
/// running colors are that patch's colors and the running position is its
/// position, whether or not anything was emitted for them.
pub open spec fn emit_seq(
    ps: Seq<Patch>,
    fg: Color,
    bg: Color,
    prev: Option<(int, int)>,
) -> Seq<TermOp>
    decreases ps.len(),
{
    if ps.len() == 0 {
        Seq::empty()
    } else {
        patch_ops(ps[0], fg, bg, prev) + emit_seq(
            ps.drop_first(),
            ps[0].cell.fg,
            ps[0].cell.bg,
            Some((ps[0].x as int, ps[0].y as int)),
        )
    }
}

/// The previously written position, as the specification sees it.
pub open spec fn prev_view(prev: Option<(usize, usize)>) -> Option<(int, int)> {
    match prev {
        Some(pp) => Some((pp.0 as int, pp.1 as int)),
        None => None,
    }
}

/// The operations of a full unconditional redraw: one glyph per cell in
/// row-major order, with a color set only where the color changes from the
/// previous cell (coalescing runs of identical style).
pub open spec fn flush_seq(cells: Seq<Cell>, fg: Color, bg: Color) -> Seq<TermOp>
    decreases cells.len(),
{
    if cells.len() == 0 {
        Seq::empty()
    } else {
        let c = cells[0];
        (if fg == c.fg {
            Seq::<TermOp>::empty()
        } else {
            seq![TermOp::SetFg(c.fg)]
        }) + (if bg == c.bg {
            Seq::<TermOp>::empty()
        } else {
            seq![TermOp::SetBg(c.bg)]
        }) + seq![TermOp::Print(c.ch)] + flush_seq(cells.drop_first(), c.fg, c.bg)
    }
}

/// Serializes a patch set, in the order produced by `diff`, into the
/// minimal operation stream: a cursor move per patch unless the previous
/// emitted patch was its left neighbour on the same row, and a color set
/// only when the color differs from the last one emitted.  The batch
/// starts from the default white-on-black style with no previous patch, so
/// the first patch always gets a move.
pub fn apply_patches(patches: &[Patch]) -> (ops: Vec<TermOp>)
    ensures
        ops@ == seq![TermOp::SetFg(Color::White), TermOp::SetBg(Color::Black)] + emit_seq(
            patches@,
            Color::White,
            Color::Black,
            None,
        ),
{
    let ghost goal = seq![TermOp::SetFg(Color::White), TermOp::SetBg(Color::Black)] + emit_seq(
        patches@,
        Color::White,
        Color::Black,
        None,
    );
    let mut ops: Vec<TermOp> = Vec::new();
    let mut fg_curr = Color::White;
    let mut bg_curr = Color::Black;
    let mut prev: Option<(usize, usize)> = None;
    ops.push(TermOp::SetFg(fg_curr));
    ops.push(TermOp::SetBg(bg_curr));
    proof {
        assert(patches@.skip(0) =~= patches@);
        assert(ops@ =~= seq![TermOp::SetFg(Color::White), TermOp::SetBg(Color::Black)]);
    }
    let mut i: usize = 0;
    while i < patches.len()
        invariant
            i <= patches@.len(),
            goal == ops@ + emit_seq(patches@.skip(i as int), fg_curr, bg_curr, prev_view(prev)),
        decreases patches@.len() - i,
    {
        let p = patches[i];
        let ghost rest = patches@.skip(i as int);
        proof {
            assert(rest[0] == patches@[i as int]);
            assert(rest.drop_first() =~= patches@.skip(i as int + 1));
        }
        let ghost ops0 = ops@;
        let ghost old_fg = fg_curr;
        let ghost old_bg = bg_curr;
        let ghost old_prev = prev_view(prev);
        let adjacent = match prev {
            Some((px, py)) => py == p.y && p.x > 0 && p.x - 1 == px,
            None => false,
        };
        if !adjacent {
            ops.push(TermOp::MoveTo(p.x, p.y));
        }
        prev = Some((p.x, p.y));
        if fg_curr != p.cell.fg {
            fg_curr = p.cell.fg;
            ops.push(TermOp::SetFg(fg_curr));
        }
        if bg_curr != p.cell.bg {
            bg_curr = p.cell.bg;
            ops.push(TermOp::SetBg(bg_curr));
        }
        ops.push(TermOp::Print(p.cell.ch));
        proof {
            let block = patch_ops(p, old_fg, old_bg, old_prev);
            let tail = emit_seq(
                patches@.skip(i as int + 1),
                p.cell.fg,
                p.cell.bg,
                Some((p.x as int, p.y as int)),
            );
            assert(emit_seq(rest, old_fg, old_bg, old_prev) == block + tail);
            assert(ops@ =~= ops0 + block);
            assert(ops0 + (block + tail) =~= (ops0 + block) + tail);
        }
        i = i + 1;
    }
    proof {
        assert(patches@.skip(i as int) =~= Seq::<Patch>::empty());
        assert(ops@ =~= goal);
    }
    ops
}

impl TerminalBuffer {
    /// The full unconditional redraw stream: clear the screen, reset to the
    /// default style, move to the origin, then stream every cell.  Used
    /// once at startup, before any previous frame exists to diff against.
    pub fn flush(&self) -> (ops: Vec<TermOp>)
        ensures
            ops@ == seq![
                TermOp::ClearAll,
                TermOp::SetFg(Color::White),
                TermOp::SetBg(Color::Black),
                TermOp::MoveTo(0, 0),
            ] + flush_seq(self.cells@, Color::White, Color::Black),
    {
        let ghost goal = seq![
            TermOp::ClearAll,
            TermOp::SetFg(Color::White),
            TermOp::SetBg(Color::Black),
            TermOp::MoveTo(0, 0),
        ] + flush_seq(self.cells@, Color::White, Color::Black);
        let mut ops: Vec<TermOp> = Vec::new();
        let mut fg_curr = Color::White;
        let mut bg_curr = Color::Black;
        ops.push(TermOp::ClearAll);
        ops.push(TermOp::SetFg(fg_curr));
        ops.push(TermOp::SetBg(bg_curr));
        ops.push(TermOp::MoveTo(0, 0));
        proof {
            assert(self.cells@.skip(0) =~= self.cells@);
            assert(ops@ =~= seq![
                TermOp::ClearAll,
                TermOp::SetFg(Color::White),
                TermOp::SetBg(Color::Black),
                TermOp::MoveTo(0, 0),
            ]);
        }
        let mut i: usize = 0;
        while i < self.cells.len()
            invariant
                i <= self.cells@.len(),
                goal == ops@ + flush_seq(self.cells@.skip(i as int), fg_curr, bg_curr),
            decreases self.cells@.len() - i,
        {
            let c = self.cells[i];
            let ghost rest = self.cells@.skip(i as int);
            proof {
                assert(rest[0] == self.cells@[i as int]);
                assert(rest.drop_first() =~= self.cells@.skip(i as int + 1));
            }
            let ghost ops0 = ops@;
            let ghost old_fg = fg_curr;
            let ghost old_bg = bg_curr;
            if fg_curr != c.fg {
                fg_curr = c.fg;
                ops.push(TermOp::SetFg(fg_curr));
            }
            if bg_curr != c.bg {
                bg_curr = c.bg;
                ops.push(TermOp::SetBg(bg_curr));
            }
            ops.push(TermOp::Print(c.ch));
            proof {
                let block = (if old_fg == c.fg {
                    Seq::<TermOp>::empty()
                } else {
                    seq![TermOp::SetFg(c.fg)]
                }) + (if old_bg == c.bg {
                    Seq::<TermOp>::empty()
                } else {
                    seq![TermOp::SetBg(c.bg)]
                }) + seq![TermOp::Print(c.ch)];
                let tail = flush_seq(self.cells@.skip(i as int + 1), c.fg, c.bg);
                assert(flush_seq(rest, old_fg, old_bg) == block + tail);
                assert(ops@ =~= ops0 + block);
                assert(ops0 + (block + tail) =~= (ops0 + block) + tail);
            }
            i = i + 1;
        }
        proof {
            assert(self.cells@.skip(i as int) =~= Seq::<Cell>::empty());
            assert(ops@ =~= goal);
        }
        ops
    }
}

/// The running emission state just before the patch at index `i` is
/// processed: the initial state for `i == 0`, and the colors and position
/// of the previous patch after that.
pub open spec fn emit_state(
    ps: Seq<Patch>,
    fg: Color,
    bg: Color,
    prev: Option<(int, int)>,
    i: int,
) -> (Color, Color, Option<(int, int)>) {
    if i <= 0 {
        (fg, bg, prev)
    } else {
        (ps[i - 1].cell.fg, ps[i - 1].cell.bg, Some((ps[i - 1].x as int, ps[i - 1].y as int)))
    }
}

/// An emission stream splits, before any index `i`, into the operations of
/// the first `i` patches and the emission of the rest from the state the
/// first `i` patches leave behind.
proof fn lemma_emit_prefix(
    ps: Seq<Patch>,
    fg: Color,
    bg: Color,
    prev: Option<(int, int)>,
    i: int,
) -> (pre: Seq<TermOp>)
    requires
        0 <= i <= ps.len(),
    ensures
        ({
            let st = emit_state(ps, fg, bg, prev, i);
            emit_seq(ps, fg, bg, prev) == pre + emit_seq(ps.skip(i), st.0, st.1, st.2)
        }),
    decreases i,
{
    if i == 0 {
        let pre = Seq::<TermOp>::empty();
        assert(ps.skip(0) =~= ps);
        assert(emit_seq(ps, fg, bg, prev) =~= pre + emit_seq(ps, fg, bg, prev));
        pre
    } else {
        let pre0 = lemma_emit_prefix(ps, fg, bg, prev, i - 1);
        let st0 = emit_state(ps, fg, bg, prev, i - 1);
        let st = emit_state(ps, fg, bg, prev, i);
        assert(ps.skip(i - 1)[0] == ps[i - 1]);
        assert(ps.skip(i - 1).drop_first() =~= ps.skip(i));
        let block = patch_ops(ps[i - 1], st0.0, st0.1, st0.2);
        assert(emit_seq(ps.skip(i - 1), st0.0, st0.1, st0.2) == block + emit_seq(
            ps.skip(i),
            st.0,
            st.1,
            st.2,
        ));
        let pre = pre0 + block;
        assert(pre0 + (block + emit_seq(ps.skip(i), st.0, st.1, st.2)) =~= pre + emit_seq(
            ps.skip(i),
            st.0,
            st.1,
            st.2,
        ));
        pre
    }
}

/// In any emission batch: where patch `i + 1` sits on the same row
/// immediately to the right of patch `i`, the stream splits into what
/// comes before patch `i`, the block of patch `i`, the block of patch
/// `i + 1`, and the rest — and the block of patch `i + 1` contains no
/// cursor-positioning operation.
pub proof fn lemma_batch_adjacent_skips_move(
    ps: Seq<Patch>,
    fg: Color,
    bg: Color,
    prev: Option<(int, int)>,
    i: int,
) -> (pre: Seq<TermOp>)
    requires
        0 <= i,
        i + 1 < ps.len(),
        ps[i + 1].y == ps[i].y,
        ps[i + 1].x == ps[i].x + 1,
    ensures
        ({
            let st = emit_state(ps, fg, bg, prev, i);
            let block_i = patch_ops(ps[i], st.0, st.1, st.2);
            let block_next = patch_ops(
                ps[i + 1],
                ps[i].cell.fg,
                ps[i].cell.bg,
                Some((ps[i].x as int, ps[i].y as int)),
            );
            let rest = emit_seq(
                ps.skip(i + 2),
                ps[i + 1].cell.fg,
                ps[i + 1].cell.bg,
                Some((ps[i + 1].x as int, ps[i + 1].y as int)),
            );
            emit_seq(ps, fg, bg, prev) == pre + block_i + block_next + rest && forall|k: int|
                0 <= k < block_next.len() ==> !(block_next[k] is MoveTo)
        }),
{
    let pre = lemma_emit_prefix(ps, fg, bg, prev, i);
    let st = emit_state(ps, fg, bg, prev, i);
    assert(ps.skip(i)[0] == ps[i]);
    assert(ps.skip(i).drop_first() =~= ps.skip(i + 1));
    assert(ps.skip(i + 1)[0] == ps[i + 1]);
    assert(ps.skip(i + 1).drop_first() =~= ps.skip(i + 2));
    let block_i = patch_ops(ps[i], st.0, st.1, st.2);
    let block_next = patch_ops(
        ps[i + 1],
        ps[i].cell.fg,
        ps[i].cell.bg,
        Some((ps[i].x as int, ps[i].y as int)),
    );
    let rest = emit_seq(
        ps.skip(i + 2),
        ps[i + 1].cell.fg,
        ps[i + 1].cell.bg,
        Some((ps[i + 1].x as int, ps[i + 1].y as int)),
    );
    assert(emit_seq(ps.skip(i), st.0, st.1, st.2) == block_i + emit_seq(
        ps.skip(i + 1),
        ps[i].cell.fg,
        ps[i].cell.bg,
        Some((ps[i].x as int, ps[i].y as int)),
    ));
    assert(emit_seq(
        ps.skip(i + 1),
        ps[i].cell.fg,
        ps[i].cell.bg,
        Some((ps[i].x as int, ps[i].y as int)),
    ) == block_next + rest);
    assert(pre + (block_i + (block_next + rest)) =~= pre + block_i + block_next + rest);
    lemma_adjacent_patches_skip_move(ps[i], ps[i + 1], st.0, st.1);
    pre
}

/// The first patch of a batch always gets a cursor move: with no previous
/// emitted patch, positioning is never skipped.
pub proof fn lemma_first_patch_moves(ps: Seq<Patch>, fg: Color, bg: Color)
    requires
        ps.len() > 0,
    ensures
        emit_seq(ps, fg, bg, None)[0] == TermOp::MoveTo(ps[0].x, ps[0].y),
{
    let block = patch_ops(ps[0], fg, bg, None);
    assert(block[0] == TermOp::MoveTo(ps[0].x, ps[0].y));
    assert(emit_seq(ps, fg, bg, None)[0] == block[0]);
}

/// Two consecutive patches on the same row at adjacent columns emit no
/// cursor move between them: after any patch `p1` is emitted, the running
/// position is `(p1.x, p1.y)`, and the block emitted for a patch `p2` with
/// `p2.y == p1.y` and `p2.x == p1.x + 1` contains no `MoveTo`, whatever the
/// running colors are.
pub proof fn lemma_adjacent_patches_skip_move(p1: Patch, p2: Patch, fg: Color, bg: Color)
    requires
        p2.y == p1.y,
        p2.x == p1.x + 1,
    ensures
        forall|k: int|
            0 <= k < patch_ops(p2, fg, bg, Some((p1.x as int, p1.y as int))).len() ==> !(patch_ops(
                p2,
                fg,
                bg,
                Some((p1.x as int, p1.y as int)),
            )[k] is MoveTo),
{
    let ops = patch_ops(p2, fg, bg, Some((p1.x as int, p1.y as int)));
    assert forall|k: int| 0 <= k < ops.len() implies !(ops[k] is MoveTo) by {
        assert(p1.y as int == p2.y as int && p1.x as int + 1 == p2.x as int);
    }
}

} // verus!
