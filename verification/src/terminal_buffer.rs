use vstd::prelude::*;

use crate::color::Color;

verus! {

/// One terminal character position: glyph plus foreground/background color.
/// Compared by full equality when two frames are diffed.
#[derive(Clone, Copy, PartialEq, Eq, Structural, Debug)]
pub struct Cell {
    pub ch: char,
    pub fg: Color,
    pub bg: Color,
}

/// The default cell: a white-on-black space.
pub open spec fn default_cell() -> Cell {
    Cell { ch: ' ', fg: Color::White, bg: Color::Black }
}

impl Default for Cell {
    fn default() -> (r: Self)
        ensures
            r == default_cell(),
    {
        Cell { ch: ' ', fg: Color::White, bg: Color::Black }
    }
}

/// A single cell that differs between two frames, carrying the new value
/// and its grid position.
#[derive(Clone, Copy, PartialEq, Eq, Structural, Debug)]
pub struct Patch {
    pub cell: Cell,
    pub x: usize,
    pub y: usize,
}

/// A fixed-size grid of cells in row-major order: index `i` holds the cell
/// at `(x = i % width, y = i / width)`.
pub struct TerminalBuffer {
    pub cells: Vec<Cell>,
    pub width: usize,
    pub height: usize,
}

/// A grid of `n` default cells.
pub open spec fn blank_grid(n: nat) -> Seq<Cell> {
    Seq::new(n, |i: int| default_cell())
}

/// Writing one cell into a row-major grid: a no-op when the position is out
/// of bounds.
pub open spec fn put_cell_spec(
    g: Seq<Cell>,
    w: int,
    h: int,
    ch: char,
    x: int,
    y: int,
    fg: Color,
    bg: Color,
) -> Seq<Cell> {
    if 0 <= x < w && 0 <= y < h && 0 <= y * w + x < g.len() {
        g.update(y * w + x, Cell { ch, fg, bg })
    } else {
        g
    }
}

/// Writing a horizontal run of glyphs starting at `(x, y)`, one column per
/// character; characters that fall outside the row are dropped, the run
/// never wraps to the next row.
pub open spec fn put_run_spec(
    g: Seq<Cell>,
    w: int,
    h: int,
    chs: Seq<char>,
    x: int,
    y: int,
    fg: Color,
    bg: Color,
) -> Seq<Cell>
    decreases chs.len(),
{
    if chs.len() == 0 {
        g
    } else {
        put_run_spec(put_cell_spec(g, w, h, chs[0], x, y, fg, bg), w, h, chs.drop_first(), x + 1, y, fg, bg)
    }
}

/// Filling the columns `from .. to` of row `y` with spaces in the given
/// style; columns outside the grid are dropped.
pub open spec fn pad_spec(
    g: Seq<Cell>,
    w: int,
    h: int,
    from: int,
    to: int,
    y: int,
    fg: Color,
    bg: Color,
) -> Seq<Cell>
    decreases to - from,
{
    if from >= to {
        g
    } else {
        pad_spec(put_cell_spec(g, w, h, ' ', from, y, fg, bg), w, h, from + 1, to, y, fg, bg)
    }
}

/// The patch set between the first `n` cells of grids `a` (new) and `b`
/// (previous): one patch, carrying the value from `a`, for every index where
/// they differ, in ascending index order.
pub open spec fn diff_seq(a: Seq<Cell>, b: Seq<Cell>, w: int, n: int) -> Seq<Patch>
    decreases n,
{
    if n <= 0 {
        Seq::empty()
    } else {
        let rest = diff_seq(a, b, w, n - 1);
        if a[n - 1] == b[n - 1] {
            rest
        } else {
            rest.push(Patch { cell: a[n - 1], x: ((n - 1) % w) as usize, y: ((n - 1) / w) as usize })
        }
    }
}

/// Applying one patch to a row-major grid: a no-op when the patch lies
/// outside the grid.
pub open spec fn apply_patch_spec(g: Seq<Cell>, p: Patch, w: int) -> Seq<Cell> {
    if 0 <= p.y * w + p.x < g.len() {
        g.update(p.y * w + p.x, p.cell)
    } else {
        g
    }
}

/// Applying a patch set to a grid, front to back.
pub open spec fn apply_seq(g: Seq<Cell>, ps: Seq<Patch>, w: int) -> Seq<Cell>
    decreases ps.len(),
{
    if ps.len() == 0 {
        g
    } else {
        apply_seq(apply_patch_spec(g, ps[0], w), ps.drop_first(), w)
    }
}

/// A run never writes: the whole run lies outside the grid.
pub(crate) proof fn lemma_put_run_oob(
    g: Seq<Cell>,
    w: int,
    h: int,
    chs: Seq<char>,
    x: int,
    y: int,
    fg: Color,
    bg: Color,
)
    requires
        x >= w || y >= h || y < 0,
    ensures
        put_run_spec(g, w, h, chs, x, y, fg, bg) == g,
    decreases chs.len(),
{
    if chs.len() > 0 {
        assert(put_cell_spec(g, w, h, chs[0], x, y, fg, bg) == g);
        lemma_put_run_oob(g, w, h, chs.drop_first(), x + 1, y, fg, bg);
    }
}

/// A position strictly inside the grid has a row-major index inside the cell
/// sequence.
proof fn lemma_row_major_index(w: int, h: int, x: int, y: int)
    requires
        0 <= x < w,
        0 <= y < h,
    ensures
        0 <= y * w + x < w * h,
{
    assert(y * w + x < w * h) by (nonlinear_arith)
        requires 0 <= x < w && 0 <= y < h;
    assert(y * w >= 0) by (nonlinear_arith)
        requires 0 <= y && 0 < w;
}

impl TerminalBuffer {
    /// The grid's structural invariant: the cell sequence covers exactly
    /// `width * height` positions.
    pub open spec fn wf(&self) -> bool {
        self.cells@.len() == self.width * self.height
    }

    /// A `width` by `height` grid of default cells.
    pub fn new(width: usize, height: usize) -> (r: Self)
        requires
            width * height <= usize::MAX,
        ensures
            r.wf(),
            r.width == width,
            r.height == height,
            r.cells@ == blank_grid((width * height) as nat),
    {
        let n = width * height;
        let mut cells: Vec<Cell> = Vec::new();
        let mut i: usize = 0;
        while i < n
            invariant
                i <= n,
                cells@.len() == i,
                forall|j: int| 0 <= j < i ==> cells@[j] == default_cell(),
            decreases n - i,
        {
            cells.push(Cell::default());
            i = i + 1;
        }
        proof {
            assert(cells@ =~= blank_grid(n as nat));
        }
        TerminalBuffer { cells, width, height }
    }

    /// Writes one cell if `(x, y)` is in bounds; out-of-bounds writes are
    /// silently dropped.
    pub fn put_cell(&mut self, ch: char, x: usize, y: usize, fg: Color, bg: Color)
        requires
            old(self).wf(),
        ensures
            final(self).wf(),
            final(self).width == old(self).width,
            final(self).height == old(self).height,
            final(self).cells@ == put_cell_spec(
                old(self).cells@,
                old(self).width as int,
                old(self).height as int,
                ch,
                x as int,
                y as int,
                fg,
                bg,
            ),
    {
        if x < self.width && y < self.height {
            proof {
                lemma_row_major_index(self.width as int, self.height as int, x as int, y as int);
            }
            // the index is below the cell count, which is a usize, so the
            // arithmetic cannot overflow
            let n = self.cells.len();
            let idx = y * self.width + x;
            self.cells[idx] = Cell { ch, fg, bg };
        }
    }

    /// Writes a horizontal run of characters starting at `(x, y)`, silently
    /// truncated at the right edge of the row; the run never wraps.
    pub fn put_cells(&mut self, chs: &[char], x: usize, y: usize, fg: Color, bg: Color)
        requires
            old(self).wf(),
        ensures
            final(self).wf(),
            final(self).width == old(self).width,
            final(self).height == old(self).height,
            final(self).cells@ == put_run_spec(
                old(self).cells@,
                old(self).width as int,
                old(self).height as int,
                chs@,
                x as int,
                y as int,
                fg,
                bg,
            ),
    {
        let ghost g0 = self.cells@;
        let ghost w = self.width as int;
        let ghost h = self.height as int;
        if y >= self.height || x >= self.width {
            proof {
                lemma_put_run_oob(g0, w, h, chs@, x as int, y as int, fg, bg);
            }
            return;
        }
        proof {
            assert(chs@.skip(0) =~= chs@);
        }
        let mut i: usize = 0;
        while i < chs.len() && i < self.width - x
            invariant
                self.wf(),
                self.width as int == w,
                self.height as int == h,
                x < self.width,
                y < self.height,
                i <= chs@.len(),
                x + i <= self.width,
                put_run_spec(g0, w, h, chs@, x as int, y as int, fg, bg) == put_run_spec(
                    self.cells@,
                    w,
                    h,
                    chs@.skip(i as int),
                    x + i,
                    y as int,
                    fg,
                    bg,
                ),
            decreases chs@.len() - i,
        {
            let c = chs[i];
            proof {
                assert(chs@.skip(i as int)[0] == chs@[i as int]);
                assert(chs@.skip(i as int).drop_first() =~= chs@.skip(i as int + 1));
            }
            self.put_cell(c, x + i, y, fg, bg);
            i = i + 1;
        }
        proof {
            if i < chs.len() {
                lemma_put_run_oob(self.cells@, w, h, chs@.skip(i as int), x as int + i, y as int, fg, bg);
            } else {
                assert(chs@.skip(i as int) =~= Seq::<char>::empty());
            }
        }
    }

    /// Fills the columns `from .. to` of row `y` with spaces in the given
    /// style; used by the widgets to erase what a previously longer line
    /// left behind.
    pub fn pad_row(&mut self, from: usize, to: usize, y: usize, fg: Color, bg: Color)
        requires
            old(self).wf(),
        ensures
            final(self).wf(),
            final(self).width == old(self).width,
            final(self).height == old(self).height,
            final(self).cells@ == pad_spec(
                old(self).cells@,
                old(self).width as int,
                old(self).height as int,
                from as int,
                to as int,
                y as int,
                fg,
                bg,
            ),
    {
        let ghost g0 = self.cells@;
        let ghost w = self.width as int;
        let ghost h = self.height as int;
        let mut pos = from;
        while pos < to
            invariant
                self.wf(),
                self.width as int == w,
                self.height as int == h,
                from <= pos,
                pos <= to || pos == from,
                pad_spec(g0, w, h, from as int, to as int, y as int, fg, bg) == pad_spec(
                    self.cells@,
                    w,
                    h,
                    pos as int,
                    to as int,
                    y as int,
                    fg,
                    bg,
                ),
            decreases to as int - pos as int,
        {
            self.put_cell(' ', pos, y, fg, bg);
            pos = pos + 1;
        }
    }

    /// Resets every cell to the default value; called once per frame before
    /// the widgets render, so stale content cannot persist.
    pub fn clear(&mut self)
        requires
            old(self).wf(),
        ensures
            final(self).wf(),
            final(self).width == old(self).width,
            final(self).height == old(self).height,
            final(self).cells@ == blank_grid(old(self).cells@.len()),
    {
        let n = self.cells.len();
        let mut i: usize = 0;
        while i < n
            invariant
                i <= n,
                self.cells@.len() == n,
                self.width == old(self).width,
                self.height == old(self).height,
                self.wf(),
                forall|j: int| 0 <= j < i ==> self.cells@[j] == default_cell(),
            decreases n - i,
        {
            self.cells[i] = Cell { ch: ' ', fg: Color::White, bg: Color::Black };
            i = i + 1;
        }
        proof {
            assert(self.cells@ =~= blank_grid(n as nat));
        }
    }

    /// The patch set between this grid (the new frame) and `other` (the
    /// previous frame): one patch per differing index, in ascending
    /// row-major order, carrying the value from this grid.  The two grids
    /// must have identical dimensions; that is a programming contract, not
    /// a runtime condition.
    pub fn diff(&self, other: &Self) -> (r: Vec<Patch>)
        requires
            self.wf(),
            other.wf(),
            self.width == other.width,
            self.height == other.height,
        ensures
            r@ == diff_seq(
                self.cells@,
                other.cells@,
                self.width as int,
                self.cells@.len() as int,
            ),
    {
        let n = self.cells.len();
        let mut r: Vec<Patch> = Vec::new();
        let mut i: usize = 0;
        while i < n
            invariant
                i <= n,
                n == self.cells@.len(),
                n == other.cells@.len(),
                self.wf(),
                r@ == diff_seq(self.cells@, other.cells@, self.width as int, i as int),
            decreases n - i,
        {
            proof {
                if self.width == 0 {
                    assert(self.cells@.len() == 0);
                }
            }
            let a = self.cells[i];
            let b = other.cells[i];
            if a != b {
                let p = Patch { cell: a, x: i % self.width, y: i / self.width };
                proof {
                    assert(0 <= (i as int) % (self.width as int) < self.width as int);
                    assert(0 <= (i as int) / (self.width as int) <= i as int) by (nonlinear_arith)
                        requires 0 <= i as int && self.width as int >= 1;
                }
                r.push(p);
            }
            i = i + 1;
        }
        r
    }
}

/// Appending one patch to a set and applying is applying the set, then the
/// patch.
proof fn lemma_apply_snoc(g: Seq<Cell>, ps: Seq<Patch>, p: Patch, w: int)
    ensures
        apply_seq(g, ps.push(p), w) == apply_patch_spec(apply_seq(g, ps, w), p, w),
    decreases ps.len(),
{
    if ps.len() == 0 {
        assert(ps.push(p)[0] == p);
        assert(ps.push(p).drop_first() =~= Seq::<Patch>::empty());
        assert(apply_seq(g, ps.push(p), w) == apply_seq(
            apply_patch_spec(g, p, w),
            Seq::<Patch>::empty(),
            w,
        ));
        assert(apply_seq(g, ps, w) == g);
    } else {
        assert(ps.push(p)[0] == ps[0]);
        assert(ps.push(p).drop_first() =~= ps.drop_first().push(p));
        lemma_apply_snoc(apply_patch_spec(g, ps[0], w), ps.drop_first(), p, w);
        assert(apply_seq(g, ps.push(p), w) == apply_seq(
            apply_patch_spec(g, ps[0], w),
            ps.drop_first().push(p),
            w,
        ));
    }
}

/// Applying the patches of the first `n` indices of `diff(a, b)` onto `b`
/// rewrites exactly those indices to `a`'s cells.
proof fn lemma_diff_apply_prefix(a: Seq<Cell>, b: Seq<Cell>, w: int, h: int, n: int)
    requires
        0 <= w <= usize::MAX,
        0 <= h,
        a.len() == w * h,
        b.len() == w * h,
        a.len() <= usize::MAX,
        0 <= n <= a.len(),
    ensures
        apply_seq(b, diff_seq(a, b, w, n), w).len() == b.len(),
        forall|j: int|
            0 <= j < b.len() ==> apply_seq(b, diff_seq(a, b, w, n), w)[j] == (if j < n {
                a[j]
            } else {
                b[j]
            }),
    decreases n,
{
    if n > 0 {
        lemma_diff_apply_prefix(a, b, w, h, n - 1);
        let prev = apply_seq(b, diff_seq(a, b, w, n - 1), w);
        if a[n - 1] == b[n - 1] {
            assert(diff_seq(a, b, w, n) == diff_seq(a, b, w, n - 1));
        } else {
            if w == 0 {
                assert(a.len() == 0);
            }
            assert(w >= 1);
            let x = (n - 1) % w;
            let y = (n - 1) / w;
            assert(0 <= x < w);
            assert(0 <= y <= n - 1) by (nonlinear_arith)
                requires w >= 1 && n >= 1 && y == (n - 1) / w;
            vstd::arithmetic::div_mod::lemma_fundamental_div_mod(n - 1, w);
            let p = Patch { cell: a[n - 1], x: x as usize, y: y as usize };
            assert(0 <= x <= usize::MAX);
            assert(0 <= y <= usize::MAX);
            assert(p.x as int == x);
            assert(p.y as int == y);
            assert(diff_seq(a, b, w, n) == diff_seq(a, b, w, n - 1).push(p));
            lemma_apply_snoc(b, diff_seq(a, b, w, n - 1), p, w);
            assert(p.y * w + p.x == n - 1);
        }
    }
}

/// Applying the patch set `diff(a, b)` onto grid `b` reconstructs grid `a`:
/// the diff carries every change needed to turn the previous frame into the
/// new one.
pub proof fn lemma_apply_diff_restores(a: Seq<Cell>, b: Seq<Cell>, w: int, h: int)
    requires
        0 <= w <= usize::MAX,
        0 <= h,
        a.len() == w * h,
        b.len() == w * h,
        a.len() <= usize::MAX,
    ensures
        apply_seq(b, diff_seq(a, b, w, a.len() as int), w) == a,
{
    lemma_diff_apply_prefix(a, b, w, h, a.len() as int);
    assert(apply_seq(b, diff_seq(a, b, w, a.len() as int), w) =~= a);
}

/// Diffing a grid against itself yields no patches.
pub proof fn lemma_diff_identical_empty(a: Seq<Cell>, w: int, n: int)
    requires
        0 <= n <= a.len(),
    ensures
        diff_seq(a, a, w, n) == Seq::<Patch>::empty(),
    decreases n,
{
    if n > 0 {
        lemma_diff_identical_empty(a, w, n - 1);
    }
}

} // verus!
