//! The virtual display: a double-buffered grid of character cells.
//!
//! Every paint operation goes through [`VirtualDisplay::set`], which records
//! the glyph and colour of one cell and marks the cell changed when the new
//! value differs from the old one.  Flushing the display hands back draw
//! instructions for exactly the changed cells and clears their flags, so a
//! frame only touches the parts of the terminal that are out of date.

use vstd::prelude::*;

verus! {

/// A foreground colour as the terminal sink understands it.
#[derive(Clone, Copy, Debug, PartialEq, Eq, Structural)]
pub enum Color {
    White,
    Red,
    Black,
    Reset,
}

/// One cell of the virtual display: a glyph, its colour, and whether the
/// cell changed since the last flush.
#[derive(Clone, Copy, Debug, PartialEq, Eq, Structural)]
pub struct Pixel {
    pub glyph: char,
    pub color: Color,
    pub changed: bool,
}

/// The state of a cell that has never been painted: a blank, white,
/// unchanged pixel.
pub open spec fn blank() -> Pixel {
    Pixel { glyph: ' ', color: Color::White, changed: false }
}

/// The value a cell takes when `(glyph, color)` is written over `p`: the
/// changed flag is kept once set, and is raised whenever the written value
/// differs from the stored one.
pub open spec fn written(p: Pixel, glyph: char, color: Color) -> Pixel {
    Pixel { glyph, color, changed: p.changed || glyph != p.glyph || color != p.color }
}

impl Default for Pixel {
    fn default() -> (p: Self)
        ensures
            p == blank(),
    {
        Pixel { glyph: ' ', color: Color::White, changed: false }
    }
}

/// One instruction for the terminal sink: draw `glyph` in `color` at cell
/// `(col, row)`.
#[derive(Clone, Copy, Debug, PartialEq, Eq, Structural)]
pub struct DrawOp {
    pub col: u16,
    pub row: u16,
    pub glyph: char,
    pub color: Color,
}

/// The character grid a frame is painted into before anything reaches the
/// terminal.  Cells are indexed by `(column, row)`; both indices start at
/// zero and are bounded by the current size.
#[derive(Debug)]
pub struct VirtualDisplay {
    width: u16,
    height: u16,
    cols: Vec<Vec<Pixel>>,
}

impl VirtualDisplay {
    /// Number of columns.
    pub closed spec fn spec_width(self) -> u16 {
        self.width
    }

    /// Number of rows.
    pub closed spec fn spec_height(self) -> u16 {
        self.height
    }

    /// The cell stored at `(col, row)`.
    pub closed spec fn cell(self, col: int, row: int) -> Pixel {
        self.cols@[col]@[row]
    }

    /// The grid really has one entry per column and row of the stated size.
    pub closed spec fn wf(self) -> bool {
        &&& self.cols@.len() == self.width as int
        &&& forall|c: int|
            0 <= c < self.cols@.len() ==> (#[trigger] self.cols@[c])@.len() == self.height as int
    }

    /// Every cell is in the never-painted state.
    pub open spec fn all_blank(self) -> bool {
        forall|c: int, r: int|
            0 <= c < self.spec_width() && 0 <= r < self.spec_height() ==> #[trigger] self.cell(
                c,
                r,
            ) == blank()
    }

    /// No cell is marked changed.
    pub open spec fn all_clean(self) -> bool {
        forall|c: int, r: int|
            0 <= c < self.spec_width() && 0 <= r < self.spec_height() ==> !(#[trigger] self.cell(
                c,
                r,
            )).changed
    }

    /// A fresh display of the given size, with every cell blank.
    pub fn new(width: u16, height: u16) -> (d: Self)
        ensures
            d.wf(),
            d.spec_width() == width,
            d.spec_height() == height,
            d.all_blank(),
    {
        let mut cols: Vec<Vec<Pixel>> = Vec::new();
        let mut c: u16 = 0;
        while c < width
            invariant
                c <= width,
                cols@.len() == c as int,
                forall|i: int|
                    0 <= i < c as int ==> (#[trigger] cols@[i])@.len() == height as int,
                forall|i: int, j: int|
                    0 <= i < c as int && 0 <= j < height as int ==> #[trigger] cols@[i]@[j]
                        == blank(),
            decreases width as int - c as int,
        {
            let mut column: Vec<Pixel> = Vec::new();
            let mut r: u16 = 0;
            while r < height
                invariant
                    r <= height,
                    column@.len() == r as int,
                    forall|j: int| 0 <= j < r as int ==> column@[j] == blank(),
                decreases height as int - r as int,
            {
                column.push(Pixel::default());
                r = r + 1;
            }
            cols.push(column);
            c = c + 1;
        }
        VirtualDisplay { width, height, cols }
    }

    /// Throw the old grid away and allocate a blank one of the new size.
    pub fn resize(&mut self, width: u16, height: u16)
        ensures
            final(self).wf(),
            final(self).spec_width() == width,
            final(self).spec_height() == height,
            final(self).all_blank(),
    {
        *self = VirtualDisplay::new(width, height);
    }

    /// Read one cell.
    pub fn get(&self, col: u16, row: u16) -> (p: Pixel)
        requires
            self.wf(),
            (col as int) < self.spec_width(),
            (row as int) < self.spec_height(),
        ensures
            p == self.cell(col as int, row as int),
    {
        self.cols[col as usize][row as usize]
    }

    /// Write `(glyph, color)` into the cell at `(col, row)`, marking it
    /// changed when the stored value differs.
    pub fn set(&mut self, col: u16, row: u16, glyph: char, color: Color)
        requires
            old(self).wf(),
            (col as int) < old(self).spec_width(),
            (row as int) < old(self).spec_height(),
        ensures
            final(self).wf(),
            final(self).spec_width() == old(self).spec_width(),
            final(self).spec_height() == old(self).spec_height(),
            final(self).cell(col as int, row as int) == written(
                old(self).cell(col as int, row as int),
                glyph,
                color,
            ),
            forall|c: int, r: int|
                0 <= c < old(self).spec_width() && 0 <= r < old(self).spec_height() && !(c
                    == col as int && r == row as int) ==> final(self).cell(c, r) == old(self).cell(
                    c,
                    r,
                ),
    {
        let cur: Pixel = self.cols[col as usize][row as usize];
        let chg: bool = cur.changed || glyph != cur.glyph || color != cur.color;
        let px = Pixel { glyph, color, changed: chg };
        let column = &mut self.cols[col as usize];
        column[row as usize] = px;
    }
}

/// The draw instructions one column at index `ci` contributes to a flush:
/// one per changed cell, in row order.
pub open spec fn column_ops(ci: int, col: Seq<Pixel>) -> Seq<DrawOp>
    decreases col,
{
    if col.len() == 0 {
        Seq::empty()
    } else {
        column_ops(ci, col.drop_last()) + (if col.last().changed {
            seq![
                DrawOp {
                    col: ci as u16,
                    row: (col.len() - 1) as u16,
                    glyph: col.last().glyph,
                    color: col.last().color,
                },
            ]
        } else {
            Seq::empty()
        })
    }
}

/// The draw instructions a whole grid contributes to a flush: the changed
/// cells in column-major, then row-major order.
pub open spec fn buffer_ops(g: Seq<Seq<Pixel>>) -> Seq<DrawOp>
    decreases g,
{
    if g.len() == 0 {
        Seq::empty()
    } else {
        buffer_ops(g.drop_last()) + column_ops(g.len() - 1, g.last())
    }
}

/// A column with no changed cell contributes no instruction.
pub proof fn lemma_clean_column_no_ops(ci: int, col: Seq<Pixel>)
    requires
        forall|r: int| 0 <= r < col.len() ==> !(#[trigger] col[r]).changed,
    ensures
        column_ops(ci, col) == Seq::<DrawOp>::empty(),
    decreases col,
{
    if col.len() > 0 {
        lemma_clean_column_no_ops(ci, col.drop_last());
        assert(column_ops(ci, col) =~= Seq::<DrawOp>::empty());
    }
}

/// A grid with no changed cell contributes no instruction.
pub proof fn lemma_clean_grid_no_ops(g: Seq<Seq<Pixel>>)
    requires
        forall|c: int, r: int|
            0 <= c < g.len() && 0 <= r < g[c].len() ==> !(#[trigger] g[c][r]).changed,
    ensures
        buffer_ops(g) == Seq::<DrawOp>::empty(),
    decreases g,
{
    if g.len() > 0 {
        lemma_clean_grid_no_ops(g.drop_last());
        lemma_clean_column_no_ops(g.len() - 1, g.last());
        assert(buffer_ops(g) =~= Seq::<DrawOp>::empty());
    }
}

impl VirtualDisplay {
    /// The whole grid as a sequence of columns.
    pub closed spec fn grid(self) -> Seq<Seq<Pixel>> {
        Seq::new(self.cols@.len() as nat, |c: int| self.cols@[c]@)
    }

    /// How [`VirtualDisplay::grid`] relates to the sizes and cells.
    pub proof fn lemma_grid(self)
        requires
            self.wf(),
        ensures
            self.grid().len() == self.spec_width() as int,
            forall|c: int|
                0 <= c < self.spec_width() ==> (#[trigger] self.grid()[c]).len()
                    == self.spec_height() as int,
            forall|c: int, r: int|
                0 <= c < self.spec_width() && 0 <= r < self.spec_height()
                    ==> #[trigger] self.grid()[c][r] == self.cell(c, r),
    {
    }

    /// After a flush nothing is dirty, so flushing again without any write
    /// in between emits no draw instruction.
    pub proof fn lemma_flush_twice_empty(self)
        requires
            self.wf(),
            self.all_clean(),
        ensures
            buffer_ops(self.grid()) == Seq::<DrawOp>::empty(),
    {
        self.lemma_grid();
        lemma_clean_grid_no_ops(self.grid());
    }

    /// Emit one draw instruction for every changed cell, in column-major,
    /// then row-major order, and clear all changed flags.
    pub fn flush(&mut self) -> (ops: Vec<DrawOp>)
        requires
            old(self).wf(),
        ensures
            final(self).wf(),
            final(self).spec_width() == old(self).spec_width(),
            final(self).spec_height() == old(self).spec_height(),
            forall|c: int, r: int|
                0 <= c < old(self).spec_width() && 0 <= r < old(self).spec_height()
                    ==> final(self).cell(c, r) == (Pixel {
                    changed: false,
                    ..old(self).cell(c, r)
                }),
            final(self).all_clean(),
            ops@ == buffer_ops(old(self).grid()),
    {
        proof {
            old(self).lemma_grid();
        }
        let ghost g0 = old(self).grid();
        let mut ops: Vec<DrawOp> = Vec::new();
        let width: u16 = self.width;
        let height: u16 = self.height;
        let mut c: u16 = 0;
        proof {
            assert(g0.subrange(0, 0) =~= Seq::<Seq<Pixel>>::empty());
        }
        while c < width
            invariant
                c <= width,
                self.wf(),
                self.spec_width() == width,
                self.spec_height() == height,
                g0.len() == width as int,
                forall|cc: int|
                    0 <= cc < width ==> (#[trigger] g0[cc]).len() == height as int,
                forall|cc: int, r: int|
                    0 <= cc < width && 0 <= r < height ==> #[trigger] self.cell(cc, r) == (
                    if cc < c as int {
                        Pixel { changed: false, ..g0[cc][r] }
                    } else {
                        g0[cc][r]
                    }),
                ops@ == buffer_ops(g0.subrange(0, c as int)),
            decreases width as int - c as int,
        {
            let mut r: u16 = 0;
            proof {
                assert(g0[c as int].subrange(0, 0) =~= Seq::<Pixel>::empty());
            }
            while r < height
                invariant
                    c < width,
                    r <= height,
                    self.wf(),
                    self.spec_width() == width,
                    self.spec_height() == height,
                    g0.len() == width as int,
                    forall|cc: int|
                        0 <= cc < width ==> (#[trigger] g0[cc]).len() == height as int,
                    forall|cc: int, rr: int|
                        0 <= cc < width && 0 <= rr < height ==> #[trigger] self.cell(cc, rr) == (
                        if cc < c as int || (cc == c as int && rr < r as int) {
                            Pixel { changed: false, ..g0[cc][rr] }
                        } else {
                            g0[cc][rr]
                        }),
                    ops@ == buffer_ops(g0.subrange(0, c as int)) + column_ops(
                        c as int,
                        g0[c as int].subrange(0, r as int),
                    ),
                decreases height as int - r as int,
            {
                let cur: Pixel = self.cols[c as usize][r as usize];
                proof {
                    assert(self.cell(c as int, r as int) == g0[c as int][r as int]);
                    assert(cur == g0[c as int][r as int]);
                }
                if cur.changed {
                    ops.push(DrawOp { col: c, row: r, glyph: cur.glyph, color: cur.color });
                    let column = &mut self.cols[c as usize];
                    column[r as usize] = Pixel { changed: false, ..cur };
                }
                proof {
                    let suba = g0[c as int].subrange(0, r as int);
                    let sub1 = g0[c as int].subrange(0, r as int + 1);
                    assert(sub1.drop_last() =~= suba);
                    assert(sub1.last() == g0[c as int][r as int]);
                    let a = buffer_ops(g0.subrange(0, c as int));
                    let b = column_ops(c as int, suba);
                    if cur.changed {
                        let op = DrawOp { col: c, row: r, glyph: cur.glyph, color: cur.color };
                        assert(column_ops(c as int, sub1) == b + seq![op]);
                        assert(ops@ =~= a + (b + seq![op]));
                        assert(a + (b + seq![op]) =~= a + column_ops(c as int, sub1));
                    } else {
                        assert(column_ops(c as int, sub1) == b + Seq::<DrawOp>::empty());
                        assert(b + Seq::<DrawOp>::empty() =~= b);
                        assert(ops@ == a + b);
                    }
                    assert(ops@ == a + column_ops(c as int, sub1));
                }
                r = r + 1;
            }
            proof {
                let sub1 = g0.subrange(0, c as int + 1);
                assert(sub1.drop_last() =~= g0.subrange(0, c as int));
                assert(sub1.last() == g0[c as int]);
                assert(g0[c as int].subrange(0, height as int) =~= g0[c as int]);
            }
            c = c + 1;
        }
        proof {
            assert(g0.subrange(0, width as int) =~= g0);
        }
        ops
    }
}

} // verus!
