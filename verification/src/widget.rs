//! A leaf of the layout tree: a line of text wrapped in a padding ring and
//! a margin ring.  A widget measures its own footprint from the two rings
//! and the text, and answers hit tests against the rectangle inside its
//! margin.

use crate::area::Area;
use crate::area::default_area;
use crate::pixel::Color;
use crate::pixel::Pixel;
use crate::pixel::VirtualDisplay;
use crate::pixel::written;
use vstd::prelude::*;
use vstd::string::StrSliceExecFns;

verus! {

/// A text leaf.  `size` is derived by [`Widget::calc_self`], never set by a
/// caller; it covers the text together with both rings.  `pos` becomes
/// meaningful once the widget is attached to a block.
pub struct Widget {
    pub text: String,
    pub padding: Area,
    pub margin: Area,
    pub size: (u16, u16),
    pub pos: (u16, u16),
    pub clicked: bool,
}

impl Widget {
    /// The width this widget measures to: both horizontal margin and
    /// padding thicknesses plus the text length.
    pub open spec fn measured_width(self) -> int {
        self.margin.left + self.margin.right + self.padding.left + self.padding.right
            + self.text@.len()
    }

    /// The height this widget measures to: the top margin and top padding
    /// counted once above and once below a single line of text.
    pub open spec fn measured_height(self) -> int {
        2 * self.margin.top + 2 * self.padding.top + 1
    }

    /// Both measurements fit the cell coordinate type.
    pub open spec fn measurable(self) -> bool {
        &&& self.measured_width() <= u16::MAX
        &&& self.measured_height() <= u16::MAX
    }

    /// This widget with its size brought up to date with its measurements.
    pub open spec fn sized(self) -> Widget {
        Widget {
            size: (self.measured_width() as u16, self.measured_height() as u16),
            ..self
        }
    }

    /// The pointer cell `p` lies inside the clickable rectangle: the
    /// footprint with the margin ring taken off.
    pub open spec fn contains(self, p: (u16, u16)) -> bool {
        &&& self.pos.0 + self.margin.left <= p.0 < self.pos.0 + self.size.0 - self.margin.right
        &&& self.pos.1 + self.margin.top <= p.1 < self.pos.1 + self.size.1 - self.margin.bottom
    }

    /// This widget with its clicked flag brought up to date with the
    /// pointer: set exactly when a pointer is present and inside the
    /// clickable rectangle.
    pub open spec fn hit(self, click_pos: Option<(u16, u16)>) -> Widget {
        Widget {
            clicked: match click_pos {
                Some(p) => self.contains(p),
                None => false,
            },
            ..self
        }
    }

    /// The arithmetic in a hit test stays within `u16`.
    pub open spec fn hit_ok(self) -> bool {
        &&& self.pos.0 + self.size.0 <= u16::MAX
        &&& self.pos.1 + self.size.1 <= u16::MAX
        &&& self.pos.0 + self.margin.left <= u16::MAX
        &&& self.pos.1 + self.margin.top <= u16::MAX
        &&& self.margin.right <= self.size.0
        &&& self.margin.bottom <= self.size.1
    }

    /// A fresh, detached widget: positioned at the origin, not clicked,
    /// with a one-cell `$` padding ring and a one-cell `#` margin ring.
    pub fn new(text: String) -> (w: Self)
        ensures
            w == (Widget {
                text: w.text,
                pos: (0u16, 0u16),
                clicked: false,
                padding: (Area { symbol: '$', ..default_area() }),
                size: (3u16, 3u16),
                margin: (Area { symbol: '#', ..default_area() }),
            }),
            w.text == text,
    {
        Widget {
            text,
            pos: (0, 0),
            clicked: false,
            padding: Area::default().symbol('$'),
            size: (3, 3),
            margin: Area::default().symbol('#'),
        }
    }

    /// Rebuild the padding through `f`, keeping everything else.
    pub fn padding<F: FnOnce(Area) -> Area>(self, f: F) -> (r: Self)
        requires
            f.requires((self.padding,)),
        ensures
            f.ensures((self.padding,), r.padding),
            r == (Widget { padding: r.padding, ..self }),
    {
        let padding = f(self.padding);
        Widget { padding, ..self }
    }

    /// Rebuild the margin through `f`, keeping everything else.
    pub fn margin<F: FnOnce(Area) -> Area>(self, f: F) -> (r: Self)
        requires
            f.requires((self.margin,)),
        ensures
            f.ensures((self.margin,), r.margin),
            r == (Widget { margin: r.margin, ..self }),
    {
        let margin = f(self.margin);
        Widget { margin, ..self }
    }

    /// Measure this widget and cache the result in `size`.
    pub fn calc_self(&mut self) -> (r: (u16, u16))
        requires
            old(self).measurable(),
        ensures
            *final(self) == old(self).sized(),
            r == final(self).size,
    {
        let len: usize = self.text.as_str().unicode_len();
        let width: u16 = self.margin.left + self.margin.right + self.padding.left
            + self.padding.right + (len as u16);
        let height: u16 = 2 * self.margin.top + 2 * self.padding.top + 1;
        self.size = (width, height);
        self.size
    }

    /// Bring the clicked flag up to date with the pointer.
    pub fn process(&mut self, click_pos: Option<(u16, u16)>)
        requires
            old(self).hit_ok(),
        ensures
            *final(self) == old(self).hit(click_pos),
    {
        match click_pos {
            Some((click_col, click_row)) => {
                let inside: bool = click_col >= self.pos.0 + self.margin.left && click_row
                    >= self.pos.1 + self.margin.top && click_col < self.pos.0 + self.size.0
                    - self.margin.right && click_row < self.pos.1 + self.size.1
                    - self.margin.bottom;
                self.clicked = inside;
            },
            None => {
                self.clicked = false;
            },
        }
    }
}

impl Widget {
    /// The cached size agrees with the measurements: what attaching the
    /// widget to a block establishes.
    pub open spec fn well_sized(self) -> bool {
        &&& self.size.0 as int == self.measured_width()
        &&& self.size.1 as int == self.measured_height()
    }

    /// The cell `(c, r)` lies under this widget's footprint.
    pub open spec fn covers(self, c: int, r: int) -> bool {
        &&& self.pos.0 <= c < self.pos.0 + self.size.0
        &&& self.pos.1 <= r < self.pos.1 + self.size.1
    }

    /// The glyph and colour this widget puts on a covered cell `(c, r)`:
    /// a character of the text — red when clicked, black otherwise — on
    /// the text line, the padding fill around it, and the margin fill on
    /// the outer ring.
    pub open spec fn paint_glyph(self, c: int, r: int) -> (char, Color) {
        let tcol = self.pos.0 + self.margin.left + self.padding.left;
        let trow = self.pos.1 + self.margin.top + self.padding.top;
        if r == trow && tcol <= c < tcol + self.text@.len() {
            (
                self.text@[c - tcol],
                if self.clicked {
                    Color::Red
                } else {
                    Color::Black
                },
            )
        } else if self.pos.1 + self.margin.top <= r < self.pos.1 + self.size.1 - self.margin.top
            && self.pos.0 + self.margin.left <= c < self.pos.0 + self.margin.left
            + self.padding.left + self.padding.right + self.text@.len() {
            (self.padding.symbol, self.padding.color)
        } else {
            (self.margin.symbol, self.margin.color)
        }
    }

    /// What painting this widget leaves in a cell that held `p`.
    pub open spec fn paint_pixel(self, p: Pixel, c: int, r: int) -> Pixel {
        if self.covers(c, r) {
            written(p, self.paint_glyph(c, r).0, self.paint_glyph(c, r).1)
        } else {
            p
        }
    }

    /// This widget is measured and its footprint stays inside a display of
    /// `width` by `height` cells.
    pub open spec fn render_ok(self, width: int, height: int) -> bool {
        &&& self.well_sized()
        &&& self.pos.0 + self.size.0 <= width
        &&& self.pos.1 + self.size.1 <= height
    }

    /// Paint this widget into the display: the margin ring, the padding
    /// ring, and the text, each cell written once.
    pub fn render(&self, display: &mut VirtualDisplay)
        requires
            old(display).wf(),
            self.render_ok(old(display).spec_width() as int, old(display).spec_height() as int),
        ensures
            final(display).wf(),
            final(display).spec_width() == old(display).spec_width(),
            final(display).spec_height() == old(display).spec_height(),
            forall|c: int, r: int|
                0 <= c < old(display).spec_width() && 0 <= r < old(display).spec_height()
                    ==> final(display).cell(c, r) == self.paint_pixel(
                    old(display).cell(c, r),
                    c,
                    r,
                ),
    {
        let ghost d0 = *display;
        let tlen: usize = self.text.as_str().unicode_len();
        let tcol: u16 = self.pos.0 + self.margin.left + self.padding.left;
        let trow: u16 = self.pos.1 + self.margin.top + self.padding.top;
        let pad_right: u16 = self.pos.0 + self.margin.left + self.padding.left
            + self.padding.right + (tlen as u16);
        let mut dc: u16 = 0;
        while dc < self.size.0
            invariant
                dc <= self.size.0,
                display.wf(),
                display.spec_width() == d0.spec_width(),
                display.spec_height() == d0.spec_height(),
                self.render_ok(d0.spec_width() as int, d0.spec_height() as int),
                tlen == self.text@.len(),
                tcol as int == self.pos.0 + self.margin.left + self.padding.left,
                trow as int == self.pos.1 + self.margin.top + self.padding.top,
                pad_right as int == self.pos.0 + self.margin.left + self.padding.left
                    + self.padding.right + self.text@.len(),
                forall|c: int, r: int|
                    0 <= c < d0.spec_width() && 0 <= r < d0.spec_height()
                        ==> #[trigger] display.cell(c, r) == (if self.covers(c, r) && c
                        < self.pos.0 + dc {
                        self.paint_pixel(d0.cell(c, r), c, r)
                    } else {
                        d0.cell(c, r)
                    }),
            decreases self.size.0 - dc,
        {
            let col: u16 = self.pos.0 + dc;
            let mut dr: u16 = 0;
            while dr < self.size.1
                invariant
                    dc < self.size.0,
                    dr <= self.size.1,
                    col == self.pos.0 + dc,
                    display.wf(),
                    display.spec_width() == d0.spec_width(),
                    display.spec_height() == d0.spec_height(),
                    self.render_ok(d0.spec_width() as int, d0.spec_height() as int),
                    tlen == self.text@.len(),
                    tcol as int == self.pos.0 + self.margin.left + self.padding.left,
                    trow as int == self.pos.1 + self.margin.top + self.padding.top,
                    pad_right as int == self.pos.0 + self.margin.left + self.padding.left
                        + self.padding.right + self.text@.len(),
                    forall|c: int, r: int|
                        0 <= c < d0.spec_width() && 0 <= r < d0.spec_height()
                            ==> #[trigger] display.cell(c, r) == (if self.covers(c, r) && (c
                            < self.pos.0 + dc || (c == self.pos.0 + dc && r < self.pos.1
                            + dr)) {
                            self.paint_pixel(d0.cell(c, r), c, r)
                        } else {
                            d0.cell(c, r)
                        }),
                decreases self.size.1 - dr,
            {
                let row: u16 = self.pos.1 + dr;
                let (glyph, color): (char, Color) = if row == trow && col >= tcol && ((col
                    - tcol) as usize) < tlen {
                    let ch: char = self.text.as_str().get_char((col - tcol) as usize);
                    (
                        ch,
                        if self.clicked {
                            Color::Red
                        } else {
                            Color::Black
                        },
                    )
                } else if row >= self.pos.1 + self.margin.top && row < self.pos.1 + self.size.1
                    - self.margin.top && col >= self.pos.0 + self.margin.left && col
                    < pad_right {
                    (self.padding.symbol, self.padding.color)
                } else {
                    (self.margin.symbol, self.margin.color)
                };
                proof {
                    assert(glyph == self.paint_glyph(col as int, row as int).0);
                    assert(color == self.paint_glyph(col as int, row as int).1);
                }
                display.set(col, row, glyph, color);
                dr = dr + 1;
            }
            dc = dc + 1;
        }
    }
}

/// Measuring is idempotent: measuring an already measured widget yields
/// the same widget, since the measurement reads only the margin, the
/// padding, and the text, never the cached size.
pub proof fn lemma_measure_idempotent(w: Widget)
    ensures
        w.sized().sized() == w.sized(),
{
}

/// A widget with no margin and no padding measures to exactly its text:
/// the width is the text length and the height is one line.
pub proof fn lemma_bare_widget_measure(w: Widget)
    requires
        w.margin.top == 0,
        w.margin.right == 0,
        w.margin.bottom == 0,
        w.margin.left == 0,
        w.padding.top == 0,
        w.padding.right == 0,
        w.padding.bottom == 0,
        w.padding.left == 0,
    ensures
        w.measured_width() == w.text@.len(),
        w.measured_height() == 1,
{
}

impl Widget {
    /// Compute the measurements, telling apart the widgets whose
    /// measurements overflow the cell coordinate type.
    pub fn try_measure(&self) -> (r: Option<(u16, u16)>)
        ensures
            r is Some <==> self.measurable(),
            r matches Some(s) ==> s.0 as int == self.measured_width() && s.1 as int
                == self.measured_height(),
    {
        let len: usize = self.text.as_str().unicode_len();
        if len > u16::MAX as usize {
            return None;
        }
        let width: u32 = self.margin.left as u32 + self.margin.right as u32
            + self.padding.left as u32 + self.padding.right as u32 + len as u32;
        let height: u32 = 2 * (self.margin.top as u32) + 2 * (self.padding.top as u32) + 1;
        if width > u16::MAX as u32 || height > u16::MAX as u32 {
            return None;
        }
        Some((width as u16, height as u16))
    }

    /// Decide whether a hit test on this widget stays within `u16`.
    pub fn hit_testable(&self) -> (r: bool)
        ensures
            r == self.hit_ok(),
    {
        self.pos.0 as u32 + self.size.0 as u32 <= u16::MAX as u32
            && self.pos.1 as u32 + self.size.1 as u32 <= u16::MAX as u32
            && self.pos.0 as u32 + self.margin.left as u32 <= u16::MAX as u32
            && self.pos.1 as u32 + self.margin.top as u32 <= u16::MAX as u32
            && self.margin.right <= self.size.0
            && self.margin.bottom <= self.size.1
    }
}

} // verus!
