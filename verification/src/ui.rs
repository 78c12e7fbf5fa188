//! The frame pipeline: per-frame external state (terminal size, pointer,
//! background colour) and the orchestration of one frame — hit-test the
//! tree against the pointer, measure the tree, paint it into the virtual
//! display, and flush the changed cells as draw instructions for the
//! terminal sink.

use crate::block::Block;
use crate::pixel::DrawOp;
use crate::pixel::Pixel;
use crate::pixel::VirtualDisplay;
use crate::pixel::buffer_ops;
use crate::pixel::Color;
use vstd::prelude::*;

verus! {

/// One structured input event, as the boundary that reads the terminal
/// hands it over: a pointer pressed or dragged at a cell, a resize to a
/// new size, a key press, or anything else.
#[derive(Clone, Copy, Debug, PartialEq, Eq, Structural)]
pub enum InputEvent {
    PointerDown(u16, u16),
    PointerDrag(u16, u16),
    Resize(u16, u16),
    Key,
    Other,
}

/// Per-frame external state: the terminal size, where the pointer is held
/// down (if anywhere), the background colour, and the virtual display the
/// frame is painted into.
#[derive(Debug)]
pub struct Context {
    pub max: (u16, u16),
    pub click_pos: Option<(u16, u16)>,
    pub bg_color: Color,
    pub virtual_display: VirtualDisplay,
}

impl Context {
    /// The pointer cell `event` stands for: the pressed or dragged
    /// position, and nothing for every other event.
    pub open spec fn event_click_pos(event: InputEvent) -> Option<(u16, u16)> {
        match event {
            InputEvent::PointerDown(col, row) => Some((col, row)),
            InputEvent::PointerDrag(col, row) => Some((col, row)),
            _ => None,
        }
    }

    /// A fresh context for a terminal of `size` cells: red background, no
    /// click yet, and a blank display of that size.
    pub fn new(size: (u16, u16)) -> (ctx: Self)
        ensures
            ctx.max == size,
            ctx.click_pos is None,
            ctx.bg_color == Color::Red,
            ctx.virtual_display.wf(),
            ctx.virtual_display.spec_width() == size.0,
            ctx.virtual_display.spec_height() == size.1,
            ctx.virtual_display.all_blank(),
    {
        Context {
            bg_color: Color::Red,
            click_pos: None,
            max: size,
            virtual_display: VirtualDisplay::new(size.0, size.1),
        }
    }

    /// Adopt a new terminal size: remember it and reallocate the display,
    /// every cell back to the blank state.
    pub fn set_size(&mut self, new_size: (u16, u16))
        ensures
            final(self).max == new_size,
            final(self).click_pos == old(self).click_pos,
            final(self).bg_color == old(self).bg_color,
            final(self).virtual_display.wf(),
            final(self).virtual_display.spec_width() == new_size.0,
            final(self).virtual_display.spec_height() == new_size.1,
            final(self).virtual_display.all_blank(),
    {
        self.max = new_size;
        self.virtual_display.resize(new_size.0, new_size.1);
    }

    /// Translate one raw event into the pointer state the tree is asked
    /// about: a press or drag sets the click position, anything else
    /// clears it.
    pub fn process(&mut self, event: &InputEvent)
        ensures
            final(self).click_pos == Self::event_click_pos(*event),
            final(self).max == old(self).max,
            final(self).bg_color == old(self).bg_color,
            final(self).virtual_display == old(self).virtual_display,
    {
        self.click_pos = match event {
            InputEvent::PointerDown(col, row) => Some((*col, *row)),
            InputEvent::PointerDrag(col, row) => Some((*col, *row)),
            _ => None,
        };
    }
}

/// The grid as it stands after `b` is painted over `g`, cell by cell.
pub open spec fn painted_grid(b: Block, g: Seq<Seq<Pixel>>) -> Seq<Seq<Pixel>> {
    Seq::new(g.len(), |c: int| Seq::new(g[c].len(), |r: int| b.paint_pixel(g[c][r], c, r)))
}

/// The whole user interface: the root block of the layout tree.  The
/// terminal itself stays outside; a frame hands back the draw
/// instructions for its sink.
pub struct UI {
    pub root: Block,
}

impl UI {
    /// Run the paint half of a frame: measure the tree, paint it into the
    /// display, and flush the changed cells, in column-major order, as
    /// draw instructions.
    pub fn render(&mut self, ctx: &mut Context) -> (ops: Vec<DrawOp>)
        requires
            old(ctx).virtual_display.wf(),
            old(self).root.measurable(),
            old(self).root.measured_render_ok(
                old(ctx).virtual_display.spec_width() as int,
                old(ctx).virtual_display.spec_height() as int,
            ),
        ensures
            final(self).root.is_sized_of(old(self).root),
            final(ctx).max == old(ctx).max,
            final(ctx).click_pos == old(ctx).click_pos,
            final(ctx).bg_color == old(ctx).bg_color,
            final(ctx).virtual_display.wf(),
            final(ctx).virtual_display.spec_width() == old(ctx).virtual_display.spec_width(),
            final(ctx).virtual_display.spec_height() == old(ctx).virtual_display.spec_height(),
            final(ctx).virtual_display.all_clean(),
            forall|c: int, r: int|
                0 <= c < old(ctx).virtual_display.spec_width() && 0 <= r < old(
                    ctx,
                ).virtual_display.spec_height() ==> final(ctx).virtual_display.cell(c, r) == (Pixel {
                    changed: false,
                    ..final(self).root.paint_pixel(old(ctx).virtual_display.cell(c, r), c, r)
                }),
            ops@ == buffer_ops(painted_grid(final(self).root, old(ctx).virtual_display.grid())),
    {
        self.root.calc_self();
        proof {
            crate::block::lemma_sized_block_render_ok(
                self.root,
                old(self).root,
                old(ctx).virtual_display.spec_width() as int,
                old(ctx).virtual_display.spec_height() as int,
            );
        }
        let ghost d0 = ctx.virtual_display;
        self.root.render(&mut ctx.virtual_display);
        let ghost dmid = ctx.virtual_display;
        let ops = ctx.virtual_display.flush();
        proof {
            d0.lemma_grid();
            dmid.lemma_grid();
            assert(dmid.grid() =~~= painted_grid(self.root, d0.grid()));
        }
        ops
    }

    /// Run the input half of a frame: forward the context's pointer state
    /// to every widget in the tree.
    pub fn process(&mut self, ctx: &Context)
        requires
            old(self).root.process_ok(),
        ensures
            final(self).root.is_hit_of(old(self).root, ctx.click_pos),
    {
        self.root.process(ctx.click_pos);
    }
}

} // verus!
