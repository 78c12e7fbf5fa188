//! The layout tree: a block owns an ordered list of child nodes — nested
//! blocks or text widgets — and lays them out along one direction.  Sizes
//! are computed bottom-up (every child contributes its footprint on both
//! axes, on top of a fixed minimum), positions are assigned top-down, and
//! an inner cursor advances as children are appended, letting the margins
//! of neighbouring widgets collapse by the minimum rule.

use crate::pixel::Color;
use crate::pixel::Pixel;
use crate::pixel::VirtualDisplay;
use crate::pixel::written;
use crate::widget::Widget;
use vstd::prelude::*;

verus! {

/// The axis along which a block places the children appended to it.
#[derive(Clone, Copy, Debug, PartialEq, Eq, Structural)]
pub enum Direction {
    Vertical,
    Horizontal,
}

/// One node of the layout tree.
pub enum Element {
    Block(Block),
    Widget(Widget),
}

/// A container node.  `pos` and `size` are absolute once the block is
/// attached; `inner_pos` is the cursor where the next child is placed,
/// relative to the block's own position; `available_margin` is the
/// trailing margin of the last appended widget, offered to the next one
/// for collapsing.
pub struct Block {
    pub contents: Vec<Element>,
    pub pos: (u16, u16),
    pub size: (u16, u16),
    pub inner_pos: (u16, u16),
    pub available_margin: (u16, u16),
    pub direction: Direction,
}

/// The width and height that a block's fixed minimum footprint reserves on
/// each axis before any child is counted.
pub open spec fn base_footprint() -> (int, int) {
    (4, 4)
}

/// Total width and height contributed by a sequence of children: the sum
/// of every child's measured footprint, on both axes alike.
pub open spec fn sum_sizes(els: Seq<Element>) -> (int, int)
    decreases els,
{
    if els.len() == 0 {
        (0, 0)
    } else {
        let rest = sum_sizes(els.drop_last());
        let last = els.last().measured();
        (rest.0 + last.0, rest.1 + last.1)
    }
}

impl Element {
    /// The footprint this node measures to, bottom-up.
    pub open spec fn measured(self) -> (int, int)
        decreases self,
    {
        match self {
            Element::Widget(w) => (w.measured_width(), w.measured_height()),
            Element::Block(b) => b.measured(),
        }
    }

    /// Every measurement in this subtree fits the cell coordinate type.
    pub open spec fn measurable(self) -> bool
        decreases self,
    {
        match self {
            Element::Widget(w) => w.measurable(),
            Element::Block(b) => b.measurable(),
        }
    }

    /// `self` is `orig` with every size in the subtree brought up to date
    /// with its measurement, and nothing else touched.
    pub open spec fn is_sized_of(self, orig: Element) -> bool
        decreases orig,
    {
        match (self, orig) {
            (Element::Widget(w2), Element::Widget(w1)) => w2 == w1.sized(),
            (Element::Block(b2), Element::Block(b1)) => b2.is_sized_of(b1),
            _ => false,
        }
    }
}

impl Block {
    /// The footprint this block measures to: the fixed minimum plus the sum
    /// of the children's footprints on both axes.
    pub open spec fn measured(self) -> (int, int)
        decreases self,
    {
        (base_footprint().0 + sum_sizes(self.contents@).0, base_footprint().1 + sum_sizes(
            self.contents@,
        ).1)
    }

    /// Every measurement in this subtree fits the cell coordinate type.
    pub open spec fn measurable(self) -> bool
        decreases self,
    {
        &&& self.measured().0 <= u16::MAX
        &&& self.measured().1 <= u16::MAX
        &&& forall|i: int|
            0 <= i < self.contents@.len() ==> (#[trigger] self.contents@[i]).measurable()
    }

    /// `self` is `orig` with every size in the subtree brought up to date
    /// with its measurement, and nothing else touched.
    pub open spec fn is_sized_of(self, orig: Block) -> bool
        decreases orig,
    {
        &&& self.pos == orig.pos
        &&& self.inner_pos == orig.inner_pos
        &&& self.available_margin == orig.available_margin
        &&& self.direction == orig.direction
        &&& self.size.0 as int == orig.measured().0
        &&& self.size.1 as int == orig.measured().1
        &&& sized_children(self.contents@, orig.contents@)
    }
}

/// Every node of `new` is the measured version of the node of `orig` at
/// the same place.
pub open spec fn sized_children(new: Seq<Element>, orig: Seq<Element>) -> bool
    decreases orig,
{
    if orig.len() == 0 {
        new.len() == 0
    } else {
        &&& new.len() == orig.len()
        &&& new.last().is_sized_of(orig.last())
        &&& sized_children(new.drop_last(), orig.drop_last())
    }
}

/// What [`sized_children`] says of each place in the two sequences.
pub proof fn lemma_sized_children_index(new: Seq<Element>, orig: Seq<Element>, i: int)
    requires
        sized_children(new, orig),
        0 <= i < orig.len(),
    ensures
        new[i].is_sized_of(orig[i]),
    decreases orig,
{
    if i < orig.len() - 1 {
        lemma_sized_children_index(new.drop_last(), orig.drop_last(), i);
        assert(new.drop_last()[i] == new[i]);
    }
}

/// Every measured footprint is non-negative.
pub proof fn lemma_measured_nonneg(el: Element)
    ensures
        el.measured().0 >= 0,
        el.measured().1 >= 0,
    decreases el,
{
    match el {
        Element::Widget(_) => {},
        Element::Block(b) => {
            lemma_sum_sizes_nonneg(b.contents@);
        },
    }
}

/// The contribution of a child sequence is non-negative.
pub proof fn lemma_sum_sizes_nonneg(els: Seq<Element>)
    ensures
        sum_sizes(els).0 >= 0,
        sum_sizes(els).1 >= 0,
    decreases els,
{
    if els.len() > 0 {
        lemma_sum_sizes_nonneg(els.drop_last());
        lemma_measured_nonneg(els.last());
    }
}

/// Measure one node and cache the result throughout its subtree; hand back
/// the node together with its measured footprint.
fn calc_element(el: Element) -> (r: (Element, u16, u16))
    requires
        el.measurable(),
    ensures
        r.0.is_sized_of(el),
        r.1 as int == el.measured().0,
        r.2 as int == el.measured().1,
    decreases el,
{
    match el {
        Element::Widget(mut w) => {
            let s = w.calc_self();
            (Element::Widget(w), s.0, s.1)
        },
        Element::Block(mut b) => {
            b.calc_self();
            let s = b.size;
            (Element::Block(b), s.0, s.1)
        },
    }
}

/// Measure a whole child list; hand back the measured children in their
/// original order together with the summed footprint.
fn calc_elements(mut els: Vec<Element>) -> (r: (Vec<Element>, u16, u16))
    requires
        forall|i: int| 0 <= i < els@.len() ==> (#[trigger] els@[i]).measurable(),
        sum_sizes(els@).0 <= u16::MAX,
        sum_sizes(els@).1 <= u16::MAX,
    ensures
        sized_children(r.0@, els@),
        r.1 as int == sum_sizes(els@).0,
        r.2 as int == sum_sizes(els@).1,
    decreases els@,
{
    let ghost orig = els@;
    if els.len() == 0 {
        return (els, 0, 0);
    }
    let last = els.pop().unwrap();
    proof {
        assert(els@ == orig.drop_last());
        assert(orig.last() == last);
        lemma_sum_sizes_nonneg(els@);
        lemma_measured_nonneg(last);
    }
    let (mut rest, w0, h0) = calc_elements(els);
    let (last2, lw, lh) = calc_element(last);
    let ghost rest0 = rest@;
    rest.push(last2);
    proof {
        assert(rest@.drop_last() =~= rest0);
        assert(rest@.last() == last2);
    }
    (rest, w0 + lw, h0 + lh)
}

impl Block {
    /// A fresh block at `pos`: no children, the default footprint, the
    /// cursor just inside the border, laying out horizontally.
    pub fn new(pos: (u16, u16)) -> (b: Self)
        ensures
            b.pos == pos,
            b.size == (3u16, 3u16),
            b.inner_pos == (2u16, 2u16),
            b.available_margin == (0u16, 0u16),
            b.direction == Direction::Horizontal,
            b.contents@ == Seq::<Element>::empty(),
    {
        Block {
            pos,
            size: (3, 3),
            inner_pos: (2, 2),
            available_margin: (0, 0),
            contents: Vec::new(),
            direction: Direction::Horizontal,
        }
    }

    /// Measure this block bottom-up: measure every child subtree, then take
    /// the fixed minimum footprint plus the children's footprints on both
    /// axes.
    pub fn calc_self(&mut self)
        requires
            old(self).measurable(),
        ensures
            final(self).is_sized_of(*old(self)),
        decreases *old(self),
    {
        let mut contents: Vec<Element> = Vec::new();
        core::mem::swap(&mut self.contents, &mut contents);
        let (contents2, w, h) = calc_elements(contents);
        self.contents = contents2;
        self.size = (4 + w, 4 + h);
    }
}

impl Block {
    /// The position arithmetic of attaching this block under an offset of
    /// `parent` stays within `u16`, throughout the subtree.
    pub open spec fn place_ok(self, parent: (u16, u16)) -> bool
        decreases self,
    {
        &&& self.pos.0 + parent.0 <= u16::MAX
        &&& self.pos.1 + parent.1 <= u16::MAX
        &&& self.measurable()
        &&& forall|i: int|
            0 <= i < self.contents@.len() ==> child_place_ok(
                #[trigger] self.contents@[i],
                parent,
                self.inner_pos,
            )
    }

    /// `self` is `orig` as [`Block::calc_parent`] leaves it: shifted by
    /// `parent` and measured throughout, every widget child displaced by
    /// the same `parent` offset this block received, and every nested
    /// block displaced in turn by this block's inner cursor.
    pub open spec fn is_placed_of(self, orig: Block, parent: (u16, u16)) -> bool
        decreases orig,
    {
        &&& self.pos.0 as int == orig.pos.0 + parent.0
        &&& self.pos.1 as int == orig.pos.1 + parent.1
        &&& self.inner_pos == orig.inner_pos
        &&& self.available_margin == orig.available_margin
        &&& self.direction == orig.direction
        &&& self.size.0 as int == orig.measured().0
        &&& self.size.1 as int == orig.measured().1
        &&& placed_children(self.contents@, orig.contents@, parent, orig.inner_pos)
    }
}

/// The position arithmetic of one child stays within `u16` when its
/// enclosing block is displaced by `delta` and offers `inner` as the
/// offset for nested blocks.
pub open spec fn child_place_ok(el: Element, delta: (u16, u16), inner: (u16, u16)) -> bool
    decreases el,
{
    match el {
        Element::Widget(w) => w.pos.0 + delta.0 <= u16::MAX && w.pos.1 + delta.1 <= u16::MAX,
        Element::Block(b) => b.place_ok(inner),
    }
}

/// Every node of `new` is the node of `orig` at the same place, attached
/// under a displacement of `delta` with `inner` as the nested blocks'
/// offset.
pub open spec fn placed_children(
    new: Seq<Element>,
    orig: Seq<Element>,
    delta: (u16, u16),
    inner: (u16, u16),
) -> bool
    decreases orig,
{
    if orig.len() == 0 {
        new.len() == 0
    } else {
        &&& new.len() == orig.len()
        &&& placed_child(new.last(), orig.last(), delta, inner)
        &&& placed_children(new.drop_last(), orig.drop_last(), delta, inner)
    }
}

/// How one child comes out of placing its parent: a widget child is
/// displaced by the same `delta` its enclosing block received and
/// measured, so it keeps its position relative to that block; a nested
/// block is attached under the enclosing block's inner cursor.
pub open spec fn placed_child(
    new: Element,
    orig: Element,
    delta: (u16, u16),
    inner: (u16, u16),
) -> bool
    decreases orig,
{
    match (new, orig) {
        (Element::Widget(w2), Element::Widget(w1)) => w2 == (Widget {
            pos: (((w1.pos.0 + delta.0) as u16), ((w1.pos.1 + delta.1) as u16)),
            ..w1
        }).sized(),
        (Element::Block(b2), Element::Block(b1)) => b2.is_placed_of(b1, inner),
        _ => false,
    }
}

/// Attach one node: a widget is displaced by `delta` and measured, a
/// nested block is shifted by `inner` and laid out recursively.  Hands
/// back the node with its measured footprint.
fn place_element(el: Element, delta: (u16, u16), inner: (u16, u16)) -> (r: (Element, u16, u16))
    requires
        el.measurable(),
        child_place_ok(el, delta, inner),
    ensures
        placed_child(r.0, el, delta, inner),
        r.1 as int == el.measured().0,
        r.2 as int == el.measured().1,
    decreases el,
{
    match el {
        Element::Widget(mut w) => {
            w.pos = (w.pos.0 + delta.0, w.pos.1 + delta.1);
            let s = w.calc_self();
            (Element::Widget(w), s.0, s.1)
        },
        Element::Block(mut b) => {
            b.calc_parent(inner);
            let s = b.size;
            (Element::Block(b), s.0, s.1)
        },
    }
}

/// Attach a whole child list; hand back the children in their original
/// order together with the summed footprint.
fn place_elements(mut els: Vec<Element>, delta: (u16, u16), inner: (u16, u16)) -> (r: (
    Vec<Element>,
    u16,
    u16,
))
    requires
        forall|i: int| 0 <= i < els@.len() ==> (#[trigger] els@[i]).measurable(),
        forall|i: int| 0 <= i < els@.len() ==> child_place_ok(#[trigger] els@[i], delta, inner),
        sum_sizes(els@).0 <= u16::MAX,
        sum_sizes(els@).1 <= u16::MAX,
    ensures
        placed_children(r.0@, els@, delta, inner),
        r.1 as int == sum_sizes(els@).0,
        r.2 as int == sum_sizes(els@).1,
    decreases els@,
{
    let ghost orig = els@;
    if els.len() == 0 {
        return (els, 0, 0);
    }
    let last = els.pop().unwrap();
    proof {
        assert(els@ == orig.drop_last());
        assert(orig.last() == last);
        lemma_sum_sizes_nonneg(els@);
        lemma_measured_nonneg(last);
    }
    let (mut rest, w0, h0) = place_elements(els, delta, inner);
    let (last2, lw, lh) = place_element(last, delta, inner);
    let ghost rest0 = rest@;
    rest.push(last2);
    proof {
        assert(rest@.drop_last() =~= rest0);
        assert(rest@.last() == last2);
    }
    (rest, w0 + lw, h0 + lh)
}

impl Block {
    /// Attach this block under an offset of `parent_pos`: shift its own
    /// position and every widget child by that offset — the subtree keeps
    /// its geometry relative to this block — attach every nested block
    /// under the inner cursor, measure the whole subtree, and cache the
    /// measured footprint.
    pub fn calc_parent(&mut self, parent_pos: (u16, u16))
        requires
            old(self).place_ok(parent_pos),
        ensures
            final(self).is_placed_of(*old(self), parent_pos),
        decreases *old(self),
    {
        self.pos = (self.pos.0 + parent_pos.0, self.pos.1 + parent_pos.1);
        let mut contents: Vec<Element> = Vec::new();
        core::mem::swap(&mut self.contents, &mut contents);
        let (contents2, w, h) = place_elements(contents, parent_pos, self.inner_pos);
        self.contents = contents2;
        self.size = (4 + w, 4 + h);
    }
}

/// The overlap by which a widget's leading margin collapses into the
/// margin its predecessor left available: the smaller of the two.
pub open spec fn overlap(avail: u16, lead: u16) -> u16 {
    if avail <= lead {
        avail
    } else {
        lead
    }
}

impl Block {
    /// The widget `w` as it comes to rest when pushed onto this block:
    /// shifted to the inner cursor, pulled back by the collapsed margin
    /// overlap, and measured.
    pub open spec fn attached_widget(self, w: Widget) -> Widget {
        let adj0 = overlap(self.available_margin.0, w.margin.left);
        let adj1 = overlap(self.available_margin.1, w.margin.top);
        (Widget {
            pos: (
                ((w.pos.0 + self.pos.0 + self.inner_pos.0 - adj0) as u16),
                ((w.pos.1 + self.pos.1 + self.inner_pos.1 - adj1) as u16),
            ),
            ..w
        }).sized()
    }

    /// Where the inner cursor stands after `w` is pushed: advanced along
    /// the layout direction by the widget's footprint less the collapsed
    /// overlap.
    pub open spec fn widget_inner_pos(self, w: Widget) -> (u16, u16) {
        let adj0 = overlap(self.available_margin.0, w.margin.left);
        let adj1 = overlap(self.available_margin.1, w.margin.top);
        match self.direction {
            Direction::Horizontal => (
                ((self.inner_pos.0 + w.measured_width() - adj0) as u16),
                self.inner_pos.1,
            ),
            Direction::Vertical => (
                self.inner_pos.0,
                ((self.inner_pos.1 + w.measured_height() - adj1) as u16),
            ),
        }
    }

    /// The margin `w` leaves available for the next widget on the active
    /// axis: its trailing margin.
    pub open spec fn widget_available_margin(self, w: Widget) -> (u16, u16) {
        match self.direction {
            Direction::Horizontal => (w.margin.right, self.available_margin.1),
            Direction::Vertical => (self.available_margin.0, w.margin.bottom),
        }
    }

    /// The displacement a block child receives when it is attached here:
    /// this block's absolute position plus its inner cursor.
    pub open spec fn attach_offset(self) -> (u16, u16) {
        (((self.pos.0 + self.inner_pos.0) as u16), ((self.pos.1 + self.inner_pos.1) as u16))
    }

    /// The arithmetic of pushing `el` onto this block stays within `u16`.
    pub open spec fn push_ok(self, el: Element) -> bool {
        match el {
            Element::Widget(w) => {
                let adj0 = overlap(self.available_margin.0, w.margin.left);
                let adj1 = overlap(self.available_margin.1, w.margin.top);
                &&& w.measurable()
                &&& adj0 <= w.pos.0 + self.pos.0 + self.inner_pos.0 <= u16::MAX
                &&& adj1 <= w.pos.1 + self.pos.1 + self.inner_pos.1 <= u16::MAX
                &&& (self.direction == Direction::Horizontal ==> self.inner_pos.0
                    + w.measured_width() - adj0 <= u16::MAX)
                &&& (self.direction == Direction::Vertical ==> self.inner_pos.1
                    + w.measured_height() - adj1 <= u16::MAX)
            },
            Element::Block(b) => {
                &&& self.pos.0 + self.inner_pos.0 <= u16::MAX
                &&& self.pos.1 + self.inner_pos.1 <= u16::MAX
                &&& b.place_ok(self.attach_offset())
            },
        }
    }

    /// Append one node.  A widget is placed at the inner cursor with its
    /// leading margin collapsed against the available margin, and the
    /// cursor advances along the layout direction; a nested block is
    /// attached under the cursor, its whole subtree carried along with
    /// it, and the cursor stays put.  Hands back a reference to the node
    /// as it was inserted.
    pub fn push(&mut self, w: Element) -> (r: &Element)
        requires
            old(self).push_ok(w),
        ensures
            final(self).pos == old(self).pos,
            final(self).size == old(self).size,
            final(self).direction == old(self).direction,
            final(self).contents@.len() == old(self).contents@.len() + 1,
            forall|i: int|
                0 <= i < old(self).contents@.len() ==> final(self).contents@[i] == old(
                    self,
                ).contents@[i],
            *r == final(self).contents@.last(),
            match w {
                Element::Widget(wid) => {
                    &&& final(self).contents@.last() == Element::Widget(
                        old(self).attached_widget(wid),
                    )
                    &&& final(self).inner_pos == old(self).widget_inner_pos(wid)
                    &&& final(self).available_margin == old(self).widget_available_margin(wid)
                },
                Element::Block(b) => {
                    &&& final(self).contents@.last() matches Element::Block(c)
                        && c.is_placed_of(b, old(self).attach_offset())
                    &&& final(self).inner_pos == old(self).inner_pos
                    &&& final(self).available_margin == old(self).available_margin
                },
            },
    {
        let el2: Element = match w {
            Element::Block(mut block) => {
                block.calc_parent((self.pos.0 + self.inner_pos.0, self.pos.1 + self.inner_pos.1));
                Element::Block(block)
            },
            Element::Widget(mut widget) => {
                let adj0: u16 = if self.available_margin.0 <= widget.margin.left {
                    self.available_margin.0
                } else {
                    widget.margin.left
                };
                let adj1: u16 = if self.available_margin.1 <= widget.margin.top {
                    self.available_margin.1
                } else {
                    widget.margin.top
                };
                widget.pos = (
                    widget.pos.0 + self.pos.0 + self.inner_pos.0 - adj0,
                    widget.pos.1 + self.pos.1 + self.inner_pos.1 - adj1,
                );
                widget.calc_self();
                match self.direction {
                    Direction::Horizontal => {
                        self.inner_pos = (self.inner_pos.0 + (widget.size.0 - adj0), self.inner_pos.1);
                        self.available_margin = (widget.margin.right, self.available_margin.1);
                    },
                    Direction::Vertical => {
                        self.inner_pos = (self.inner_pos.0, self.inner_pos.1 + (widget.size.1 - adj1));
                        self.available_margin = (self.available_margin.0, widget.margin.bottom);
                    },
                }
                Element::Widget(widget)
            },
        };
        self.contents.push(el2);
        let idx: usize = self.contents.len() - 1;
        &self.contents[idx]
    }
}

impl Element {
    /// Every widget in this subtree can be hit-tested within `u16`.
    pub open spec fn process_ok(self) -> bool
        decreases self,
    {
        match self {
            Element::Widget(w) => w.hit_ok(),
            Element::Block(b) => b.process_ok(),
        }
    }

    /// `self` is `orig` with every widget's clicked flag brought up to
    /// date with the pointer, and nothing else touched.
    pub open spec fn is_hit_of(self, orig: Element, click_pos: Option<(u16, u16)>) -> bool
        decreases orig,
    {
        match (self, orig) {
            (Element::Widget(w2), Element::Widget(w1)) => w2 == w1.hit(click_pos),
            (Element::Block(b2), Element::Block(b1)) => b2.is_hit_of(b1, click_pos),
            _ => false,
        }
    }
}

impl Block {
    /// Every widget in this subtree can be hit-tested within `u16`.
    pub open spec fn process_ok(self) -> bool
        decreases self,
    {
        forall|i: int|
            0 <= i < self.contents@.len() ==> (#[trigger] self.contents@[i]).process_ok()
    }

    /// `self` is `orig` with every widget's clicked flag brought up to
    /// date with the pointer, and nothing else touched.
    pub open spec fn is_hit_of(self, orig: Block, click_pos: Option<(u16, u16)>) -> bool
        decreases orig,
    {
        &&& self.pos == orig.pos
        &&& self.size == orig.size
        &&& self.inner_pos == orig.inner_pos
        &&& self.available_margin == orig.available_margin
        &&& self.direction == orig.direction
        &&& hit_children(self.contents@, orig.contents@, click_pos)
    }
}

/// Every node of `new` is the node of `orig` at the same place with its
/// widgets' clicked flags brought up to date.
pub open spec fn hit_children(
    new: Seq<Element>,
    orig: Seq<Element>,
    click_pos: Option<(u16, u16)>,
) -> bool
    decreases orig,
{
    if orig.len() == 0 {
        new.len() == 0
    } else {
        &&& new.len() == orig.len()
        &&& new.last().is_hit_of(orig.last(), click_pos)
        &&& hit_children(new.drop_last(), orig.drop_last(), click_pos)
    }
}

/// What [`hit_children`] says of each place in the two sequences.
pub proof fn lemma_hit_children_index(
    new: Seq<Element>,
    orig: Seq<Element>,
    click_pos: Option<(u16, u16)>,
    i: int,
)
    requires
        hit_children(new, orig, click_pos),
        0 <= i < orig.len(),
    ensures
        new[i].is_hit_of(orig[i], click_pos),
    decreases orig,
{
    if i < orig.len() - 1 {
        lemma_hit_children_index(new.drop_last(), orig.drop_last(), click_pos, i);
        assert(new.drop_last()[i] == new[i]);
    }
}

/// Hit-test one node against the pointer.
fn hit_element(el: Element, click_pos: Option<(u16, u16)>) -> (r: Element)
    requires
        el.process_ok(),
    ensures
        r.is_hit_of(el, click_pos),
    decreases el,
{
    match el {
        Element::Widget(mut w) => {
            w.process(click_pos);
            Element::Widget(w)
        },
        Element::Block(mut b) => {
            b.process(click_pos);
            Element::Block(b)
        },
    }
}

/// Hit-test a whole child list against the pointer.
fn hit_elements(mut els: Vec<Element>, click_pos: Option<(u16, u16)>) -> (r: Vec<Element>)
    requires
        forall|i: int| 0 <= i < els@.len() ==> (#[trigger] els@[i]).process_ok(),
    ensures
        hit_children(r@, els@, click_pos),
    decreases els@,
{
    let ghost orig = els@;
    if els.len() == 0 {
        return els;
    }
    let last = els.pop().unwrap();
    proof {
        assert(els@ == orig.drop_last());
        assert(orig.last() == last);
    }
    let mut rest = hit_elements(els, click_pos);
    let last2 = hit_element(last, click_pos);
    let ghost rest0 = rest@;
    rest.push(last2);
    proof {
        assert(rest@.drop_last() =~= rest0);
        assert(rest@.last() == last2);
    }
    rest
}

impl Block {
    /// Forward the pointer to every node below this block; the block
    /// itself has no clickable surface.
    pub fn process(&mut self, click_pos: Option<(u16, u16)>)
        requires
            old(self).process_ok(),
        ensures
            final(self).is_hit_of(*old(self), click_pos),
        decreases *old(self),
    {
        let mut contents: Vec<Element> = Vec::new();
        core::mem::swap(&mut self.contents, &mut contents);
        let contents2 = hit_elements(contents, click_pos);
        self.contents = contents2;
    }
}

impl Block {
    /// The cell `(c, r)` lies under this block's footprint.
    pub open spec fn covers(self, c: int, r: int) -> bool {
        &&& self.pos.0 <= c < self.pos.0 + self.size.0
        &&& self.pos.1 <= r < self.pos.1 + self.size.1
    }

    /// The cell `(c, r)` lies in the cleared region one cell inside the
    /// border.
    pub open spec fn interior(self, c: int, r: int) -> bool {
        &&& self.pos.0 + 1 <= c < self.pos.0 + self.size.0 - 1
        &&& self.pos.1 + 1 <= r < self.pos.1 + self.size.1 - 1
    }

    /// The glyph and colour the block itself puts on a covered cell: the
    /// border fill on the outer ring, a cleared cell inside.
    pub open spec fn own_glyph(self, c: int, r: int) -> (char, Color) {
        if self.interior(c, r) {
            (' ', Color::White)
        } else {
            ('#', Color::White)
        }
    }

    /// What painting this block and, over it, its children in insertion
    /// order leaves in a cell that held `p`.  A later child overpaints an
    /// earlier one where they overlap.
    pub open spec fn paint_pixel(self, p: Pixel, c: int, r: int) -> Pixel
        decreases self, 1int,
    {
        let own = if self.covers(c, r) {
            written(p, self.own_glyph(c, r).0, self.own_glyph(c, r).1)
        } else {
            p
        };
        seq_paint_pixel(self.contents@, own, c, r)
    }

    /// This block is drawable: its footprint has the border's thickness,
    /// stays inside a display of `width` by `height` cells, and so do all
    /// its children.
    pub open spec fn render_ok(self, width: int, height: int) -> bool
        decreases self, 1int,
    {
        &&& 1 <= self.size.0
        &&& 1 <= self.size.1
        &&& self.pos.0 + self.size.0 <= width
        &&& self.pos.1 + self.size.1 <= height
        &&& seq_render_ok(self.contents@, width, height)
    }
}

impl Element {
    /// What painting this node leaves in a cell that held `p`.
    pub open spec fn paint_pixel(self, p: Pixel, c: int, r: int) -> Pixel
        decreases self, 2int,
    {
        match self {
            Element::Widget(w) => w.paint_pixel(p, c, r),
            Element::Block(b) => b.paint_pixel(p, c, r),
        }
    }

    /// This node is drawable inside a display of `width` by `height` cells.
    pub open spec fn render_ok(self, width: int, height: int) -> bool
        decreases self, 2int,
    {
        match self {
            Element::Widget(w) => w.render_ok(width, height),
            Element::Block(b) => b.render_ok(width, height),
        }
    }
}

/// What painting the nodes of `els` in order leaves in a cell that held
/// `p`: each node paints over what the ones before it left.
pub open spec fn seq_paint_pixel(els: Seq<Element>, p: Pixel, c: int, r: int) -> Pixel
    decreases els, 0int,
{
    if els.len() == 0 {
        p
    } else {
        els.last().paint_pixel(seq_paint_pixel(els.drop_last(), p, c, r), c, r)
    }
}

/// Every node of `els` is drawable inside `width` by `height` cells.
pub open spec fn seq_render_ok(els: Seq<Element>, width: int, height: int) -> bool
    decreases els, 0int,
{
    forall|i: int| 0 <= i < els.len() ==> (#[trigger] els[i]).render_ok(width, height)
}

/// Paint one node into the display.
fn render_element(el: &Element, display: &mut VirtualDisplay)
    requires
        old(display).wf(),
        el.render_ok(old(display).spec_width() as int, old(display).spec_height() as int),
    ensures
        final(display).wf(),
        final(display).spec_width() == old(display).spec_width(),
        final(display).spec_height() == old(display).spec_height(),
        forall|c: int, r: int|
            0 <= c < old(display).spec_width() && 0 <= r < old(display).spec_height()
                ==> final(display).cell(c, r) == el.paint_pixel(old(display).cell(c, r), c, r),
    decreases el, 2int,
{
    match el {
        Element::Widget(w) => {
            w.render(display);
        },
        Element::Block(b) => {
            b.render(display);
        },
    }
}

/// Paint the first `n` nodes of `els`, in order, into the display.
fn render_elements(els: &Vec<Element>, n: usize, display: &mut VirtualDisplay)
    requires
        n <= els@.len(),
        old(display).wf(),
        seq_render_ok(els@, old(display).spec_width() as int, old(display).spec_height() as int),
    ensures
        final(display).wf(),
        final(display).spec_width() == old(display).spec_width(),
        final(display).spec_height() == old(display).spec_height(),
        forall|c: int, r: int|
            0 <= c < old(display).spec_width() && 0 <= r < old(display).spec_height()
                ==> final(display).cell(c, r) == seq_paint_pixel(
                els@.subrange(0, n as int),
                old(display).cell(c, r),
                c,
                r,
            ),
    decreases els@, 3int, n,
{
    if n == 0 {
        return ;
    }
    render_elements(els, n - 1, display);
    render_element(&els[n - 1], display);
    proof {
        assert(els@.subrange(0, n as int).drop_last() =~= els@.subrange(0, n as int - 1));
        assert(els@.subrange(0, n as int).last() == els@[n as int - 1]);
    }
}

impl Block {
    /// Paint this block into the display: the border ring, the cleared
    /// interior, then every child in insertion order, later children over
    /// earlier ones.
    pub fn render(&self, display: &mut VirtualDisplay)
        requires
            old(display).wf(),
            self.render_ok(old(display).spec_width() as int, old(display).spec_height() as int),
        ensures
            final(display).wf(),
            final(display).spec_width() == old(display).spec_width(),
            final(display).spec_height() == old(display).spec_height(),
            forall|c: int, r: int|
                0 <= c < old(display).spec_width() && 0 <= r < old(display).spec_height()
                    ==> final(display).cell(c, r) == self.paint_pixel(
                    old(display).cell(c, r),
                    c,
                    r,
                ),
        decreases self, 4int,
    {
        let ghost d0 = *display;
        let mut dc: u16 = 0;
        while dc < self.size.0
            invariant
                dc <= self.size.0,
                display.wf(),
                display.spec_width() == d0.spec_width(),
                display.spec_height() == d0.spec_height(),
                self.render_ok(d0.spec_width() as int, d0.spec_height() as int),
                forall|c: int, r: int|
                    0 <= c < d0.spec_width() && 0 <= r < d0.spec_height()
                        ==> #[trigger] display.cell(c, r) == (if self.covers(c, r) && c
                        < self.pos.0 + dc {
                        written(d0.cell(c, r), self.own_glyph(c, r).0, self.own_glyph(c, r).1)
                    } else {
                        d0.cell(c, r)
                    }),
            decreases self.size.0 - dc,
        {
            let col: u16 = self.pos.0 + dc;
            let mut dr: u16 = 0;
            while dr < self.size.1
                invariant
                    dc < self.size.0,
                    dr <= self.size.1,
                    col == self.pos.0 + dc,
                    display.wf(),
                    display.spec_width() == d0.spec_width(),
                    display.spec_height() == d0.spec_height(),
                    self.render_ok(d0.spec_width() as int, d0.spec_height() as int),
                    forall|c: int, r: int|
                        0 <= c < d0.spec_width() && 0 <= r < d0.spec_height()
                            ==> #[trigger] display.cell(c, r) == (if self.covers(c, r) && (c
                            < self.pos.0 + dc || (c == self.pos.0 + dc && r < self.pos.1
                            + dr)) {
                            written(d0.cell(c, r), self.own_glyph(c, r).0, self.own_glyph(c, r).1)
                        } else {
                            d0.cell(c, r)
                        }),
                decreases self.size.1 - dr,
            {
                let row: u16 = self.pos.1 + dr;
                let interior: bool = col >= self.pos.0 + 1 && col < self.pos.0 + self.size.0 - 1
                    && row >= self.pos.1 + 1 && row < self.pos.1 + self.size.1 - 1;
                let (glyph, color): (char, Color) = if interior {
                    (' ', Color::White)
                } else {
                    ('#', Color::White)
                };
                proof {
                    assert(glyph == self.own_glyph(col as int, row as int).0);
                    assert(color == self.own_glyph(col as int, row as int).1);
                }
                display.set(col, row, glyph, color);
                dr = dr + 1;
            }
            dc = dc + 1;
        }
        let ghost dmid = *display;
        render_elements(&self.contents, self.contents.len(), display);
        proof {
            assert(self.contents@.subrange(0, self.contents@.len() as int) =~= self.contents@);
            assert forall|c: int, r: int|
                0 <= c < d0.spec_width() && 0 <= r < d0.spec_height() implies display.cell(c, r)
                == self.paint_pixel(d0.cell(c, r), c, r) by {
                assert(display.cell(c, r) == seq_paint_pixel(
                    self.contents@,
                    dmid.cell(c, r),
                    c,
                    r,
                ));
            }
        }
    }
}

impl Element {
    /// The node will be drawable inside `width` by `height` cells once it
    /// is measured: the bound [`Element::render_ok`] asks of the cached
    /// size, asked of the measurement instead.
    pub open spec fn measured_render_ok(self, width: int, height: int) -> bool
        decreases self, 1int,
    {
        match self {
            Element::Widget(w) => w.sized().render_ok(width, height),
            Element::Block(b) => b.measured_render_ok(width, height),
        }
    }
}

impl Block {
    /// The block will be drawable inside `width` by `height` cells once it
    /// is measured.
    pub open spec fn measured_render_ok(self, width: int, height: int) -> bool
        decreases self, 0int,
    {
        &&& self.pos.0 + self.measured().0 <= width
        &&& self.pos.1 + self.measured().1 <= height
        &&& forall|i: int|
            0 <= i < self.contents@.len() ==> (#[trigger] self.contents@[i]).measured_render_ok(
                width,
                height,
            )
    }
}

/// A measured tree that fit the display before measuring still fits: the
/// cached sizes equal the measurements the bound was asked of.
pub proof fn lemma_sized_render_ok(new: Element, orig: Element, width: int, height: int)
    requires
        new.is_sized_of(orig),
        orig.measured_render_ok(width, height),
    ensures
        new.render_ok(width, height),
    decreases orig,
{
    match (new, orig) {
        (Element::Widget(_), Element::Widget(_)) => {},
        (Element::Block(b2), Element::Block(b1)) => {
            lemma_sized_block_render_ok(b2, b1, width, height);
        },
        _ => {},
    }
}

/// The block form of [`lemma_sized_render_ok`].
pub proof fn lemma_sized_block_render_ok(new: Block, orig: Block, width: int, height: int)
    requires
        new.is_sized_of(orig),
        orig.measured_render_ok(width, height),
    ensures
        new.render_ok(width, height),
    decreases orig,
{
    lemma_sum_sizes_nonneg(orig.contents@);
    assert forall|i: int| 0 <= i < new.contents@.len() implies (#[trigger] new.contents@[i]).render_ok(
        width,
        height,
    ) by {
        lemma_sized_children_index(new.contents@, orig.contents@, i);
        lemma_sized_render_ok(new.contents@[i], orig.contents@[i], width, height);
    }
}

/// A block with no children measures to exactly the fixed minimum
/// footprint.
pub proof fn lemma_empty_block_measure(b: Block)
    requires
        b.contents@.len() == 0,
    ensures
        b.measured() == base_footprint(),
{
}

/// When a widget's leading margin equals the non-zero margin its
/// predecessor left available, the two margins collapse: along the
/// horizontal direction the inner cursor advances by the widget's width
/// less the shared margin — strictly less than the width plus the margin
/// that naive stacking would take.
pub proof fn lemma_margin_collapse(b: Block, w: Widget)
    requires
        b.direction == Direction::Horizontal,
        b.available_margin.0 == w.margin.left,
        w.margin.left > 0,
        b.push_ok(Element::Widget(w)),
    ensures
        b.widget_inner_pos(w).0 == b.inner_pos.0 + w.measured_width() - w.margin.left,
        b.widget_inner_pos(w).0 - b.inner_pos.0 < w.measured_width() + w.margin.left,
{
}

/// Exactly the widgets whose clickable rectangle holds the pointer are
/// marked clicked; when there is no pointer, no widget is.
pub open spec fn widgets_marked(el: Element, click_pos: Option<(u16, u16)>) -> bool
    decreases el,
{
    match el {
        Element::Widget(w) => w.clicked == (click_pos matches Some(p) && w.contains(p)),
        Element::Block(b) => forall|i: int|
            0 <= i < b.contents@.len() ==> widgets_marked(#[trigger] b.contents@[i], click_pos),
    }
}

/// A hit test marks exactly the widgets whose clickable rectangle holds
/// the pointer, throughout the tree; passing no pointer clears every
/// widget.
pub proof fn lemma_hit_marks_exactly(new: Element, orig: Element, click_pos: Option<(u16, u16)>)
    requires
        new.is_hit_of(orig, click_pos),
    ensures
        widgets_marked(new, click_pos),
    decreases orig,
{
    match (new, orig) {
        (Element::Widget(_), Element::Widget(_)) => {},
        (Element::Block(b2), Element::Block(b1)) => {
            assert forall|i: int| 0 <= i < b2.contents@.len() implies widgets_marked(
                #[trigger] b2.contents@[i],
                click_pos,
            ) by {
                lemma_hit_children_index(b2.contents@, b1.contents@, click_pos, i);
                lemma_hit_marks_exactly(b2.contents@[i], b1.contents@[i], click_pos);
            }
        },
        _ => {},
    }
}

/// Compute the summed measurements of the first `n` nodes of `els`,
/// telling apart the lists whose nodes or sums overflow the cell
/// coordinate type.
fn try_measure_children(els: &Vec<Element>, n: usize) -> (r: Option<(u16, u16)>)
    requires
        n <= els@.len(),
    ensures
        r is Some <==> ((forall|i: int| 0 <= i < n ==> (#[trigger] els@[i]).measurable())
            && sum_sizes(els@.subrange(0, n as int)).0 <= u16::MAX && sum_sizes(
            els@.subrange(0, n as int),
        ).1 <= u16::MAX),
        r matches Some(s) ==> s.0 as int == sum_sizes(els@.subrange(0, n as int)).0 && s.1 as int
            == sum_sizes(els@.subrange(0, n as int)).1,
    decreases els@, 3int, n,
{
    let ghost sub = els@.subrange(0, n as int);
    if n == 0 {
        proof {
            assert(sub =~= Seq::<Element>::empty());
        }
        return Some((0, 0));
    }
    proof {
        assert(sub.drop_last() =~= els@.subrange(0, n as int - 1));
        assert(sub.last() == els@[n as int - 1]);
        lemma_measured_nonneg(els@[n as int - 1]);
        lemma_sum_sizes_nonneg(els@.subrange(0, n as int - 1));
    }
    let rest = match try_measure_children(els, n - 1) {
        Some(rest) => rest,
        None => {
            return None;
        },
    };
    let last = match try_measure_element(&els[n - 1]) {
        Some(last) => last,
        None => {
            return None;
        },
    };
    let width: u32 = rest.0 as u32 + last.0 as u32;
    let height: u32 = rest.1 as u32 + last.1 as u32;
    if width > u16::MAX as u32 || height > u16::MAX as u32 {
        return None;
    }
    Some((width as u16, height as u16))
}

/// Compute one node's measurements, telling apart the subtrees in which a
/// measurement overflows the cell coordinate type.
fn try_measure_element(el: &Element) -> (r: Option<(u16, u16)>)
    ensures
        r is Some <==> el.measurable(),
        r matches Some(s) ==> s.0 as int == el.measured().0 && s.1 as int == el.measured().1,
    decreases el, 4int,
{
    match el {
        Element::Widget(w) => w.try_measure(),
        Element::Block(b) => b.try_measure(),
    }
}

impl Block {
    /// Compute this block's measurements, telling apart the subtrees in
    /// which a measurement overflows the cell coordinate type: the
    /// executable form of [`Block::measurable`] and [`Block::measured`],
    /// for callers that cannot know them ahead of time.
    pub fn try_measure(&self) -> (r: Option<(u16, u16)>)
        ensures
            r is Some <==> self.measurable(),
            r matches Some(s) ==> s.0 as int == self.measured().0 && s.1 as int
                == self.measured().1,
        decreases self, 5int,
    {
        let inner = match try_measure_children(&self.contents, self.contents.len()) {
            Some(inner) => inner,
            None => {
                proof {
                    assert(self.contents@.subrange(0, self.contents@.len() as int)
                        =~= self.contents@);
                }
                return None;
            },
        };
        proof {
            assert(self.contents@.subrange(0, self.contents@.len() as int) =~= self.contents@);
        }
        let width: u32 = 4 + inner.0 as u32;
        let height: u32 = 4 + inner.1 as u32;
        if width > u16::MAX as u32 || height > u16::MAX as u32 {
            return None;
        }
        Some((width as u16, height as u16))
    }
}

/// Decide whether the first `n` nodes of `els` will be drawable inside
/// `width` by `height` cells once they are measured.
fn fits_children(els: &Vec<Element>, n: usize, width: u16, height: u16) -> (r: bool)
    requires
        n <= els@.len(),
    ensures
        r == forall|i: int|
            0 <= i < n ==> (#[trigger] els@[i]).measurable() && els@[i].measured_render_ok(
                width as int,
                height as int,
            ),
    decreases els@, 3int, n,
{
    if n == 0 {
        return true;
    }
    fits_children(els, n - 1, width, height) && fits_element(&els[n - 1], width, height)
}

/// Decide whether one node will be drawable inside `width` by `height`
/// cells once it is measured.
fn fits_element(el: &Element, width: u16, height: u16) -> (r: bool)
    ensures
        r == (el.measurable() && el.measured_render_ok(width as int, height as int)),
    decreases el, 4int,
{
    match el {
        Element::Widget(w) => {
            match w.try_measure() {
                Some(s) => {
                    w.pos.0 as u32 + s.0 as u32 <= width as u32 && w.pos.1 as u32 + s.1 as u32
                        <= height as u32
                },
                None => false,
            }
        },
        Element::Block(b) => b.fits(width, height),
    }
}

impl Block {
    /// Decide whether this tree will be drawable inside `width` by
    /// `height` cells once it is measured: the executable form of the
    /// preconditions a frame asks for, for callers that cannot know them
    /// ahead of time.
    pub fn fits(&self, width: u16, height: u16) -> (r: bool)
        ensures
            r == (self.measurable() && self.measured_render_ok(width as int, height as int)),
        decreases self, 5int,
    {
        let s = match self.try_measure() {
            Some(s) => s,
            None => {
                return false;
            },
        };
        if !(self.pos.0 as u32 + s.0 as u32 <= width as u32 && self.pos.1 as u32 + s.1 as u32
            <= height as u32) {
            return false;
        }
        let r = fits_children(&self.contents, self.contents.len(), width, height);
        proof {
            if r {
                assert forall|i: int|
                    0 <= i < self.contents@.len() implies (#[trigger] self.contents@[i]).measured_render_ok(
                    width as int,
                    height as int,
                ) by {}
            } else {
                assert(!(self.measurable() && self.measured_render_ok(
                    width as int,
                    height as int,
                )));
            }
        }
        r
    }
}

/// Decide whether a hit test stays within `u16` for every widget among
/// the first `n` nodes of `els`.
fn hit_testable_children(els: &Vec<Element>, n: usize) -> (r: bool)
    requires
        n <= els@.len(),
    ensures
        r == forall|i: int| 0 <= i < n ==> (#[trigger] els@[i]).process_ok(),
    decreases els@, 3int, n,
{
    if n == 0 {
        return true;
    }
    hit_testable_children(els, n - 1) && hit_testable_element(&els[n - 1])
}

/// Decide whether a hit test stays within `u16` throughout one node.
fn hit_testable_element(el: &Element) -> (r: bool)
    ensures
        r == el.process_ok(),
    decreases el, 4int,
{
    match el {
        Element::Widget(w) => w.hit_testable(),
        Element::Block(b) => b.hit_testable(),
    }
}

impl Block {
    /// Decide whether a hit test stays within `u16` throughout this tree:
    /// the executable form of [`Block::process_ok`], for callers that
    /// cannot know it ahead of time.
    pub fn hit_testable(&self) -> (r: bool)
        ensures
            r == self.process_ok(),
        decreases self, 5int,
    {
        hit_testable_children(&self.contents, self.contents.len())
    }
}

/// Decide [`child_place_ok`] for each of the first `n` nodes of `els`.
fn can_place_children(els: &Vec<Element>, n: usize, delta: (u16, u16), inner: (u16, u16)) -> (r:
    bool)
    requires
        n <= els@.len(),
    ensures
        r == forall|i: int| 0 <= i < n ==> child_place_ok(#[trigger] els@[i], delta, inner),
    decreases els@, 3int, n,
{
    if n == 0 {
        return true;
    }
    can_place_children(els, n - 1, delta, inner) && can_place_element(&els[n - 1], delta, inner)
}

/// Decide [`child_place_ok`] for one node.
fn can_place_element(el: &Element, delta: (u16, u16), inner: (u16, u16)) -> (r: bool)
    ensures
        r == child_place_ok(*el, delta, inner),
    decreases el, 4int,
{
    match el {
        Element::Widget(w) => {
            w.pos.0 as u32 + delta.0 as u32 <= u16::MAX as u32 && w.pos.1 as u32 + delta.1 as u32
                <= u16::MAX as u32
        },
        Element::Block(b) => b.can_place(inner),
    }
}

impl Block {
    /// Decide whether this block can be attached under `offset` without
    /// the position arithmetic leaving `u16`: the executable form of
    /// [`Block::place_ok`], for callers that cannot know it ahead of time.
    pub fn can_place(&self, offset: (u16, u16)) -> (r: bool)
        ensures
            r == self.place_ok(offset),
        decreases self, 5int,
    {
        if !(self.pos.0 as u32 + offset.0 as u32 <= u16::MAX as u32 && self.pos.1 as u32
            + offset.1 as u32 <= u16::MAX as u32) {
            return false;
        }
        match self.try_measure() {
            Some(_) => {},
            None => {
                return false;
            },
        }
        can_place_children(&self.contents, self.contents.len(), offset, self.inner_pos)
    }

    /// Decide whether `el` can be pushed onto this block without the
    /// position arithmetic leaving `u16`: the executable form of
    /// [`Block::push_ok`], for callers that cannot know it ahead of time.
    pub fn can_push(&self, el: &Element) -> (r: bool)
        ensures
            r == self.push_ok(*el),
    {
        match el {
            Element::Widget(w) => {
                let s = match w.try_measure() {
                    Some(s) => s,
                    None => {
                        return false;
                    },
                };
                let adj0: u16 = if self.available_margin.0 <= w.margin.left {
                    self.available_margin.0
                } else {
                    w.margin.left
                };
                let adj1: u16 = if self.available_margin.1 <= w.margin.top {
                    self.available_margin.1
                } else {
                    w.margin.top
                };
                let sum0: u32 = w.pos.0 as u32 + self.pos.0 as u32 + self.inner_pos.0 as u32;
                let sum1: u32 = w.pos.1 as u32 + self.pos.1 as u32 + self.inner_pos.1 as u32;
                if !(adj0 as u32 <= sum0 && sum0 <= u16::MAX as u32) {
                    return false;
                }
                if !(adj1 as u32 <= sum1 && sum1 <= u16::MAX as u32) {
                    return false;
                }
                match self.direction {
                    Direction::Horizontal => self.inner_pos.0 as u32 + s.0 as u32 <= u16::MAX
                        as u32 + adj0 as u32,
                    Direction::Vertical => self.inner_pos.1 as u32 + s.1 as u32 <= u16::MAX as u32
                        + adj1 as u32,
                }
            },
            Element::Block(b) => {
                if !(self.pos.0 as u32 + self.inner_pos.0 as u32 <= u16::MAX as u32
                    && self.pos.1 as u32 + self.inner_pos.1 as u32 <= u16::MAX as u32) {
                    return false;
                }
                b.can_place((self.pos.0 + self.inner_pos.0, self.pos.1 + self.inner_pos.1))
            },
        }
    }
}

} // verus!
