use bad_tui::{AreaShort, Block, Direction, Element, Widget};

fn bare(text: &str) -> Widget {
    let mut w = Widget::new(String::from(text));
    w.margin = w.margin.set(AreaShort::Uniform(0));
    w.padding = w.padding.set(AreaShort::Uniform(0));
    w
}

fn uniform_margin(text: &str, m: u16) -> Widget {
    let mut w = Widget::new(String::from(text));
    w.margin = w.margin.set(AreaShort::Uniform(m));
    w.padding = w.padding.set(AreaShort::Uniform(0));
    w
}

fn widget_of(el: &Element) -> &Widget {
    match el {
        Element::Widget(w) => w,
        Element::Block(_) => panic!("expected a widget"),
    }
}

#[test]
fn first_widget_lands_at_the_inner_cursor() {
    let mut b = Block::new((0, 0));
    let r = b.push(Element::Widget(bare("A")));
    let w = widget_of(r);
    // the fresh block's cursor starts at (2, 2)
    assert_eq!(w.pos, (2, 2));
    assert_eq!(w.size, (1, 1));
}

#[test]
fn horizontal_push_advances_the_column_cursor() {
    let mut b = Block::new((0, 0));
    b.push(Element::Widget(bare("A")));
    let r = b.push(Element::Widget(bare("BB")));
    let w = widget_of(r);
    // "A" is one cell wide, so "BB" lands one column further
    assert_eq!(w.pos, (3, 2));
    assert_eq!(w.size, (2, 1));
}

#[test]
fn equal_margins_collapse_on_the_second_widget() {
    // "A" with uniform margin 2 is 2+1+2 = 5 cells wide, so after pushing
    // it the cursor stands at column 2 + 5 = 7 and 2 cells of trailing
    // margin are available.  "B" leads with margin 2 as well: the two
    // margins collapse by their minimum, and "B" lands 2 cells to the
    // left of the cursor.
    let mut b = Block::new((0, 0));
    b.push(Element::Widget(uniform_margin("A", 2)));
    let second = widget_of(b.push(Element::Widget(uniform_margin("B", 2)))).pos;
    assert_eq!(second, (7 - 2, 2));

    // and the cursor advanced by the width less the overlap: the third
    // widget proves where the cursor now stands
    let third = widget_of(b.push(Element::Widget(uniform_margin("C", 0)))).pos;
    assert_eq!(third.0, 7 + 5 - 2);
}

#[test]
fn margin_collapse_uses_the_smaller_margin() {
    // the predecessor leaves 2 cells, the successor leads with 5: only 2
    // collapse
    let mut b = Block::new((0, 0));
    b.push(Element::Widget(uniform_margin("A", 2)));
    let second = widget_of(b.push(Element::Widget(uniform_margin("B", 5)))).pos;
    assert_eq!(second, (7 - 2, 2));
}

#[test]
fn vertical_push_advances_the_row_cursor() {
    let mut b = Block::new((0, 0));
    b.direction = Direction::Vertical;
    b.push(Element::Widget(bare("A")));
    let r = b.push(Element::Widget(bare("B")));
    let w = widget_of(r);
    // "A" is one cell high, so "B" lands one row further down
    assert_eq!(w.pos, (2, 3));
}

#[test]
fn pushed_block_is_shifted_under_the_parent() {
    let mut root = Block::new((1, 1));
    let r = root.push(Element::Block(Block::new((0, 0))));
    match r {
        Element::Block(child) => {
            // the child's position is offset by the parent's position and
            // then by the parent's inner cursor (2, 2)
            assert_eq!(child.pos, (3, 3));
            assert_eq!(child.size, (4, 4));
        }
        Element::Widget(_) => panic!("expected a block"),
    }
}

#[test]
fn pushed_block_lays_out_its_own_subtree() {
    let mut inner = Block::new((0, 0));
    inner.push(Element::Widget(bare("A")));
    let mut root = Block::new((0, 0));
    let r = root.push(Element::Block(inner));
    match r {
        Element::Block(child) => {
            assert_eq!(child.pos, (2, 2));
            assert_eq!(child.size, (5, 5));
            let w = widget_of(&child.contents[0]);
            // the widget sat at (2, 2) inside the detached block; the
            // block was displaced by (2, 2), and its subtree moves with
            // it, so the widget keeps its relative place
            assert_eq!(w.pos, (4, 4));
        }
        Element::Widget(_) => panic!("expected a block"),
    }
}

#[test]
fn attached_subtree_keeps_its_geometry() {
    let mut b = Block::new((0, 0));
    b.push(Element::Widget(bare("A")));
    let before = widget_of(&b.contents[0]).pos;
    assert_eq!(before, (2, 2));
    b.calc_parent((5, 7));
    // the block and every widget below it move by the same offset
    assert_eq!(b.pos, (5, 7));
    assert_eq!(widget_of(&b.contents[0]).pos, (7, 9));
}

#[test]
fn pushing_a_block_leaves_the_cursor_alone() {
    let mut root = Block::new((0, 0));
    root.push(Element::Block(Block::new((0, 0))));
    let r = root.push(Element::Widget(bare("A")));
    let w = widget_of(r);
    // the cursor did not advance for the block child
    assert_eq!(w.pos, (2, 2));
}

#[test]
fn can_push_accepts_what_push_accepts() {
    let b = Block::new((0, 0));
    assert!(b.can_push(&Element::Widget(bare("A"))));
    assert!(b.can_push(&Element::Block(Block::new((0, 0)))));
}

#[test]
fn can_push_rejects_coordinate_overflow() {
    let b = Block::new((0, 0));
    // a widget already sitting at the far edge cannot advance past it
    let mut far = bare("A");
    far.pos = (u16::MAX, 0);
    assert!(!b.can_push(&Element::Widget(far)));
    // an oversized widget inside a block is caught recursively
    let mut huge = Widget::new(String::from("x"));
    huge.margin = huge.margin.set(AreaShort::Uniform(u16::MAX));
    let mut inner = Block::new((0, 0));
    inner.contents.push(Element::Widget(huge));
    assert!(!b.can_push(&Element::Block(inner)));
}
