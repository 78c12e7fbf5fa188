use bad_tui::{AreaShort, Block, Color, Element, VirtualDisplay, Widget};

#[test]
fn widget_paints_margin_padding_and_text() {
    // with the default one-cell rings, "ab" measures to (6, 5)
    let mut w = Widget::new(String::from("ab"));
    w.calc_self();
    let mut d = VirtualDisplay::new(8, 8);
    w.render(&mut d);

    // top and bottom rows are margin all the way across
    for c in 0..6 {
        assert_eq!(d.get(c, 0).glyph, '#');
        assert_eq!(d.get(c, 4).glyph, '#');
    }
    // the rows in between hold the padding ring inside the margin
    for r in 1..4 {
        assert_eq!(d.get(0, r).glyph, '#');
        assert_eq!(d.get(5, r).glyph, '#');
        assert_eq!(d.get(1, r).color, Color::White);
    }
    assert_eq!(d.get(1, 1).glyph, '$');
    assert_eq!(d.get(4, 3).glyph, '$');
    // the text line sits past both rings
    assert_eq!(d.get(2, 2).glyph, 'a');
    assert_eq!(d.get(3, 2).glyph, 'b');
    assert_eq!(d.get(2, 2).color, Color::Black);
    // around the text, still padding
    assert_eq!(d.get(1, 2).glyph, '$');
    assert_eq!(d.get(4, 2).glyph, '$');
    // cells outside the footprint stay blank
    assert_eq!(d.get(6, 0).glyph, ' ');
    assert!(!d.get(6, 0).changed);
}

#[test]
fn clicked_widget_paints_its_text_in_the_accent_colour() {
    let mut w = Widget::new(String::from("ab"));
    w.calc_self();
    w.clicked = true;
    let mut d = VirtualDisplay::new(8, 8);
    w.render(&mut d);
    assert_eq!(d.get(2, 2).color, Color::Red);
    // the rings keep their own colours
    assert_eq!(d.get(0, 0).color, Color::White);
}

#[test]
fn block_paints_border_and_cleared_interior() {
    let mut b = Block::new((1, 1));
    b.calc_self();
    assert_eq!(b.size, (4, 4));
    let mut d = VirtualDisplay::new(8, 8);
    b.render(&mut d);
    // the ring of the 4 by 4 footprint at (1, 1)
    for i in 1..5 {
        assert_eq!(d.get(i, 1).glyph, '#');
        assert_eq!(d.get(i, 4).glyph, '#');
        assert_eq!(d.get(1, i).glyph, '#');
        assert_eq!(d.get(4, i).glyph, '#');
    }
    // the interior is cleared
    assert_eq!(d.get(2, 2).glyph, ' ');
    assert_eq!(d.get(3, 3).glyph, ' ');
    // a cleared cell equals the blank display, so it is not dirty
    assert!(!d.get(2, 2).changed);
    assert!(d.get(1, 1).changed);
    // untouched cells stay blank
    assert_eq!(d.get(0, 0).glyph, ' ');
    assert!(!d.get(0, 0).changed);
}

#[test]
fn later_children_paint_over_earlier_ones() {
    // a nested block does not advance the cursor, so the widget pushed
    // after it lands on the block's corner cell — and, painted later,
    // wins it
    let mut root = Block::new((0, 0));
    root.push(Element::Block(Block::new((0, 0))));
    let mut w = Widget::new(String::from("y"));
    w.margin = w.margin.set(AreaShort::Uniform(0));
    w.padding = w.padding.set(AreaShort::Uniform(0));
    root.push(Element::Widget(w));

    root.calc_self();
    let mut d = VirtualDisplay::new(16, 16);
    root.render(&mut d);
    // the widget's single cell covers the nested block's corner at (2, 2)
    assert_eq!(d.get(2, 2).glyph, 'y');
    // the rest of the nested block's border is still its own
    assert_eq!(d.get(3, 2).glyph, '#');
}
