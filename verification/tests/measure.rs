use bad_tui::{Area, AreaShort, Block, Color, Element, Widget};

fn bare(text: &str) -> Widget {
    let mut w = Widget::new(String::from(text));
    w.margin = w.margin.set(AreaShort::Uniform(0));
    w.padding = w.padding.set(AreaShort::Uniform(0));
    w
}

#[test]
fn widget_measure_is_idempotent() {
    let mut w = Widget::new(String::from("hello"));
    let first = w.calc_self();
    let second = w.calc_self();
    assert_eq!(first, second);
    assert_eq!(w.size, first);
}

#[test]
fn bare_widget_measures_to_its_text() {
    let mut w = bare("abc");
    let size = w.calc_self();
    assert_eq!(size, (3, 1));
}

#[test]
fn empty_text_bare_widget_measures_to_zero_width() {
    let mut w = bare("");
    let size = w.calc_self();
    assert_eq!(size, (0, 1));
}

#[test]
fn default_widget_measure_counts_rings() {
    // margin 1 on every side, padding 1 on every side, two characters:
    // width 1+1+1+1+2, height 2*1 + 2*1 + 1.
    let mut w = Widget::new(String::from("ab"));
    let size = w.calc_self();
    assert_eq!(size, (6, 5));
}

#[test]
fn widget_height_ignores_bottom_sides() {
    let mut w = Widget::new(String::from("x"));
    w.margin = w.margin.set(AreaShort::All(2, 0, 7, 0));
    w.padding = w.padding.set(AreaShort::All(1, 0, 9, 0));
    let size = w.calc_self();
    // height counts top margin and top padding twice, bottom sides never
    assert_eq!(size.1, 2 * 2 + 2 * 1 + 1);
}

#[test]
fn empty_block_measures_to_minimum_footprint() {
    let mut b = Block::new((0, 0));
    b.calc_self();
    assert_eq!(b.size, (4, 4));
}

#[test]
fn block_accumulates_children_on_both_axes() {
    let mut b = Block::new((0, 0));
    b.push(Element::Widget(bare("abc")));
    b.calc_self();
    // child footprint (3, 1) is added to both the width and the height
    assert_eq!(b.size, (4 + 3, 4 + 1));
}

#[test]
fn nested_block_adds_its_own_footprint() {
    let mut b = Block::new((0, 0));
    b.push(Element::Block(Block::new((0, 0))));
    b.calc_self();
    assert_eq!(b.size, (4 + 4, 4 + 4));
}

#[test]
fn area_set_uniform() {
    let a = Area::default().set(AreaShort::Uniform(3));
    assert_eq!((a.top, a.right, a.bottom, a.left), (3, 3, 3, 3));
}

#[test]
fn area_set_horver() {
    let a = Area::default().set(AreaShort::HorVer(2, 5));
    assert_eq!((a.top, a.right, a.bottom, a.left), (2, 5, 2, 5));
}

#[test]
fn area_set_all_sides() {
    let a = Area::default().set(AreaShort::All(1, 2, 3, 4));
    assert_eq!((a.top, a.right, a.bottom, a.left), (1, 2, 3, 4));
}

#[test]
fn area_builders_replace_style() {
    let a = Area::default().symbol('@').color(Color::Red);
    assert_eq!(a.symbol, '@');
    assert_eq!(a.color, Color::Red);
    assert_eq!((a.top, a.right, a.bottom, a.left), (1, 1, 1, 1));
}

#[test]
fn widget_new_defaults() {
    let w = Widget::new(String::from("t"));
    assert_eq!(w.pos, (0, 0));
    assert_eq!(w.size, (3, 3));
    assert!(!w.clicked);
    assert_eq!(w.margin.symbol, '#');
    assert_eq!(w.padding.symbol, '$');
}

#[test]
fn widget_builders_rework_areas() {
    let w = Widget::new(String::from("t"))
        .margin(|m| m.set(AreaShort::Uniform(2)).symbol('@'))
        .padding(|p| p.color(Color::Black));
    assert_eq!(w.margin.top, 2);
    assert_eq!(w.margin.symbol, '@');
    assert_eq!(w.padding.color, Color::Black);
}

#[test]
fn try_measure_agrees_with_calc_self() {
    let mut b = Block::new((0, 0));
    b.push(Element::Widget(bare("abc")));
    let measured = b.try_measure();
    b.calc_self();
    assert_eq!(measured, Some(b.size));
}

#[test]
fn try_measure_rejects_an_oversized_widget() {
    let mut w = Widget::new(String::from("x"));
    w.margin = w.margin.set(AreaShort::Uniform(u16::MAX));
    let mut b = Block::new((0, 0));
    b.contents.push(Element::Widget(w));
    assert_eq!(b.try_measure(), None);
}

#[test]
fn fits_checks_the_display_bounds() {
    let mut b = Block::new((0, 0));
    b.push(Element::Widget(bare("abc")));
    // the tree measures to (7, 5)
    assert!(b.fits(7, 5));
    assert!(!b.fits(6, 5));
    assert!(!b.fits(7, 4));
}

#[test]
fn attached_tree_is_hit_testable() {
    let mut b = Block::new((0, 0));
    b.push(Element::Widget(bare("abc")));
    assert!(b.hit_testable());
    // an unmeasured widget whose margin exceeds its cached size is not
    let mut w = Widget::new(String::from("x"));
    w.margin = w.margin.set(AreaShort::Uniform(9));
    b.contents.push(Element::Widget(w));
    assert!(!b.hit_testable());
}
