use bad_tui::{AreaShort, Block, Color, Context, DrawOp, Element, InputEvent, Widget, UI};

fn bare(text: &str) -> Widget {
    let mut w = Widget::new(String::from(text));
    w.margin = w.margin.set(AreaShort::Uniform(0));
    w.padding = w.padding.set(AreaShort::Uniform(0));
    w
}

fn op_at(ops: &[DrawOp], col: u16, row: u16) -> Option<DrawOp> {
    ops.iter().copied().find(|op| op.col == col && op.row == row)
}

#[test]
fn first_render_draws_border_and_both_texts() {
    let mut root = Block::new((0, 0));
    root.push(Element::Widget(bare("A")));
    root.push(Element::Widget(bare("BB")));
    let mut ui = UI { root };
    let mut ctx = Context::new((20, 10));

    let ops = ui.render(&mut ctx);

    // the root measures to (4 + 1 + 2, 4 + 1 + 1) = (7, 6)
    assert_eq!(ui.root.size, (7, 6));

    // "A" sits at the interior origin (2, 2); "BB" follows one cell to
    // the right, offset by exactly the width of "A"
    assert_eq!(
        op_at(&ops, 2, 2),
        Some(DrawOp { col: 2, row: 2, glyph: 'A', color: Color::Black })
    );
    assert_eq!(
        op_at(&ops, 3, 2),
        Some(DrawOp { col: 3, row: 2, glyph: 'B', color: Color::Black })
    );
    assert_eq!(
        op_at(&ops, 4, 2),
        Some(DrawOp { col: 4, row: 2, glyph: 'B', color: Color::Black })
    );

    // the border ring of the 7 by 6 footprint is drawn with '#'
    assert_eq!(
        op_at(&ops, 0, 0),
        Some(DrawOp { col: 0, row: 0, glyph: '#', color: Color::White })
    );
    assert_eq!(
        op_at(&ops, 6, 5),
        Some(DrawOp { col: 6, row: 5, glyph: '#', color: Color::White })
    );
    // 22 border cells plus the three text cells; the cleared interior
    // matches the blank display and needs no instruction
    assert_eq!(ops.len(), 22 + 3);

    // cells outside the root are never drawn
    assert_eq!(op_at(&ops, 7, 0), None);

    // the instructions come out in column-major, then row-major order
    let mut sorted = ops.clone();
    sorted.sort_by_key(|op| (op.col, op.row));
    assert_eq!(ops, sorted);
}

#[test]
fn click_inside_a_repaints_only_a() {
    let mut root = Block::new((0, 0));
    root.push(Element::Widget(bare("A")));
    root.push(Element::Widget(bare("BB")));
    let mut ui = UI { root };
    let mut ctx = Context::new((20, 10));
    ui.render(&mut ctx);

    // press inside "A"'s one-cell rectangle at (2, 2)
    ctx.process(&InputEvent::PointerDown(2, 2));
    ui.process(&ctx);

    match (&ui.root.contents[0], &ui.root.contents[1]) {
        (Element::Widget(a), Element::Widget(bb)) => {
            assert!(a.clicked);
            assert!(!bb.clicked);
        }
        _ => panic!("expected two widgets"),
    }

    // the next frame redraws the text cells — the block's interior clear
    // touches them every frame — and only "A" comes out in the accent
    // colour
    let ops = ui.render(&mut ctx);
    assert_eq!(
        ops,
        vec![
            DrawOp { col: 2, row: 2, glyph: 'A', color: Color::Red },
            DrawOp { col: 3, row: 2, glyph: 'B', color: Color::Black },
            DrawOp { col: 4, row: 2, glyph: 'B', color: Color::Black },
        ]
    );
}

#[test]
fn steady_frame_redraws_only_overpainted_cells() {
    let mut root = Block::new((0, 0));
    root.push(Element::Widget(bare("A")));
    let mut ui = UI { root };
    let mut ctx = Context::new((20, 10));
    let first = ui.render(&mut ctx);
    assert!(first.len() > 1);
    // with nothing changed, the border and the empty interior match the
    // display and stay quiet; only the widget cell — cleared by the
    // block, then repainted — is written out again
    let second = ui.render(&mut ctx);
    assert_eq!(
        second,
        vec![DrawOp { col: 2, row: 2, glyph: 'A', color: Color::Black }]
    );
}

#[test]
fn set_size_blanks_the_display_and_keeps_the_rest() {
    let mut ctx = Context::new((10, 10));
    ctx.process(&InputEvent::PointerDown(1, 1));
    ctx.set_size((8, 4));
    assert_eq!(ctx.max, (8, 4));
    assert_eq!(ctx.click_pos, Some((1, 1)));
    assert_eq!(ctx.bg_color, Color::Red);
    for c in 0..8 {
        for r in 0..4 {
            let p = ctx.virtual_display.get(c, r);
            assert_eq!(p.glyph, ' ');
            assert_eq!(p.color, Color::White);
            assert!(!p.changed);
        }
    }
}

#[test]
fn resize_forces_a_full_redraw() {
    let mut root = Block::new((0, 0));
    root.push(Element::Widget(bare("A")));
    let mut ui = UI { root };
    let mut ctx = Context::new((20, 10));
    let first = ui.render(&mut ctx);
    // after a resize the blank display no longer matches the frame, so
    // everything drawn the first time is drawn again
    ctx.set_size((20, 10));
    let again = ui.render(&mut ctx);
    assert_eq!(first, again);
}

#[test]
fn context_new_starts_blank() {
    let ctx = Context::new((5, 3));
    assert_eq!(ctx.max, (5, 3));
    assert_eq!(ctx.click_pos, None);
    assert_eq!(ctx.bg_color, Color::Red);
    assert!(!ctx.virtual_display.get(4, 2).changed);
}

#[test]
fn nested_blocks_render_inside_the_parent() {
    let mut inner = Block::new((0, 0));
    inner.push(Element::Widget(bare("A")));
    let mut root = Block::new((0, 0));
    root.push(Element::Block(inner));
    let mut ui = UI { root };
    let mut ctx = Context::new((20, 20));
    let ops = ui.render(&mut ctx);
    // the nested block's border starts at the parent's cursor (2, 2) and
    // spans (5, 5); the root wraps it with its own border at the origin
    assert_eq!(
        op_at(&ops, 0, 0),
        Some(DrawOp { col: 0, row: 0, glyph: '#', color: Color::White })
    );
    assert_eq!(
        op_at(&ops, 2, 2),
        Some(DrawOp { col: 2, row: 2, glyph: '#', color: Color::White })
    );
    assert_eq!(
        op_at(&ops, 3, 2),
        Some(DrawOp { col: 3, row: 2, glyph: '#', color: Color::White })
    );
    // the widget moved along with the inner block when that block was
    // attached, so its text sits inside the inner block's frame
    assert_eq!(
        op_at(&ops, 4, 4),
        Some(DrawOp { col: 4, row: 4, glyph: 'A', color: Color::Black })
    );
}
