use bad_tui::{Color, DrawOp, VirtualDisplay};

#[test]
fn fresh_display_is_blank() {
    let d = VirtualDisplay::new(3, 2);
    for c in 0..3 {
        for r in 0..2 {
            let p = d.get(c, r);
            assert_eq!(p.glyph, ' ');
            assert_eq!(p.color, Color::White);
            assert!(!p.changed);
        }
    }
}

#[test]
fn set_records_glyph_and_colour() {
    let mut d = VirtualDisplay::new(4, 4);
    d.set(1, 2, 'x', Color::Red);
    let p = d.get(1, 2);
    assert_eq!(p.glyph, 'x');
    assert_eq!(p.color, Color::Red);
    assert!(p.changed);
    // the neighbour is untouched
    assert!(!d.get(1, 1).changed);
}

#[test]
fn writing_the_stored_value_keeps_the_cell_clean() {
    let mut d = VirtualDisplay::new(2, 2);
    // a fresh cell already holds a blank white glyph
    d.set(0, 0, ' ', Color::White);
    assert!(!d.get(0, 0).changed);
    assert_eq!(d.flush(), vec![]);
}

#[test]
fn flush_emits_changed_cells_in_column_major_order() {
    let mut d = VirtualDisplay::new(3, 3);
    // set out of order; the flush sorts itself by column, then row
    d.set(2, 0, 'c', Color::White);
    d.set(0, 1, 'a', Color::Red);
    d.set(0, 0, 'b', Color::Black);
    let ops = d.flush();
    assert_eq!(
        ops,
        vec![
            DrawOp { col: 0, row: 0, glyph: 'b', color: Color::Black },
            DrawOp { col: 0, row: 1, glyph: 'a', color: Color::Red },
            DrawOp { col: 2, row: 0, glyph: 'c', color: Color::White },
        ]
    );
}

#[test]
fn flush_clears_the_changed_flags() {
    let mut d = VirtualDisplay::new(2, 2);
    d.set(1, 1, 'z', Color::Red);
    let first = d.flush();
    assert_eq!(first.len(), 1);
    for c in 0..2 {
        for r in 0..2 {
            assert!(!d.get(c, r).changed);
        }
    }
    // the glyph itself survives the flush
    assert_eq!(d.get(1, 1).glyph, 'z');
}

#[test]
fn flush_twice_emits_nothing_the_second_time() {
    let mut d = VirtualDisplay::new(5, 5);
    d.set(3, 4, 'q', Color::Black);
    d.set(0, 0, 'p', Color::Red);
    assert_eq!(d.flush().len(), 2);
    assert_eq!(d.flush(), vec![]);
}

#[test]
fn resize_blanks_every_cell() {
    let mut d = VirtualDisplay::new(3, 3);
    d.set(1, 1, 'x', Color::Red);
    d.set(2, 2, 'y', Color::Black);
    d.resize(4, 2);
    for c in 0..4 {
        for r in 0..2 {
            let p = d.get(c, r);
            assert_eq!(p.glyph, ' ');
            assert_eq!(p.color, Color::White);
            assert!(!p.changed);
        }
    }
    assert_eq!(d.flush(), vec![]);
}

#[test]
fn rewriting_a_cell_after_flush_marks_it_again() {
    let mut d = VirtualDisplay::new(2, 2);
    d.set(0, 1, 'x', Color::Red);
    d.flush();
    // the same value again: nothing to redraw
    d.set(0, 1, 'x', Color::Red);
    assert_eq!(d.flush(), vec![]);
    // a different colour: one instruction
    d.set(0, 1, 'x', Color::Black);
    assert_eq!(
        d.flush(),
        vec![DrawOp { col: 0, row: 1, glyph: 'x', color: Color::Black }]
    );
}
