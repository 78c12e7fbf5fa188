//! The box model: per-side spacing around a widget, with the glyph and
//! colour the ring is filled with.  A widget carries two independent areas,
//! one for its margin and one for its padding.

use crate::pixel::Color;
use vstd::prelude::*;

verus! {

/// Four spacing thicknesses plus a fill style.  All-zero sides are valid
/// and simply draw no ring.
#[derive(Clone, Copy, Debug, PartialEq, Eq, Structural)]
pub struct Area {
    pub top: u16,
    pub right: u16,
    pub bottom: u16,
    pub left: u16,
    pub symbol: char,
    pub color: Color,
    pub background: Color,
}

/// Shorthand for setting the four sides at once: one value for all sides,
/// one per axis, or all four spelled out.
#[derive(Clone, Copy, Debug, PartialEq, Eq, Structural)]
pub enum AreaShort {
    Uniform(u16),
    HorVer(u16, u16),
    All(u16, u16, u16, u16),
}

/// The area a widget starts from: one cell of spacing on every side, a
/// blank fill, white on black.
pub open spec fn default_area() -> Area {
    Area {
        top: 1,
        right: 1,
        bottom: 1,
        left: 1,
        symbol: ' ',
        color: Color::White,
        background: Color::Black,
    }
}

/// The sides `short` stands for, as `(top, right, bottom, left)`.
pub open spec fn short_sides(short: AreaShort) -> (u16, u16, u16, u16) {
    match short {
        AreaShort::Uniform(uni) => (uni, uni, uni, uni),
        AreaShort::HorVer(hor, ver) => (hor, ver, hor, ver),
        AreaShort::All(t, r, b, l) => (t, r, b, l),
    }
}

impl Area {
    /// Replace the four sides by what `short` spells out; the fill style is
    /// kept.
    pub fn set(self, short: AreaShort) -> (r: Self)
        ensures
            r == (Area {
                top: short_sides(short).0,
                right: short_sides(short).1,
                bottom: short_sides(short).2,
                left: short_sides(short).3,
                ..self
            }),
    {
        let (top, right, bottom, left): (u16, u16, u16, u16) = match short {
            AreaShort::Uniform(uni) => (uni, uni, uni, uni),
            AreaShort::HorVer(hor, ver) => (hor, ver, hor, ver),
            AreaShort::All(t, r, b, l) => (t, r, b, l),
        };
        Area { top, right, bottom, left, ..self }
    }

    /// Replace the fill glyph.
    pub fn symbol(self, symbol: char) -> (r: Self)
        ensures
            r == (Area { symbol, ..self }),
    {
        Area { symbol, ..self }
    }

    /// Replace the fill colour.
    pub fn color(self, color: Color) -> (r: Self)
        ensures
            r == (Area { color, ..self }),
    {
        Area { color, ..self }
    }
}

impl Default for Area {
    fn default() -> (r: Self)
        ensures
            r == default_area(),
    {
        Area {
            top: 1,
            right: 1,
            bottom: 1,
            left: 1,
            symbol: ' ',
            color: Color::White,
            background: Color::Black,
        }
    }
}

} // verus!
