//! A small terminal user interface library: a tree of blocks and text
//! widgets is measured and laid out by a simple box model, painted into a
//! double-buffered character grid, and flushed as a list of draw
//! instructions that covers exactly the cells that changed.

pub mod area;
pub mod block;
pub mod pixel;
pub mod ui;
pub mod widget;

pub use area::Area;
pub use area::AreaShort;
pub use block::Block;
pub use block::Direction;
pub use block::Element;
pub use pixel::Color;
pub use pixel::DrawOp;
pub use pixel::Pixel;
pub use pixel::VirtualDisplay;
pub use ui::Context;
pub use ui::InputEvent;
pub use ui::UI;
pub use widget::Widget;
