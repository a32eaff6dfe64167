//! A one-row status line for a text editor buffer.
//!
//! The line is filled by a bounded two-ended compositor
//! ([`canvas::StatusCanvas`]) that places styled fragments inward from the left
//! and right edges of a fixed-width row, and by an assembler
//! ([`status_bar::StatusBar`]) that decides which fragments to request and in
//! which order.

pub mod style;
pub mod text;
pub mod terminal;
pub mod canvas;
pub mod status_bar;

pub use canvas::{Anchor, Fragment, StatusCanvas};
pub use status_bar::{ModifiedStatus, Properties, Rect, ShouldRender, StatusBar};
pub use style::{CellStyle, Colour, Theme};
