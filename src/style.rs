use vstd::prelude::*;

verus! {

/// An RGB colour, one byte per channel.
#[derive(Clone, Copy, Debug, PartialEq, Eq, Structural)]
pub struct Colour {
    pub red: u8,
    pub green: u8,
    pub blue: u8,
}

/// How one cell of the line is drawn: its colours and font attributes.
#[derive(Clone, Copy, Debug, PartialEq, Eq, Structural)]
pub struct CellStyle {
    pub background: Colour,
    pub foreground: Colour,
    pub bold: bool,
    pub underline: bool,
}

/// One style per kind of fragment the status line shows.
#[derive(Clone, Copy, Debug, PartialEq, Eq, Structural)]
pub struct Theme {
    pub base: CellStyle,
    pub frame_id_focused: CellStyle,
    pub frame_id_unfocused: CellStyle,
    pub is_modified: CellStyle,
    pub is_not_modified: CellStyle,
    pub file_name: CellStyle,
    pub file_size: CellStyle,
    pub position_in_file: CellStyle,
    pub mode: CellStyle,
}

} // verus!
