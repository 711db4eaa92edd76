use vstd::prelude::*;

verus! {

/// An RGB foreground color as the highlighter reports it.
#[derive(PartialEq, Eq, Structural, Clone, Copy, Debug)]
pub struct Rgb {
    pub r: u8,
    pub g: u8,
    pub b: u8,
}

/// The sentinel color the compiler starts from.
pub open spec fn initial_fg() -> Rgb {
    Rgb { r: 0, g: 0, b: 0 }
}

/// The color of a blank padding cell and the engine's starting foreground.
pub open spec fn white() -> Rgb {
    Rgb { r: 255, g: 255, b: 255 }
}

impl Rgb {
    /// Black, the compiler's starting sentinel.
    pub fn black() -> (c: Rgb)
        ensures
            c == initial_fg(),
    {
        Rgb { r: 0, g: 0, b: 0 }
    }

    /// White, the engine's starting foreground and the padding color.
    pub fn white() -> (c: Rgb)
        ensures
            c == white(),
    {
        Rgb { r: 255, g: 255, b: 255 }
    }
}

/// One low-level edit operation. The compiler produces these in order; the
/// playback engine consumes each exactly once.
#[derive(PartialEq, Eq, Structural, Clone, Copy, Debug)]
pub enum Instruction {
    /// Place the cursor at an absolute buffer position.
    MoveCursor(usize, usize),
    /// Insert one styled character at the cursor and advance one column.
    Type(char, bool),
    /// Change the tracked foreground color for characters typed afterwards.
    SetForeground(Rgb),
    /// Move to the next row, resetting the column to the line's indent.
    Newline { x: usize },
    /// Set the cursor column on the current row.
    SetX(usize),
    /// Suspend delivery for the given number of milliseconds; never forwarded
    /// to the playback engine.
    Pause(u64),
    /// Raise the waiting flag and block delivery until acknowledged.
    Wait,
    /// Stop drawing the cursor.
    HideCursor,
}

} // verus!
