use vstd::prelude::*;

verus! {

/// A terminal color: the terminal's own default, the eight base colors and
/// their bright variants.
#[derive(Clone, Copy, Debug, PartialEq, Eq, Structural)]
pub enum Color {
    Reset,
    Black,
    Red,
    Green,
    Yellow,
    Blue,
    Magenta,
    Cyan,
    White,
    DarkGray,
    LightRed,
    LightGreen,
    LightYellow,
    LightBlue,
    LightMagenta,
    LightCyan,
}

/// The boolean style attributes of a cell.
#[derive(Clone, Copy, Debug, PartialEq, Eq, Structural)]
pub struct CellFlags {
    pub bold: bool,
    pub italic: bool,
    pub underline: bool,
    pub inverse: bool,
}

impl CellFlags {
    pub open spec fn spec_empty() -> CellFlags {
        CellFlags { bold: false, italic: false, underline: false, inverse: false }
    }

    pub fn empty() -> (r: CellFlags)
        ensures
            r == CellFlags::spec_empty(),
    {
        CellFlags { bold: false, italic: false, underline: false, inverse: false }
    }
}

/// The style applied to characters as they are printed.
#[derive(Clone, Copy, Debug, PartialEq, Eq, Structural)]
pub struct Style {
    pub fg: Color,
    pub bg: Color,
    pub flags: CellFlags,
}

impl Style {
    pub open spec fn spec_default() -> Style {
        Style { fg: Color::Reset, bg: Color::Reset, flags: CellFlags::spec_empty() }
    }
}

impl Default for Style {
    fn default() -> (r: Style)
        ensures
            r == Style::spec_default(),
    {
        Style { fg: Color::Reset, bg: Color::Reset, flags: CellFlags::empty() }
    }
}

/// One grid position: a glyph and its colors and flags.
#[derive(Clone, Copy, Debug, PartialEq, Eq, Structural)]
pub struct Cell {
    pub c: char,
    pub fg: Color,
    pub bg: Color,
    pub flags: CellFlags,
}

impl Cell {
    pub open spec fn blank() -> Cell {
        Cell { c: ' ', fg: Color::Reset, bg: Color::Reset, flags: CellFlags::spec_empty() }
    }

    /// The cell that printing `c` under style `s` produces.
    pub open spec fn styled(c: char, s: Style) -> Cell {
        Cell { c, fg: s.fg, bg: s.bg, flags: s.flags }
    }

    pub open spec fn spec_style(self) -> Style {
        Style { fg: self.fg, bg: self.bg, flags: self.flags }
    }

    pub fn with_style(c: char, s: Style) -> (r: Cell)
        ensures
            r == Cell::styled(c, s),
    {
        Cell { c, fg: s.fg, bg: s.bg, flags: s.flags }
    }

    /// The style this cell is drawn with.
    pub fn style(&self) -> (r: Style)
        ensures
            r == self.spec_style(),
    {
        Style { fg: self.fg, bg: self.bg, flags: self.flags }
    }
}

impl Default for Cell {
    fn default() -> (r: Cell)
        ensures
            r == Cell::blank(),
    {
        Cell { c: ' ', fg: Color::Reset, bg: Color::Reset, flags: CellFlags::empty() }
    }
}

} // verus!
