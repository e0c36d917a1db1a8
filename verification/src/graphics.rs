//! Geometry and drawing primitives.
//!
//! All geometry lives in whole pixel units. Arithmetic on coordinates is
//! clamped: additions saturate at `u32::MAX` and subtractions saturate at
//! zero, so a layout that runs out of room degenerates to zero-sized or
//! flush-packed boxes instead of wrapping around. This is the one clamping
//! policy applied uniformly throughout the layout engine.

use vstd::prelude::*;

verus! {

/// An RGB colour handed to the graphics backend.
#[derive(Clone, Copy, Debug, PartialEq, Eq, Structural)]
pub struct Color {
    pub r: u8,
    pub g: u8,
    pub b: u8,
}

/// Addition clamped to the coordinate range: `cadd(a, b)` is `a + b`,
/// capped at `u32::MAX`.
pub open spec fn cadd(a: int, b: int) -> int {
    if a + b > u32::MAX as int {
        u32::MAX as int
    } else {
        a + b
    }
}

/// Subtraction clamped at zero: `csub(a, b)` is `a - b`, or `0` when the
/// difference would be negative.
pub open spec fn csub(a: int, b: int) -> int {
    if a - b < 0 {
        0
    } else {
        a - b
    }
}

/// Clamped addition on coordinates.
pub fn sat_add(a: u32, b: u32) -> (r: u32)
    ensures
        r as int == cadd(a as int, b as int),
{
    if a > u32::MAX - b {
        u32::MAX
    } else {
        a + b
    }
}

/// Clamped subtraction on coordinates.
pub fn sat_sub(a: u32, b: u32) -> (r: u32)
    ensures
        r as int == csub(a as int, b as int),
{
    if a < b {
        0
    } else {
        a - b
    }
}

/// A point, relative to some parent origin.
#[derive(Clone, Copy, Debug, PartialEq, Eq, Structural)]
pub struct Position {
    pub x: u32,
    pub y: u32,
}

impl Position {
    /// The zero offset.
    pub fn origin() -> (r: Self)
        ensures
            r == Position::spec_origin(),
    {
        Position { x: 0, y: 0 }
    }

    /// The zero offset, for contracts.
    pub open spec fn spec_origin() -> Position {
        Position { x: 0, y: 0 }
    }

    /// Componentwise clamped translation, for contracts.
    pub open spec fn spec_add(self, other: Position) -> Position {
        Position { x: cadd(self.x as int, other.x as int) as u32, y: cadd(self.y as int, other.y as int) as u32 }
    }

    /// Componentwise clamped translation.
    pub fn add(self, other: Position) -> (r: Self)
        ensures
            r == self.spec_add(other),
    {
        Position { x: sat_add(self.x, other.x), y: sat_add(self.y, other.y) }
    }
}

/// An extent: either a constraint handed down by a parent, or a measured
/// or committed box size.
#[derive(Clone, Copy, Debug, PartialEq, Eq, Structural)]
pub struct Size {
    pub width: u32,
    pub height: u32,
}

impl Size {
    /// The empty extent.
    pub fn zero() -> (r: Self)
        ensures
            r == Size::spec_zero(),
    {
        Size { width: 0, height: 0 }
    }

    /// The empty extent, for contracts.
    pub open spec fn spec_zero() -> Size {
        Size { width: 0, height: 0 }
    }
}

/// One command of the display list that a draw pass produces. The platform
/// layer forwards these, in order, to the real renderer.
#[derive(Clone, Copy, Debug, PartialEq, Eq, Structural)]
pub enum DrawCommand {
    /// Select the colour for subsequent fills.
    SetDrawColor { color: Color },
    /// Fill an axis-aligned rectangle with the selected colour.
    FillRect { position: Position, size: Size },
    /// Flush the frame to the screen.
    UpdateDisplay,
}

/// The display list that paints one rectangle: select the colour, then
/// fill the rectangle.
pub open spec fn fill_rect_commands(position: Position, size: Size, color: Color) -> Seq<DrawCommand> {
    seq![
        DrawCommand::SetDrawColor { color },
        DrawCommand::FillRect { position, size },
    ]
}

/// The display list that covers the whole screen with one colour.
pub fn fill(color: Color, screen_dimensions: Size) -> (r: Vec<DrawCommand>)
    ensures
        r@ == fill_rect_commands(Position::spec_origin(), screen_dimensions, color),
{
    let mut out: Vec<DrawCommand> = Vec::new();
    out.push(DrawCommand::SetDrawColor { color });
    out.push(DrawCommand::FillRect { position: Position { x: 0, y: 0 }, size: screen_dimensions });
    proof {
        assert(out@ =~= fill_rect_commands(Position::spec_origin(), screen_dimensions, color));
    }
    out
}

} // verus!
