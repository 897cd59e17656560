//! Places and areas on a terminal screen, in columns and rows.

use vstd::prelude::*;

verus! {

#[derive(Clone, Copy, Debug, PartialEq, Eq, Structural)]
pub struct Position {
    pub x: u16,
    pub y: u16,
}

#[derive(Clone, Copy, Debug, PartialEq, Eq, Structural)]
pub struct Size {
    pub width: u16,
    pub height: u16,
}

#[derive(Clone, Copy, Debug, PartialEq, Eq, Structural)]
pub struct Rect {
    pub x: u16,
    pub y: u16,
    pub width: u16,
    pub height: u16,
}

/// The smaller of two rows.
pub open spec fn lower_row(left: int, right: int) -> u16 {
    if left < right {
        left as u16
    } else {
        right as u16
    }
}

/// `rows` less `taken`, as far as there are so many.
pub open spec fn rows_left(rows: int, taken: int) -> u16 {
    if rows > taken {
        (rows - taken) as u16
    } else {
        0
    }
}

/// `rows` and `more` of them, as far as the screen can count.
pub open spec fn rows_joined(rows: int, more: int) -> u16 {
    if rows + more > u16::MAX {
        u16::MAX
    } else {
        (rows + more) as u16
    }
}

impl Position {
    pub fn new(x: u16, y: u16) -> (position: Self)
        ensures
            position == (Position { x, y }),
    {
        Position { x, y }
    }
}

impl Size {
    pub fn new(width: u16, height: u16) -> (size: Self)
        ensures
            size == (Size { width, height }),
    {
        Size { width, height }
    }
}

impl Rect {
    /// The first row below the area.
    pub open spec fn bottom_row(self) -> u16 {
        rows_joined(self.y as int, self.height as int)
    }

    /// An area, cut where its far edges would leave the range of a coordinate.
    pub fn new(x: u16, y: u16, width: u16, height: u16) -> (area: Self)
        ensures
            area.x == x,
            area.y == y,
            area.width == lower_row(width as int, u16::MAX - x),
            area.height == lower_row(height as int, u16::MAX - y),
    {
        Rect {
            x,
            y,
            width: x.saturating_add(width) - x,
            height: y.saturating_add(height) - y,
        }
    }

    /// The first row of the area.
    pub fn top(self) -> (row: u16)
        ensures
            row == self.y,
    {
        self.y
    }

    /// The first row below the area.
    pub fn bottom(self) -> (row: u16)
        ensures
            row == self.bottom_row(),
    {
        self.y.saturating_add(self.height)
    }
}

/// Rows that are joined or taken away stay within what the screen can count, and are exact wherever the
/// result is.
pub proof fn law_rows_are_exact_where_they_can_be(rows: u16, other: u16)
    ensures
        rows + other <= u16::MAX ==> rows_joined(rows as int, other as int) == rows + other,
        rows + other > u16::MAX ==> rows_joined(rows as int, other as int) == u16::MAX,
        other <= rows ==> rows_left(rows as int, other as int) == rows - other,
        other > rows ==> rows_left(rows as int, other as int) == 0,
        lower_row(rows as int, other as int) <= rows,
        lower_row(rows as int, other as int) <= other,
        lower_row(rows as int, other as int) == rows || lower_row(rows as int, other as int) == other,
{
}

/// An area ends behind as many rows as it is high, as far as the screen can count.
pub proof fn law_an_area_ends_below_its_rows(area: Rect)
    ensures
        area.y + area.height <= u16::MAX ==> area.bottom_row() == area.y + area.height,
        area.y <= area.bottom_row() <= area.y + area.height,
        area.y + area.height > u16::MAX ==> area.bottom_row() == u16::MAX,
{
}

} // verus!
