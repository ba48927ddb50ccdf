use vstd::prelude::*;
use crate::project::Vector2;

verus! {

/// What handling an event came to.
#[derive(Clone, Copy, Debug, PartialEq, Eq, Structural)]
pub enum EventResult {
    Drop,
    Failed,
    Exit,
    Done,
}

/// The cell of the terminal that shows the cell `(x, y)` of a canvas of the
/// size `bounds`, which stands in the middle of a terminal of `columns` by
/// `rows` cells. There is none where the canvas does not fit the terminal
/// or the cell is off the terminal's range of coordinates.
pub open spec fn screen_cell(x: u16, y: u16, columns: u16, rows: u16, bounds: Vector2) -> Option<
    Vector2,
> {
    if columns / 2 - bounds.x / 2 >= 0 && rows / 2 - bounds.y / 2 >= 0 && columns / 2 - bounds.x
        / 2 + x <= u16::MAX && rows / 2 - bounds.y / 2 + y <= u16::MAX {
        Some(
            Vector2 {
                x: (columns / 2 - bounds.x / 2 + x) as u16,
                y: (rows / 2 - bounds.y / 2 + y) as u16,
            },
        )
    } else {
        None
    }
}

/// Where on the terminal the cell `(x, y)` of the canvas is shown.
pub fn screen_position(x: u16, y: u16, columns: u16, rows: u16, bounds: Vector2) -> (r: Option<
    Vector2,
>)
    ensures
        r == screen_cell(x, y, columns, rows, bounds),
{
    let center_x = columns / 2;
    let center_y = rows / 2;
    if bounds.x / 2 > center_x || bounds.y / 2 > center_y {
        return None;
    }
    let min_x = center_x - bounds.x / 2;
    let min_y = center_y - bounds.y / 2;
    if x > u16::MAX - min_x || y > u16::MAX - min_y {
        return None;
    }
    Some(Vector2 { x: min_x + x, y: min_y + y })
}

/// Where the border around the canvas is drawn: the column of its left
/// side, the row of its top and the row of its bottom.
#[derive(Clone, Copy, Debug, PartialEq, Eq, Structural)]
pub struct Frame {
    pub left: u16,
    pub top: u16,
    pub bottom: u16,
}

/// The border around a canvas of the size `bounds` in the middle of a
/// terminal of `columns` by `rows` cells: one cell to the left of the
/// canvas and one above it, down to half the height of the canvas below
/// the middle row. There is none where the terminal has no room for it.
pub open spec fn frame_of(columns: u16, rows: u16, bounds: Vector2) -> Option<Frame> {
    if columns / 2 - bounds.x / 2 - 1 >= 0 && rows / 2 - bounds.y / 2 - 1 >= 0 && rows / 2
        + bounds.y / 2 <= u16::MAX {
        Some(
            Frame {
                left: (columns / 2 - bounds.x / 2 - 1) as u16,
                top: (rows / 2 - bounds.y / 2 - 1) as u16,
                bottom: (rows / 2 + bounds.y / 2) as u16,
            },
        )
    } else {
        None
    }
}

/// Where the border around the canvas is drawn.
pub fn frame(columns: u16, rows: u16, bounds: Vector2) -> (r: Option<Frame>)
    ensures
        r == frame_of(columns, rows, bounds),
{
    let center_x = columns / 2;
    let center_y = rows / 2;
    if bounds.x / 2 >= center_x || bounds.y / 2 >= center_y {
        return None;
    }
    if bounds.y / 2 > u16::MAX - center_y {
        return None;
    }
    Some(
        Frame {
            left: center_x - bounds.x / 2 - 1,
            top: center_y - bounds.y / 2 - 1,
            bottom: center_y + bounds.y / 2,
        },
    )
}

} // verus!
