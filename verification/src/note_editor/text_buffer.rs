use vstd::prelude::*;
use vstd::std_specs::convert::FromSpecImpl;

verus! {

/// A movement of the cursor in the text of the editor.
#[derive(Clone, Copy, Debug, PartialEq, Eq, Structural)]
pub enum CursorMove {
    Top,
    Bottom,
    WordForward,
    WordBackward,
    Up,
    Down,
    Left,
    Right,
    /// A movement by rows and columns, down and right where positive.
    Move(i32, i32),
    /// A jump to a row and a column.
    Jump(u16, u16),
}

impl From<(i32, i32)> for CursorMove {
    fn from(value: (i32, i32)) -> (cursor_move: Self)
        ensures
            cursor_move == CursorMove::Move(value.0, value.1),
    {
        Self::Move(value.0, value.1)
    }
}

impl FromSpecImpl<(i32, i32)> for CursorMove {
    open spec fn obeys_from_spec() -> bool {
        true
    }

    open spec fn from_spec(value: (i32, i32)) -> Self {
        CursorMove::Move(value.0, value.1)
    }
}

/// A place after a movement by `by` steps: forward where `by` is positive,
/// backward where it is not; it stops at zero and at the largest place.
pub open spec fn shifted(place: usize, by: i32) -> usize {
    if by > 0 {
        if place + by <= usize::MAX {
            (place + by) as usize
        } else {
            usize::MAX
        }
    } else if place + by >= 0 {
        (place + by) as usize
    } else {
        0
    }
}

/// The place after a movement by `by` steps.
pub fn shift(place: usize, by: i32) -> (res: usize)
    ensures
        res == shifted(place, by),
{
    if by > 0 {
        place.saturating_add(by as usize)
    } else {
        let back: usize = if by == i32::MIN {
            2147483648
        } else {
            (-by) as usize
        };
        place.saturating_sub(back)
    }
}

/// The cursor after a movement by rows and columns from where it stands.
pub fn moved_cursor(cursor: (usize, usize), row: i32, col: i32) -> (res: (usize, usize))
    ensures
        res == (shifted(cursor.0, row), shifted(cursor.1, col)),
{
    (shift(cursor.0, row), shift(cursor.1, col))
}

} // verus!
