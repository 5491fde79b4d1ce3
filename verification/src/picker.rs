//! Input picking: mapping a pointer world-position to the occupied cell
//! under it, if any.

use vstd::prelude::*;
use crate::board::BoardState;
use crate::geometry::{Board, Coordinate, ScreenPos, screen_to_cell_spec};

verus! {

/// What `pick` returns: the coordinate of the cell whose span contains the
/// pointer, provided that cell holds a piece.
pub open spec fn pick_spec(board: Board, state: BoardState, pointer: ScreenPos) -> Option<
    Coordinate,
> {
    match screen_to_cell_spec(board, pointer) {
        Some(c) => if state.occupant(c.col as int, c.row as int) is Some {
            Some(c)
        } else {
            None
        },
        None => None,
    }
}

/// Resolves a pointer position to the occupied cell under it: `None` when
/// the pointer lies off the board or the resolved cell holds no piece.  The
/// pointer must land within the cell's own bounds — half a scaled tile of
/// its centre on each axis.  A pure query: the caller owns the decision to
/// update any selection.
pub fn pick(board: &Board, state: &BoardState, pointer: ScreenPos) -> (r: Option<Coordinate>)
    requires
        state.wf(),
    ensures
        r == pick_spec(*board, *state, pointer),
{
    match board.screen_to_cell(pointer) {
        Some(c) => if state.occupant_at(c).is_some() {
            Some(c)
        } else {
            None
        },
        None => None,
    }
}

} // verus!
