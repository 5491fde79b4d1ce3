//! Move legality: which destination cells a piece may move to, either by a
//! simple diagonal step or by a capture jump over an adjacent opposing
//! piece.

use vstd::prelude::*;
use vstd::arithmetic::div_mod::lemma_fundamental_div_mod_converse_div;
use crate::board::{BoardState, PlayerColor, opposite_color};
use crate::geometry::Coordinate;

verus! {

/// The row direction a piece of `color` advances in: Black toward
/// increasing rows, Red toward decreasing rows.
pub open spec fn forward_step(color: PlayerColor) -> int {
    match color {
        PlayerColor::Black => 1,
        PlayerColor::Red => -1,
    }
}

/// The column of the cell jumped over by the move `from -> dest`.
pub open spec fn jumped_col(from: Coordinate, dest: Coordinate) -> int {
    (from.col + dest.col) / 2
}

/// The row of the cell jumped over by the move `from -> dest`.
pub open spec fn jumped_row(from: Coordinate, dest: Coordinate) -> int {
    (from.row + dest.row) / 2
}

/// A simple move: one diagonal step forward onto an empty playable cell of
/// the board.
pub open spec fn is_simple_dest(
    s: BoardState,
    from: Coordinate,
    color: PlayerColor,
    dest: Coordinate,
) -> bool {
    let dc = dest.col as int - from.col as int;
    let dr = dest.row as int - from.row as int;
    &&& s.in_bounds(dest.col as int, dest.row as int)
    &&& s.playable(dest.col as int, dest.row as int)
    &&& s.occupant(dest.col as int, dest.row as int) is None
    &&& (dc == 1 || dc == -1)
    &&& dr == forward_step(color)
}

/// A capture move: two diagonal steps forward onto an empty playable cell,
/// jumping over an adjacent cell that holds an opposing piece.
pub open spec fn is_capture_dest(
    s: BoardState,
    from: Coordinate,
    color: PlayerColor,
    dest: Coordinate,
) -> bool {
    let dc = dest.col as int - from.col as int;
    let dr = dest.row as int - from.row as int;
    &&& s.in_bounds(dest.col as int, dest.row as int)
    &&& s.playable(dest.col as int, dest.row as int)
    &&& s.occupant(dest.col as int, dest.row as int) is None
    &&& (dc == 2 || dc == -2)
    &&& dr == 2 * forward_step(color)
    &&& s.occupant(jumped_col(from, dest), jumped_row(from, dest)) matches Some(p) && p.color
        == opposite_color(color)
}

/// A legal destination for a piece of `color` standing on `from`.
pub open spec fn is_legal_dest(
    s: BoardState,
    from: Coordinate,
    color: PlayerColor,
    dest: Coordinate,
) -> bool {
    is_simple_dest(s, from, color, dest) || is_capture_dest(s, from, color, dest)
}

/// Legality law: a legal destination always lies on the board, on a
/// playable square, and is currently unoccupied.
pub proof fn lemma_legal_destinations_on_board(
    s: BoardState,
    from: Coordinate,
    color: PlayerColor,
    dest: Coordinate,
)
    requires
        is_legal_dest(s, from, color, dest),
    ensures
        s.in_bounds(dest.col as int, dest.row as int),
        s.playable(dest.col as int, dest.row as int),
        s.occupant(dest.col as int, dest.row as int) is None,
{
}

/// Decides whether `from -> dest` is a simple move for `color`.
pub fn is_simple_move(
    state: &BoardState,
    from: Coordinate,
    color: PlayerColor,
    dest: Coordinate,
) -> (r: bool)
    requires
        state.wf(),
    ensures
        r == is_simple_dest(*state, from, color, dest),
{
    let dc: i64 = dest.col as i64 - from.col as i64;
    let dr: i64 = dest.row as i64 - from.row as i64;
    let step: i64 = match color {
        PlayerColor::Black => 1,
        PlayerColor::Red => -1,
    };
    (dc == 1 || dc == -1) && dr == step && state.playable_at(dest) && state.occupant_at(
        dest,
    ).is_none()
}

/// Decides whether `from -> dest` is a capture move for `color`.
pub fn is_capture_move(
    state: &BoardState,
    from: Coordinate,
    color: PlayerColor,
    dest: Coordinate,
) -> (r: bool)
    requires
        state.wf(),
    ensures
        r == is_capture_dest(*state, from, color, dest),
{
    let dc: i64 = dest.col as i64 - from.col as i64;
    let dr: i64 = dest.row as i64 - from.row as i64;
    let step: i64 = match color {
        PlayerColor::Black => 1,
        PlayerColor::Red => -1,
    };
    if !((dc == 2 || dc == -2) && dr == 2 * step) {
        return false;
    }
    let mid = jumped_cell(from, dest);
    let jumped_opposing = match state.occupant_at(mid) {
        Some(p) => p.color == color.opposite(),
        None => false,
    };
    jumped_opposing && state.playable_at(dest) && state.occupant_at(dest).is_none()
}

/// Decides whether `dest` is any legal destination for a piece of `color`
/// on `from`.
pub fn is_legal_destination(
    state: &BoardState,
    from: Coordinate,
    color: PlayerColor,
    dest: Coordinate,
) -> (r: bool)
    requires
        state.wf(),
    ensures
        r == is_legal_dest(*state, from, color, dest),
{
    is_simple_move(state, from, color, dest) || is_capture_move(state, from, color, dest)
}

/// The cell jumped over by the capture move `from -> dest`.
pub fn jumped_cell(from: Coordinate, dest: Coordinate) -> (m: Coordinate)
    requires
        dest.col as int - from.col as int == 2 || dest.col as int - from.col as int == -2,
        dest.row as int - from.row as int == 2 || dest.row as int - from.row as int == -2,
    ensures
        m.col as int == jumped_col(from, dest),
        m.row as int == jumped_row(from, dest),
{
    proof {
        lemma_half_of_even_sum(from.col as int, dest.col as int);
        lemma_half_of_even_sum(from.row as int, dest.row as int);
    }
    Coordinate {
        col: ((from.col as u32 + dest.col as u32) / 2) as u16,
        row: ((from.row as u32 + dest.row as u32) / 2) as u16,
    }
}

/// The midpoint of two values that differ by two is exact.
proof fn lemma_half_of_even_sum(a: int, b: int)
    requires
        b - a == 2 || b - a == -2,
    ensures
        (a + b) / 2 == a + (b - a) / 2,
        a + b >= 0 ==> (a + b) % 2 == 0,
{
    if b - a == 2 {
        lemma_fundamental_div_mod_converse_div(a + b, 2, a + 1, 0);
    } else {
        lemma_fundamental_div_mod_converse_div(a + b, 2, a - 1, 0);
    }
}

/// All legal destinations for a piece of `color` standing on `from`: the
/// result holds a destination exactly when it is legal, with no duplicates
/// and no significance to its order.
pub fn legal_destinations(state: &BoardState, from: Coordinate, color: PlayerColor) -> (r: Vec<
    Coordinate,
>)
    requires
        state.wf(),
    ensures
        forall|d: Coordinate| r@.contains(d) <==> is_legal_dest(*state, from, color, d),
        forall|i: int, j: int| 0 <= i < j < r@.len() ==> r@[i] != r@[j],
{
    let mut out: Vec<Coordinate> = Vec::new();
    let ghost out0 = out@;
    if let Some(d) = step_candidate(state, from, color, true) {
        out.push(d);
    }
    proof {
        lemma_push_cases(out0, out@);
        assert(forall|d: Coordinate|
            out@.contains(d) <==> is_simple_dest(*state, from, color, d) && d.col as int
                - from.col as int == -1);
    }
    let ghost out1 = out@;
    if let Some(d) = step_candidate(state, from, color, false) {
        out.push(d);
    }
    proof {
        lemma_push_cases(out1, out@);
        assert(forall|d: Coordinate|
            out@.contains(d) <==> is_simple_dest(*state, from, color, d));
    }
    let ghost out2 = out@;
    if let Some(d) = jump_candidate(state, from, color, true) {
        out.push(d);
    }
    proof {
        lemma_push_cases(out2, out@);
        assert(forall|d: Coordinate|
            out@.contains(d) <==> is_simple_dest(*state, from, color, d) || (is_capture_dest(
                *state,
                from,
                color,
                d,
            ) && d.col as int - from.col as int == -2));
    }
    let ghost out3 = out@;
    if let Some(d) = jump_candidate(state, from, color, false) {
        out.push(d);
    }
    proof {
        lemma_push_cases(out3, out@);
        assert(forall|d: Coordinate| out@.contains(d) <==> is_legal_dest(*state, from, color, d));
        assert forall|i: int, j: int| 0 <= i < j < out@.len() implies out@[i] != out@[j] by {
            assert(out@.contains(out@[i]));
            assert(out@.contains(out@[j]));
        }
    }
    out
}

/// Either nothing was pushed, or exactly one element was.
proof fn lemma_push_cases(before: Seq<Coordinate>, after: Seq<Coordinate>)
    requires
        after == before || after == before.push(after.last()),
    ensures
        forall|d: Coordinate|
            #![trigger after.contains(d)]
            after.contains(d) <==> before.contains(d) || (after.len() == before.len() + 1 && d
                == after.last()),
{
    if after == before {
    } else {
        let x = after.last();
        assert forall|d: Coordinate| after.contains(d) implies before.contains(d) || (after.len()
            == before.len() + 1 && d == x) by {
            let i = choose|i: int| 0 <= i < after.len() && after[i] == d;
            if i < before.len() {
                assert(before[i] == d);
            }
        }
        assert forall|d: Coordinate| before.contains(d) implies after.contains(d) by {
            let i = choose|i: int| 0 <= i < before.len() && before[i] == d;
            assert(after[i] == d);
        }
        assert(after[before.len() as int] == x);
        assert(after.contains(x));
    }
}

/// The unique simple-move candidate on the given side (`left` means toward
/// smaller columns), if it is legal.
fn step_candidate(state: &BoardState, from: Coordinate, color: PlayerColor, left: bool) -> (r:
    Option<Coordinate>)
    requires
        state.wf(),
    ensures
        r matches Some(d) ==> is_simple_dest(*state, from, color, d) && d.col as int
            - from.col as int == (if left { -1int } else { 1int }),
        forall|d: Coordinate|
            is_simple_dest(*state, from, color, d) && d.col as int - from.col as int == (if left {
                -1int
            } else {
                1int
            }) ==> r == Some(d),
{
    let step: i64 = match color {
        PlayerColor::Black => 1,
        PlayerColor::Red => -1,
    };
    let tc: i64 = from.col as i64 + if left { -1 } else { 1 };
    let tr: i64 = from.row as i64 + step;
    if tc < 0 || tr < 0 || tc >= state.width as i64 || tr >= state.height as i64 {
        return None;
    }
    let d = Coordinate { col: tc as u16, row: tr as u16 };
    if state.playable_at(d) && state.occupant_at(d).is_none() {
        Some(d)
    } else {
        None
    }
}

/// The unique capture-move candidate on the given side, if it is legal.
fn jump_candidate(state: &BoardState, from: Coordinate, color: PlayerColor, left: bool) -> (r:
    Option<Coordinate>)
    requires
        state.wf(),
    ensures
        r matches Some(d) ==> is_capture_dest(*state, from, color, d) && d.col as int
            - from.col as int == (if left { -2int } else { 2int }),
        forall|d: Coordinate|
            is_capture_dest(*state, from, color, d) && d.col as int - from.col as int == (if left {
                -2int
            } else {
                2int
            }) ==> r == Some(d),
{
    let step: i64 = match color {
        PlayerColor::Black => 1,
        PlayerColor::Red => -1,
    };
    let tc: i64 = from.col as i64 + if left { -2 } else { 2 };
    let tr: i64 = from.row as i64 + 2 * step;
    if tc < 0 || tr < 0 || tc >= state.width as i64 || tr >= state.height as i64 {
        return None;
    }
    let d = Coordinate { col: tc as u16, row: tr as u16 };
    let mid = jumped_cell(from, d);
    let jumped_opposing = match state.occupant_at(mid) {
        Some(p) => p.color == color.opposite(),
        None => false,
    };
    if jumped_opposing && state.playable_at(d) && state.occupant_at(d).is_none() {
        Some(d)
    } else {
        None
    }
}

} // verus!
