//! The turn engine: a state machine sequencing selection, legal-move
//! computation, move commit and turn handoff, owning the board occupancy
//! state.

use vstd::prelude::*;
use crate::board::{BoardState, Piece, PlayerColor, opposite_color, playable_coord};
use crate::geometry::Coordinate;
use crate::rules::{
    is_legal_dest, is_capture_dest, jumped_col, jumped_row, is_legal_destination, is_capture_move,
    jumped_cell,
};

verus! {

/// The engine's selection state: either no piece is picked, or one cell
/// holding a piece of the current player is.
#[derive(Clone, Copy, PartialEq, Eq, Structural, Debug)]
pub enum Selection {
    Idle,
    Selected(Coordinate),
}

/// What a single pick accomplished.
#[derive(Clone, Copy, PartialEq, Eq, Structural, Debug)]
pub enum PickOutcome {
    /// The pick hit nothing actionable and was ignored.
    Ignored,
    /// A piece of the current player was selected.
    Selected,
    /// The selection switched to another piece of the current player.
    Reselected,
    /// The selection was dropped.
    Deselected,
    /// A simple move was committed and the turn passed.
    Moved,
    /// A capture move was committed, the jumped piece removed, and the turn
    /// passed.
    Captured,
}

/// Whether `c` holds a piece of `color` on `s`.
pub open spec fn own_piece(s: BoardState, c: Coordinate, color: PlayerColor) -> bool {
    s.occupant(c.col as int, c.row as int) == Some(Piece { color })
}

/// The commit counter after one more commit; it wraps, which preserves its
/// parity since the modulus is even.
pub open spec fn next_commit(n: u64) -> u64 {
    if n == 0xffff_ffff_ffff_ffff {
        0
    } else {
        (n + 1) as u64
    }
}

/// The initial layout rule: on playable squares, the three rows nearest the
/// bottom edge hold Black pieces and the three rows nearest the top edge
/// hold Red pieces.
pub open spec fn initial_occupant(height: int, parity: int, col: int, row: int) -> Option<
    Piece,
> {
    if playable_coord(col, row, parity) {
        if row < 3 {
            Some(Piece { color: PlayerColor::Black })
        } else if row >= height - 3 {
            Some(Piece { color: PlayerColor::Red })
        } else {
            None
        }
    } else {
        None
    }
}

/// The authoritative game state: board occupancy, transient selection, and
/// whose turn it is.
pub struct TurnEngine {
    /// The board occupancy the engine exclusively owns.
    pub state: BoardState,
    /// The transient selection, cleared on commit or deselect.
    pub selection: Selection,
    /// The player allowed to move next.
    pub current_player: PlayerColor,
    /// The player who moved first.
    pub starting_player: PlayerColor,
    /// How many moves have been committed, modulo 2^64.
    pub commits: u64,
}

impl TurnEngine {
    /// The current player is determined by the starting player and the
    /// parity of the number of committed moves.
    pub open spec fn turn_consistent(self) -> bool {
        self.current_player == if self.commits % 2 == 0 {
            self.starting_player
        } else {
            opposite_color(self.starting_player)
        }
    }

    /// Well-formedness: the board is well-formed, the turn matches the
    /// commit parity, and any selected cell holds a piece of the current
    /// player.
    pub open spec fn wf(self) -> bool {
        &&& self.state.wf()
        &&& self.turn_consistent()
        &&& self.selection matches Selection::Selected(c) ==> own_piece(
            self.state,
            c,
            self.current_player,
        )
    }

    /// An engine over an empty board, with nothing selected and `starting`
    /// to move.
    pub fn new(width: u16, height: u16, parity: u16, starting: PlayerColor) -> (e: TurnEngine)
        ensures
            e.wf(),
            e.state.width == width,
            e.state.height == height,
            e.state.parity == parity % 2,
            e.state.num_pieces() == 0,
            forall|col: int, row: int| #[trigger] e.state.occupant(col, row) is None,
            e.selection == Selection::Idle,
            e.current_player == starting,
            e.starting_player == starting,
            e.commits == 0,
    {
        TurnEngine {
            state: BoardState::new(width, height, parity),
            selection: Selection::Idle,
            current_player: starting,
            starting_player: starting,
            commits: 0,
        }
    }

    /// Drops the selection, leaving everything else untouched.
    pub fn deselect(&mut self)
        requires
            old(self).wf(),
        ensures
            final(self).wf(),
            final(self).selection == Selection::Idle,
            final(self).state == old(self).state,
            final(self).current_player == old(self).current_player,
            final(self).starting_player == old(self).starting_player,
            final(self).commits == old(self).commits,
    {
        self.selection = Selection::Idle;
    }

    /// Turn-alternation law: after any number of committed moves, the
    /// current player equals the starting player exactly when that number
    /// is even.
    pub proof fn lemma_turn_alternation(self)
        requires
            self.wf(),
        ensures
            self.current_player == self.starting_player <==> self.commits % 2 == 0,
    {
    }

    /// Handles one pick of the cell `target`.
    ///
    /// From `Idle`: picking a cell holding a piece of the current player
    /// selects it; any other pick is ignored.  From `Selected(sel)`:
    /// picking a legal destination commits the move (removing the jumped
    /// piece if it was a capture), flips the turn and returns to `Idle`;
    /// picking another of the current player's pieces reselects; any other
    /// pick deselects.  A committed capture removes exactly one opposing
    /// piece; a committed simple move preserves all counts.
    pub fn pick(&mut self, target: Coordinate) -> (r: PickOutcome)
        requires
            old(self).wf(),
        ensures
            final(self).wf(),
            final(self).state.same_grid(old(self).state),
            final(self).starting_player == old(self).starting_player,
            old(self).selection == Selection::Idle ==> ({
                &&& final(self).state == old(self).state
                &&& final(self).current_player == old(self).current_player
                &&& final(self).commits == old(self).commits
                &&& if own_piece(old(self).state, target, old(self).current_player) {
                    r == PickOutcome::Selected && final(self).selection == Selection::Selected(
                        target,
                    )
                } else {
                    r == PickOutcome::Ignored && *final(self) == *old(self)
                }
            }),
            forall|sel: Coordinate|
                old(self).selection == Selection::Selected(sel) && !is_legal_dest(
                    old(self).state,
                    sel,
                    old(self).current_player,
                    target,
                ) ==> ({
                    &&& final(self).state == old(self).state
                    &&& final(self).current_player == old(self).current_player
                    &&& final(self).commits == old(self).commits
                    &&& if own_piece(old(self).state, target, old(self).current_player) {
                        r == PickOutcome::Reselected && final(self).selection
                            == Selection::Selected(target)
                    } else {
                        r == PickOutcome::Deselected && final(self).selection == Selection::Idle
                    }
                }),
            forall|sel: Coordinate|
                old(self).selection == Selection::Selected(sel) && is_legal_dest(
                    old(self).state,
                    sel,
                    old(self).current_player,
                    target,
                ) ==> ({
                    &&& final(self).selection == Selection::Idle
                    &&& final(self).current_player == opposite_color(old(self).current_player)
                    &&& final(self).commits == next_commit(old(self).commits)
                    &&& own_piece(final(self).state, target, old(self).current_player)
                    &&& final(self).state.occupant(sel.col as int, sel.row as int) is None
                    &&& if is_capture_dest(old(self).state, sel, old(self).current_player,
                    target) {
                        &&& r == PickOutcome::Captured
                        &&& final(self).state.num_pieces() + 1 == old(self).state.num_pieces()
                        &&& final(self).state.num_color(opposite_color(old(self).current_player))
                            + 1 == old(self).state.num_color(
                            opposite_color(old(self).current_player),
                        )
                        &&& final(self).state.num_color(old(self).current_player) == old(
                            self,
                        ).state.num_color(old(self).current_player)
                        &&& forall|c: int, rw: int|
                            #![trigger final(self).state.occupant(c, rw)]
                            final(self).state.occupant(c, rw) == if c == target.col as int && rw
                                == target.row as int {
                                old(self).state.occupant(sel.col as int, sel.row as int)
                            } else if c == sel.col as int && rw == sel.row as int {
                                None::<Piece>
                            } else if c == jumped_col(sel, target) && rw == jumped_row(
                                sel,
                                target,
                            ) {
                                None::<Piece>
                            } else {
                                old(self).state.occupant(c, rw)
                            }
                    } else {
                        &&& r == PickOutcome::Moved
                        &&& final(self).state.num_pieces() == old(self).state.num_pieces()
                        &&& forall|color: PlayerColor|
                            final(self).state.num_color(color) == old(self).state.num_color(
                                color,
                            )
                        &&& forall|c: int, rw: int|
                            #![trigger final(self).state.occupant(c, rw)]
                            final(self).state.occupant(c, rw) == if c == target.col as int && rw
                                == target.row as int {
                                old(self).state.occupant(sel.col as int, sel.row as int)
                            } else if c == sel.col as int && rw == sel.row as int {
                                None::<Piece>
                            } else {
                                old(self).state.occupant(c, rw)
                            }
                    }
                }),
    {
        let cp = self.current_player;
        match self.selection {
            Selection::Idle => {
                let own = match self.state.occupant_at(target) {
                    Some(p) => p.color == cp,
                    None => false,
                };
                if own {
                    self.selection = Selection::Selected(target);
                    PickOutcome::Selected
                } else {
                    PickOutcome::Ignored
                }
            },
            Selection::Selected(sel) => {
                if is_legal_destination(&self.state, sel, cp, target) {
                    let capture = is_capture_move(&self.state, sel, cp, target);
                    let ghost pre = self.state;
                    let res = self.state.move_piece(sel, target);
                    proof {
                        assert(res is Ok);
                    }
                    if capture {
                        let mid = jumped_cell(sel, target);
                        let ghost moved = self.state;
                        let res2 = self.state.remove(mid);
                        proof {
                            assert(moved.occupant(mid.col as int, mid.row as int) == pre.occupant(
                                jumped_col(sel, target),
                                jumped_row(sel, target),
                            ));
                            assert(res2 is Ok);
                        }
                    }
                    self.selection = Selection::Idle;
                    self.current_player = cp.opposite();
                    self.commits = if self.commits == 0xffff_ffff_ffff_ffff {
                        0
                    } else {
                        self.commits + 1
                    };
                    if capture {
                        PickOutcome::Captured
                    } else {
                        PickOutcome::Moved
                    }
                } else {
                    let own = match self.state.occupant_at(target) {
                        Some(p) => p.color == cp,
                        None => false,
                    };
                    if own {
                        self.selection = Selection::Selected(target);
                        PickOutcome::Reselected
                    } else {
                        self.selection = Selection::Idle;
                        PickOutcome::Deselected
                    }
                }
            },
        }
    }
}

/// Builds the engine for a fresh game: a `width x height` board populated
/// by the initial layout rule, nothing selected, and `starting` to move.
pub fn initialize(width: u16, height: u16, parity: u16, starting: PlayerColor) -> (e: TurnEngine)
    ensures
        e.wf(),
        e.state.width == width,
        e.state.height == height,
        e.state.parity == parity % 2,
        e.selection == Selection::Idle,
        e.current_player == starting,
        e.starting_player == starting,
        e.commits == 0,
        forall|col: int, row: int|
            #![trigger e.state.occupant(col, row)]
            e.state.occupant(col, row) == if e.state.in_bounds(col, row) {
                initial_occupant(height as int, (parity % 2) as int, col, row)
            } else {
                None::<Piece>
            },
{
    let mut engine = TurnEngine::new(width, height, parity, starting);
    let mut row: u16 = 0;
    while row < height
        invariant
            engine.state.wf(),
            engine.state.width == width,
            engine.state.height == height,
            engine.state.parity == parity % 2,
            engine.selection == Selection::Idle,
            engine.current_player == starting,
            engine.starting_player == starting,
            engine.commits == 0,
            engine.wf(),
            row <= height,
            forall|c: int, rw: int|
                #![trigger engine.state.occupant(c, rw)]
                engine.state.occupant(c, rw) == if engine.state.in_bounds(c, rw) && rw < row {
                    initial_occupant(height as int, (parity % 2) as int, c, rw)
                } else {
                    None::<Piece>
                },
        decreases height - row,
    {
        let mut col: u16 = 0;
        while col < width
            invariant
                engine.state.wf(),
                engine.state.width == width,
                engine.state.height == height,
                engine.state.parity == parity % 2,
                engine.selection == Selection::Idle,
                engine.current_player == starting,
                engine.starting_player == starting,
                engine.commits == 0,
                engine.wf(),
                row < height,
                col <= width,
                forall|c: int, rw: int|
                    #![trigger engine.state.occupant(c, rw)]
                    engine.state.occupant(c, rw) == if engine.state.in_bounds(c, rw) && (rw < row
                        || (rw == row && c < col)) {
                        initial_occupant(height as int, (parity % 2) as int, c, rw)
                    } else {
                        None::<Piece>
                    },
            decreases width - col,
        {
            let coord = Coordinate { col, row };
            let playable = (col as u32 + row as u32) % 2 == (parity % 2) as u32;
            let near_top = row as u32 + 3 >= height as u32;
            if playable && row < 3 {
                match engine.state.place(coord, Piece { color: PlayerColor::Black }) {
                    Ok(()) => {},
                    Err(_) => {
                        proof {
                            assert(false);
                        }
                    },
                }
            } else if playable && near_top && row >= 3 {
                match engine.state.place(coord, Piece { color: PlayerColor::Red }) {
                    Ok(()) => {},
                    Err(_) => {
                        proof {
                            assert(false);
                        }
                    },
                }
            }
            col = col + 1;
        }
        row = row + 1;
    }
    engine
}

} // verus!
