//! Board occupancy state: which cells are playable, which hold a piece, and
//! the checked mutations (`place`, `move_piece`, `remove`) that keep every
//! piece owned by exactly one cell.

use vstd::prelude::*;
use vstd::pervasive::VecAdditionalExecFns;
use vstd::arithmetic::div_mod::lemma_fundamental_div_mod_converse_div;
use crate::geometry::Coordinate;

verus! {

/// The two sides of the game.
#[derive(Clone, Copy, PartialEq, Eq, Structural, Debug)]
pub enum PlayerColor {
    Red,
    Black,
}

impl PlayerColor {
    /// The other side.
    pub fn opposite(self) -> (r: PlayerColor)
        ensures
            r == opposite_color(self),
    {
        match self {
            PlayerColor::Red => PlayerColor::Black,
            PlayerColor::Black => PlayerColor::Red,
        }
    }
}

/// The other side, as a spec-level function.
pub open spec fn opposite_color(c: PlayerColor) -> PlayerColor {
    match c {
        PlayerColor::Red => PlayerColor::Black,
        PlayerColor::Black => PlayerColor::Red,
    }
}

/// A checkers piece; it carries only its owner's color.
#[derive(Clone, Copy, PartialEq, Eq, Structural, Debug)]
pub struct Piece {
    pub color: PlayerColor,
}

/// One square of the board: whether it may hold pieces, and its occupant.
#[derive(Clone, Copy, PartialEq, Eq, Structural, Debug)]
pub struct Cell {
    pub playable: bool,
    pub occupant: Option<Piece>,
}

/// The failures of the checked board mutations.
#[derive(Clone, Copy, PartialEq, Eq, Structural, Debug)]
pub enum BoardError {
    /// A coordinate lies outside the board's dimensions.
    OutOfBounds,
    /// The target cell already holds a piece.
    OccupiedCell,
    /// The source cell holds no piece.
    EmptySource,
    /// The target cell is not a playable (dark) square.
    UnplayableCell,
}

/// The authoritative grid of occupancy.  Cells are stored row-major:
/// `(col, row)` lives at index `row * width + col`.
#[derive(Clone, Debug)]
pub struct BoardState {
    /// Board width in cells.
    pub width: u16,
    /// Board height in cells.
    pub height: u16,
    /// A cell `(col, row)` is playable exactly when `(col + row) % 2`
    /// equals this parity; always `0` or `1` in a well-formed state.
    pub parity: u16,
    /// The cells, row-major, `width * height` of them.
    pub cells: Vec<Cell>,
}

/// The playability rule: dark squares are those whose coordinate sum has the
/// board's fixed parity.
pub open spec fn playable_coord(col: int, row: int, parity: int) -> bool {
    (col + row) % 2 == parity
}

/// How many cells of `cells` hold a piece.
pub open spec fn count_pieces(cells: Seq<Cell>) -> nat
    decreases cells.len(),
{
    if cells.len() == 0 {
        0
    } else {
        count_pieces(cells.drop_last()) + occupied_one(cells.last())
    }
}

/// How many cells of `cells` hold a piece of color `color`.
pub open spec fn count_color(cells: Seq<Cell>, color: PlayerColor) -> nat
    decreases cells.len(),
{
    if cells.len() == 0 {
        0
    } else {
        count_color(cells.drop_last(), color) + color_one(cells.last(), color)
    }
}

/// 1 when the cell holds a piece, else 0.
pub open spec fn occupied_one(cell: Cell) -> nat {
    if cell.occupant is Some {
        1
    } else {
        0
    }
}

/// 1 when the cell holds a piece of color `color`, else 0.
pub open spec fn color_one(cell: Cell, color: PlayerColor) -> nat {
    match cell.occupant {
        Some(p) => if p.color == color {
            1
        } else {
            0
        },
        None => 0,
    }
}

impl BoardState {
    /// The cell at `(col, row)`; meaningful only in bounds.
    pub open spec fn cell_at(self, col: int, row: int) -> Cell {
        self.cells@[row * self.width + col]
    }

    /// Whether `(col, row)` lies on the board.
    pub open spec fn in_bounds(self, col: int, row: int) -> bool {
        0 <= col < self.width && 0 <= row < self.height
    }

    /// The occupant of `(col, row)`: `None` off the board or on an empty
    /// cell.
    pub open spec fn occupant(self, col: int, row: int) -> Option<Piece> {
        if self.in_bounds(col, row) {
            self.cell_at(col, row).occupant
        } else {
            None
        }
    }

    /// Whether `(col, row)` is a playable square of the board.
    pub open spec fn playable(self, col: int, row: int) -> bool {
        self.in_bounds(col, row) && self.cell_at(col, row).playable
    }

    /// The number of pieces on the board.
    pub open spec fn num_pieces(self) -> nat {
        count_pieces(self.cells@)
    }

    /// The number of pieces of color `color` on the board.
    pub open spec fn num_color(self, color: PlayerColor) -> nat {
        count_color(self.cells@, color)
    }

    /// Well-formedness: the cell vector matches the dimensions, the parity
    /// is reduced, and every cell's playability follows the parity rule.
    pub open spec fn wf(self) -> bool {
        &&& self.cells@.len() == self.width * self.height
        &&& self.parity < 2
        &&& forall|col: int, row: int|
            self.in_bounds(col, row) ==> (#[trigger] self.cell_at(col, row)).playable
                == playable_coord(col, row, self.parity as int)
    }

    /// Two states over the same grid: equal dimensions and parity.
    pub open spec fn same_grid(self, other: BoardState) -> bool {
        self.width == other.width && self.height == other.height && self.parity == other.parity
    }

    /// Allocates a `width x height` board with every cell empty and
    /// playability assigned by the parity rule.
    pub fn new(width: u16, height: u16, parity: u16) -> (s: BoardState)
        ensures
            s.wf(),
            s.width == width,
            s.height == height,
            s.parity == parity % 2,
            s.num_pieces() == 0,
            forall|col: int, row: int| #[trigger] s.occupant(col, row) is None,
    {
        let parity = parity % 2;
        let mut cells: Vec<Cell> = Vec::new();
        let mut row: u16 = 0;
        proof {
            assert(count_pieces(cells@) == 0);
        }
        while row < height
            invariant
                row <= height,
                parity < 2,
                cells@.len() == row * width,
                count_pieces(cells@) == 0,
                forall|i: int|
                    0 <= i < cells@.len() ==> (#[trigger] cells@[i]).occupant is None,
                forall|c: int, r: int|
                    0 <= c < width && 0 <= r < row ==> (#[trigger] cells@[r * width + c]).playable
                        == playable_coord(c, r, parity as int),
            decreases height - row,
        {
            let mut col: u16 = 0;
            while col < width
                invariant
                    col <= width,
                    row < height,
                    parity < 2,
                    cells@.len() == row * width + col,
                    count_pieces(cells@) == 0,
                    forall|i: int|
                        0 <= i < cells@.len() ==> (#[trigger] cells@[i]).occupant is None,
                    forall|c: int, r: int|
                        0 <= c < width && 0 <= r < row ==> (#[trigger] cells@[r * width
                            + c]).playable == playable_coord(c, r, parity as int),
                    forall|c: int|
                        0 <= c < col ==> (#[trigger] cells@[row as int * width + c]).playable
                            == playable_coord(c, row as int, parity as int),
                decreases width - col,
            {
                let playable = (col as u32 + row as u32) % 2 == parity as u32;
                proof {
                    lemma_count_push(cells@, Cell { playable, occupant: None });
                }
                cells.push(Cell { playable, occupant: None });
                proof {
                    assert forall|c: int, r: int| 0 <= c < width && 0 <= r < row implies (
                    #[trigger] cells@[r * width + c]).playable == playable_coord(
                        c,
                        r,
                        parity as int,
                    ) by {
                        assert(0 <= r * width + c < row * width) by (nonlinear_arith)
                            requires
                                0 <= c < width,
                                0 <= r < row,
                        ;
                    }
                }
                col = col + 1;
            }
            row = row + 1;
            proof {
                assert(row * width == (row - 1) * width + width) by (nonlinear_arith);
            }
        }
        let s = BoardState { width, height, parity, cells };
        proof {
            assert(s.cells@.len() == s.width * s.height) by (nonlinear_arith)
                requires
                    s.cells@.len() == height * width,
                    s.width == width,
                    s.height == height,
            ;
            assert(s.parity < 2);
            assert forall|col: int, row0: int| s.in_bounds(col, row0) implies (#[trigger] s.cell_at(
                col,
                row0,
            )).playable == playable_coord(col, row0, s.parity as int) by {
                lemma_index_in_grid(width as int, height as int, col, row0);
            }
            assert forall|col: int, row0: int| #[trigger] s.occupant(col, row0) is None by {
                if s.in_bounds(col, row0) {
                    lemma_index_in_grid(width as int, height as int, col, row0);
                }
            }
        }
        s
    }

    /// The row-major index of an in-bounds coordinate.
    fn cell_index(&self, coord: Coordinate) -> (i: usize)
        requires
            self.wf(),
            self.in_bounds(coord.col as int, coord.row as int),
        ensures
            i == coord.row * self.width + coord.col,
            i < self.cells@.len(),
    {
        proof {
            lemma_index_in_grid(
                self.width as int,
                self.height as int,
                coord.col as int,
                coord.row as int,
            );
            assert((coord.row as int) * (self.width as int) + (coord.col as int)
                <= 0xffff * 0xffff + 0xffff) by (nonlinear_arith)
                requires
                    0 <= coord.row <= 0xffff,
                    0 <= self.width <= 0xffff,
                    0 <= coord.col <= 0xffff,
            ;
        }
        (coord.row as usize) * (self.width as usize) + (coord.col as usize)
    }

    /// Read-only lookup of the occupant of `coord`; `None` off the board.
    pub fn occupant_at(&self, coord: Coordinate) -> (r: Option<Piece>)
        requires
            self.wf(),
        ensures
            r == self.occupant(coord.col as int, coord.row as int),
    {
        if coord.col < self.width && coord.row < self.height {
            let i = self.cell_index(coord);
            self.cells[i].occupant
        } else {
            None
        }
    }

    /// Whether `coord` is a playable square of the board; `false` off the
    /// board.
    pub fn playable_at(&self, coord: Coordinate) -> (r: bool)
        requires
            self.wf(),
        ensures
            r == self.playable(coord.col as int, coord.row as int),
    {
        if coord.col < self.width && coord.row < self.height {
            let i = self.cell_index(coord);
            self.cells[i].playable
        } else {
            false
        }
    }

    /// Puts `piece` on `coord`.  Fails without changing anything when the
    /// coordinate is off the board, the cell is occupied, or the cell is not
    /// playable.
    pub fn place(&mut self, coord: Coordinate, piece: Piece) -> (r: Result<(), BoardError>)
        requires
            old(self).wf(),
        ensures
            final(self).wf(),
            final(self).same_grid(*old(self)),
            r == place_check(*old(self), coord),
            r is Err ==> *final(self) == *old(self),
            r is Ok ==> final(self).num_pieces() == old(self).num_pieces() + 1,
            r is Ok ==> final(self).num_color(piece.color) == old(self).num_color(piece.color)
                + 1,
            r is Ok ==> final(self).num_color(opposite_color(piece.color)) == old(
                self,
            ).num_color(opposite_color(piece.color)),
            forall|c: int, rw: int|
                #![trigger final(self).occupant(c, rw)]
                final(self).occupant(c, rw) == if c == coord.col as int && rw == coord.row as int
                    && r is Ok {
                    Some(piece)
                } else {
                    old(self).occupant(c, rw)
                },
    {
        if !(coord.col < self.width && coord.row < self.height) {
            return Err(BoardError::OutOfBounds);
        }
        let i = self.cell_index(coord);
        let cell = self.cells[i];
        if cell.occupant.is_some() {
            return Err(BoardError::OccupiedCell);
        }
        if !cell.playable {
            return Err(BoardError::UnplayableCell);
        }
        let new_cell = Cell { playable: true, occupant: Some(piece) };
        self.cells.set(i, new_cell);
        proof {
            self.lemma_update_counts(*old(self), i as int, cell, new_cell);
            self.lemma_update_pointwise(*old(self), coord, new_cell);
        }
        Ok(())
    }

    /// Moves the occupant of `from` onto the empty cell `to`, atomically:
    /// on success `from` is cleared and `to` holds exactly the moved piece.
    /// Fails without changing anything when either coordinate is off the
    /// board, `from` is empty, or `to` is occupied.
    pub fn move_piece(&mut self, from: Coordinate, to: Coordinate) -> (r: Result<
        (),
        BoardError,
    >)
        requires
            old(self).wf(),
        ensures
            final(self).wf(),
            final(self).same_grid(*old(self)),
            r == move_check(*old(self), from, to),
            r is Err ==> *final(self) == *old(self),
            r is Ok ==> final(self).num_pieces() == old(self).num_pieces(),
            r is Ok ==> forall|color: PlayerColor|
                final(self).num_color(color) == old(self).num_color(color),
            forall|c: int, rw: int|
                #![trigger final(self).occupant(c, rw)]
                final(self).occupant(c, rw) == if r is Ok && c == to.col as int && rw
                    == to.row as int {
                    old(self).occupant(from.col as int, from.row as int)
                } else if r is Ok && c == from.col as int && rw == from.row as int {
                    None::<Piece>
                } else {
                    old(self).occupant(c, rw)
                },
    {
        if !(from.col < self.width && from.row < self.height) || !(to.col < self.width
            && to.row < self.height) {
            return Err(BoardError::OutOfBounds);
        }
        let i_from = self.cell_index(from);
        let from_cell = self.cells[i_from];
        if from_cell.occupant.is_none() {
            return Err(BoardError::EmptySource);
        }
        let i_to = self.cell_index(to);
        let to_cell = self.cells[i_to];
        if to_cell.occupant.is_some() {
            return Err(BoardError::OccupiedCell);
        }
        proof {
            if i_from == i_to {
                lemma_grid_index_injective(
                    self.width as int,
                    from.col as int,
                    from.row as int,
                    to.col as int,
                    to.row as int,
                );
            }
            assert(i_from != i_to);
        }
        let ghost mid0 = *self;
        let cleared = Cell { playable: from_cell.playable, occupant: None };
        self.cells.set(i_from, cleared);
        proof {
            self.lemma_update_counts(mid0, i_from as int, from_cell, cleared);
            self.lemma_update_pointwise(mid0, from, cleared);
        }
        let ghost mid1 = *self;
        let filled = Cell { playable: to_cell.playable, occupant: from_cell.occupant };
        self.cells.set(i_to, filled);
        proof {
            assert(mid1.cell_at(to.col as int, to.row as int) == to_cell);
            self.lemma_update_counts(mid1, i_to as int, to_cell, filled);
            self.lemma_update_pointwise(mid1, to, filled);
        }
        Ok(())
    }

    /// Clears the occupant of `coord` (used to resolve a capture).  Fails
    /// without changing anything when the coordinate is off the board or the
    /// cell is already empty.
    pub fn remove(&mut self, coord: Coordinate) -> (r: Result<(), BoardError>)
        requires
            old(self).wf(),
        ensures
            final(self).wf(),
            final(self).same_grid(*old(self)),
            r == remove_check(*old(self), coord),
            r is Err ==> *final(self) == *old(self),
            r is Ok ==> final(self).num_pieces() + 1 == old(self).num_pieces(),
            r is Ok ==> forall|color: PlayerColor|
                #![trigger final(self).num_color(color)]
                final(self).num_color(color) + (if old(self).occupant(
                    coord.col as int,
                    coord.row as int,
                )->Some_0.color == color {
                    1nat
                } else {
                    0nat
                }) == old(self).num_color(color),
            forall|c: int, rw: int|
                #![trigger final(self).occupant(c, rw)]
                final(self).occupant(c, rw) == if r is Ok && c == coord.col as int && rw
                    == coord.row as int {
                    None::<Piece>
                } else {
                    old(self).occupant(c, rw)
                },
    {
        if !(coord.col < self.width && coord.row < self.height) {
            return Err(BoardError::OutOfBounds);
        }
        let i = self.cell_index(coord);
        let cell = self.cells[i];
        if cell.occupant.is_none() {
            return Err(BoardError::EmptySource);
        }
        let cleared = Cell { playable: cell.playable, occupant: None };
        self.cells.set(i, cleared);
        proof {
            self.lemma_update_counts(*old(self), i as int, cell, cleared);
            self.lemma_update_pointwise(*old(self), coord, cleared);
        }
        Ok(())
    }

    /// Counts the pieces on the board.
    pub fn count_all(&self) -> (n: u64)
        requires
            self.wf(),
        ensures
            n == self.num_pieces(),
    {
        let mut n: u64 = 0;
        let mut i: usize = 0;
        proof {
            assert(self.cells@.take(0) =~= Seq::<Cell>::empty());
        }
        while i < self.cells.len()
            invariant
                i <= self.cells@.len(),
                n == count_pieces(self.cells@.take(i as int)),
                n <= i,
            decreases self.cells@.len() - i,
        {
            proof {
                assert(self.cells@.take(i + 1).drop_last() =~= self.cells@.take(i as int));
                assert(self.cells@.take(i + 1).last() == self.cells@[i as int]);
            }
            if self.cells[i].occupant.is_some() {
                n = n + 1;
            }
            i = i + 1;
        }
        proof {
            assert(self.cells@.take(self.cells@.len() as int) =~= self.cells@);
        }
        n
    }

    /// Counts the pieces of color `color` on the board; an outside observer
    /// may poll this for zero to declare a winner.
    pub fn count_of_color(&self, color: PlayerColor) -> (n: u64)
        requires
            self.wf(),
        ensures
            n == self.num_color(color),
    {
        let mut n: u64 = 0;
        let mut i: usize = 0;
        proof {
            assert(self.cells@.take(0) =~= Seq::<Cell>::empty());
        }
        while i < self.cells.len()
            invariant
                i <= self.cells@.len(),
                n == count_color(self.cells@.take(i as int), color),
                n <= i,
            decreases self.cells@.len() - i,
        {
            proof {
                assert(self.cells@.take(i + 1).drop_last() =~= self.cells@.take(i as int));
                assert(self.cells@.take(i + 1).last() == self.cells@[i as int]);
            }
            let occupied_by_color = match self.cells[i].occupant {
                Some(p) => p.color == color,
                None => false,
            };
            if occupied_by_color {
                n = n + 1;
            }
            i = i + 1;
        }
        proof {
            assert(self.cells@.take(self.cells@.len() as int) =~= self.cells@);
        }
        n
    }

    /// After `old_state.cells` was updated at index `i` from `prev` to
    /// `next`, relates the new counts to the old.
    proof fn lemma_update_counts(
        self,
        old_state: BoardState,
        i: int,
        prev: Cell,
        next: Cell,
    )
        requires
            0 <= i < old_state.cells@.len(),
            old_state.cells@[i] == prev,
            self.cells@ == old_state.cells@.update(i, next),
        ensures
            count_pieces(self.cells@) + occupied_one(prev) == count_pieces(old_state.cells@)
                + occupied_one(next),
            forall|color: PlayerColor|
                #![trigger count_color(self.cells@, color)]
                count_color(self.cells@, color) + color_one(prev, color) == count_color(
                    old_state.cells@,
                    color,
                ) + color_one(next, color),
    {
        lemma_count_update(old_state.cells@, i, next);
        assert forall|color: PlayerColor|
            count_color(self.cells@, color) + color_one(prev, color) == count_color(
                old_state.cells@,
                color,
            ) + color_one(next, color) by {
            lemma_count_color_update(old_state.cells@, i, next, color);
        }
    }

    /// After `old_state.cells` was updated at `coord`'s index to `next`,
    /// gives the pointwise occupancy and playability of the new state.
    proof fn lemma_update_pointwise(self, old_state: BoardState, coord: Coordinate, next: Cell)
        requires
            old_state.wf(),
            old_state.in_bounds(coord.col as int, coord.row as int),
            next.playable == old_state.cell_at(coord.col as int, coord.row as int).playable,
            self.width == old_state.width,
            self.height == old_state.height,
            self.parity == old_state.parity,
            self.cells@ == old_state.cells@.update(
                coord.row as int * old_state.width + coord.col as int,
                next,
            ),
        ensures
            self.wf(),
            forall|c: int, rw: int|
                #![trigger self.occupant(c, rw)]
                self.occupant(c, rw) == if c == coord.col as int && rw == coord.row as int {
                    next.occupant
                } else {
                    old_state.occupant(c, rw)
                },
    {
        let i = coord.row as int * old_state.width + coord.col as int;
        lemma_index_in_grid(
            old_state.width as int,
            old_state.height as int,
            coord.col as int,
            coord.row as int,
        );
        assert forall|c: int, rw: int| self.in_bounds(c, rw) implies (#[trigger] self.cell_at(
            c,
            rw,
        )) == if c == coord.col as int && rw == coord.row as int {
            next
        } else {
            old_state.cell_at(c, rw)
        } by {
            lemma_index_in_grid(old_state.width as int, old_state.height as int, c, rw);
            if c == coord.col as int && rw == coord.row as int {
            } else if rw * old_state.width + c == i {
                lemma_grid_index_injective(old_state.width as int, c, rw, coord.col as int,
                    coord.row as int);
            }
        }
        assert forall|c: int, rw: int| self.in_bounds(c, rw) implies (#[trigger] self.cell_at(
            c,
            rw,
        )).playable == playable_coord(c, rw, self.parity as int) by {}
    }
}

/// Which error, if any, `place` reports for `coord` on `state`.
pub open spec fn place_check(state: BoardState, coord: Coordinate) -> Result<(), BoardError> {
    if !state.in_bounds(coord.col as int, coord.row as int) {
        Err(BoardError::OutOfBounds)
    } else if state.occupant(coord.col as int, coord.row as int) is Some {
        Err(BoardError::OccupiedCell)
    } else if !state.playable(coord.col as int, coord.row as int) {
        Err(BoardError::UnplayableCell)
    } else {
        Ok(())
    }
}

/// Which error, if any, `move_piece` reports for `from -> to` on `state`.
pub open spec fn move_check(state: BoardState, from: Coordinate, to: Coordinate) -> Result<
    (),
    BoardError,
> {
    if !state.in_bounds(from.col as int, from.row as int) || !state.in_bounds(
        to.col as int,
        to.row as int,
    ) {
        Err(BoardError::OutOfBounds)
    } else if state.occupant(from.col as int, from.row as int) is None {
        Err(BoardError::EmptySource)
    } else if state.occupant(to.col as int, to.row as int) is Some {
        Err(BoardError::OccupiedCell)
    } else {
        Ok(())
    }
}

/// Which error, if any, `remove` reports for `coord` on `state`.
pub open spec fn remove_check(state: BoardState, coord: Coordinate) -> Result<(), BoardError> {
    if !state.in_bounds(coord.col as int, coord.row as int) {
        Err(BoardError::OutOfBounds)
    } else if state.occupant(coord.col as int, coord.row as int) is None {
        Err(BoardError::EmptySource)
    } else {
        Ok(())
    }
}

/// Appending a cell adds its occupancy to the counts.
proof fn lemma_count_push(cells: Seq<Cell>, cell: Cell)
    ensures
        count_pieces(cells.push(cell)) == count_pieces(cells) + occupied_one(cell),
        forall|color: PlayerColor|
            #![trigger count_color(cells.push(cell), color)]
            count_color(cells.push(cell), color) == count_color(cells, color) + color_one(
                cell,
                color,
            ),
{
    assert(cells.push(cell).drop_last() =~= cells);
    assert(cells.push(cell).last() == cell);
}

/// Updating index `i` replaces exactly that cell's contribution to the
/// piece count.
proof fn lemma_count_update(cells: Seq<Cell>, i: int, next: Cell)
    requires
        0 <= i < cells.len(),
    ensures
        count_pieces(cells.update(i, next)) + occupied_one(cells[i]) == count_pieces(cells)
            + occupied_one(next),
    decreases cells.len(),
{
    let updated = cells.update(i, next);
    if i == cells.len() - 1 {
        assert(updated.drop_last() =~= cells.drop_last());
        assert(updated.last() == next);
    } else {
        assert(updated.drop_last() =~= cells.drop_last().update(i, next));
        assert(updated.last() == cells.last());
        lemma_count_update(cells.drop_last(), i, next);
    }
}

/// Updating index `i` replaces exactly that cell's contribution to the
/// per-color count.
proof fn lemma_count_color_update(cells: Seq<Cell>, i: int, next: Cell, color: PlayerColor)
    requires
        0 <= i < cells.len(),
    ensures
        count_color(cells.update(i, next), color) + color_one(cells[i], color) == count_color(
            cells,
            color,
        ) + color_one(next, color),
    decreases cells.len(),
{
    let updated = cells.update(i, next);
    if i == cells.len() - 1 {
        assert(updated.drop_last() =~= cells.drop_last());
        assert(updated.last() == next);
    } else {
        assert(updated.drop_last() =~= cells.drop_last().update(i, next));
        assert(updated.last() == cells.last());
        lemma_count_color_update(cells.drop_last(), i, next, color);
    }
}

/// An in-bounds coordinate's row-major index lies inside the grid.
proof fn lemma_index_in_grid(width: int, height: int, col: int, row: int)
    requires
        0 <= col < width,
        0 <= row < height,
    ensures
        0 <= row * width + col < height * width,
        row * width + col < width * height,
{
    assert(0 <= row * width + col < height * width && row * width + col < width * height)
        by (nonlinear_arith)
        requires
            0 <= col < width,
            0 <= row < height,
    ;
}

/// Row-major indexing is injective over in-bounds coordinates.
proof fn lemma_grid_index_injective(width: int, col1: int, row1: int, col2: int, row2: int)
    requires
        0 <= col1 < width,
        0 <= col2 < width,
        0 <= row1,
        0 <= row2,
        row1 * width + col1 == row2 * width + col2,
    ensures
        col1 == col2,
        row1 == row2,
{
    let i = row1 * width + col1;
    lemma_fundamental_div_mod_converse_div(i, width, row1, col1);
    lemma_fundamental_div_mod_converse_div(i, width, row2, col2);
}

} // verus!
