use checkers::board::{BoardState, Piece, PlayerColor};
use checkers::engine::{initialize, PickOutcome, Selection, TurnEngine};
use checkers::geometry::{Board, Coordinate, ScreenPos};
use checkers::picker::pick;

fn coord(col: u16, row: u16) -> Coordinate {
    Coordinate { col, row }
}

fn black() -> Piece {
    Piece { color: PlayerColor::Black }
}

fn red() -> Piece {
    Piece { color: PlayerColor::Red }
}

#[test]
fn initial_layout_fills_edge_rows_on_playable_squares() {
    // 8x8 board, playable squares where (col + row) % 2 == 0: Black fills
    // rows 0..3, Red rows 5..8, and nothing else is occupied.
    let engine = initialize(8, 8, 0, PlayerColor::Black);
    for col in 0..8u16 {
        for row in 0..8u16 {
            let expected = if (col + row) % 2 == 0 {
                if row < 3 {
                    Some(black())
                } else if row >= 5 {
                    Some(red())
                } else {
                    None
                }
            } else {
                None
            };
            assert_eq!(engine.state.occupant_at(coord(col, row)), expected);
        }
    }
    assert_eq!(engine.state.count_all(), 24);
    assert_eq!(engine.state.count_of_color(PlayerColor::Black), 12);
    assert_eq!(engine.state.count_of_color(PlayerColor::Red), 12);
}

#[test]
fn picking_an_empty_cell_from_idle_is_ignored() {
    let mut engine = initialize(8, 8, 0, PlayerColor::Black);
    // (0,4) is playable but empty; (1,4) is not even playable.
    assert_eq!(engine.pick(coord(0, 4)), PickOutcome::Ignored);
    assert_eq!(engine.selection, Selection::Idle);
    assert_eq!(engine.pick(coord(1, 4)), PickOutcome::Ignored);
    assert_eq!(engine.selection, Selection::Idle);
    // Picking the opponent's piece from Idle is ignored too.
    assert_eq!(engine.pick(coord(1, 5)), PickOutcome::Ignored);
    assert_eq!(engine.selection, Selection::Idle);
    assert_eq!(engine.current_player, PlayerColor::Black);
    assert_eq!(engine.commits, 0);
}

#[test]
fn committing_a_capture_removes_exactly_the_jumped_piece() {
    let mut engine = TurnEngine::new(8, 8, 1, PlayerColor::Black);
    engine.state.place(coord(1, 2), black()).unwrap();
    engine.state.place(coord(2, 3), red()).unwrap();
    assert_eq!(engine.state.count_all(), 2);

    assert_eq!(engine.pick(coord(1, 2)), PickOutcome::Selected);
    assert_eq!(engine.selection, Selection::Selected(coord(1, 2)));
    assert_eq!(engine.pick(coord(3, 4)), PickOutcome::Captured);

    assert_eq!(engine.state.count_all(), 1);
    assert_eq!(engine.state.occupant_at(coord(3, 4)), Some(black()));
    assert_eq!(engine.state.occupant_at(coord(2, 3)), None);
    assert_eq!(engine.state.occupant_at(coord(1, 2)), None);
    assert_eq!(engine.selection, Selection::Idle);
    assert_eq!(engine.current_player, PlayerColor::Red);
    assert_eq!(engine.commits, 1);
    assert_eq!(engine.state.count_of_color(PlayerColor::Red), 0);
}

#[test]
fn turn_alternates_with_each_committed_move() {
    let mut engine = TurnEngine::new(8, 8, 1, PlayerColor::Black);
    engine.state.place(coord(1, 2), black()).unwrap();
    engine.state.place(coord(6, 5), red()).unwrap();

    assert_eq!(engine.current_player, PlayerColor::Black);
    assert_eq!(engine.pick(coord(1, 2)), PickOutcome::Selected);
    assert_eq!(engine.pick(coord(0, 3)), PickOutcome::Moved);
    assert_eq!(engine.current_player, PlayerColor::Red);
    assert_eq!(engine.commits, 1);

    assert_eq!(engine.pick(coord(6, 5)), PickOutcome::Selected);
    assert_eq!(engine.pick(coord(5, 4)), PickOutcome::Moved);
    assert_eq!(engine.current_player, PlayerColor::Black);
    assert_eq!(engine.commits, 2);
    assert_eq!(engine.state.count_all(), 2);
}

#[test]
fn reselect_and_deselect_leave_the_board_alone() {
    let mut engine = TurnEngine::new(8, 8, 1, PlayerColor::Black);
    engine.state.place(coord(1, 2), black()).unwrap();
    engine.state.place(coord(3, 2), black()).unwrap();

    assert_eq!(engine.pick(coord(1, 2)), PickOutcome::Selected);
    assert_eq!(engine.pick(coord(3, 2)), PickOutcome::Reselected);
    assert_eq!(engine.selection, Selection::Selected(coord(3, 2)));
    // Picking an empty cell that is no legal destination deselects.
    assert_eq!(engine.pick(coord(7, 0)), PickOutcome::Deselected);
    assert_eq!(engine.selection, Selection::Idle);
    assert_eq!(engine.state.count_all(), 2);
    assert_eq!(engine.commits, 0);
    assert_eq!(engine.current_player, PlayerColor::Black);

    engine.pick(coord(1, 2));
    engine.deselect();
    assert_eq!(engine.selection, Selection::Idle);
}

#[test]
fn illegal_backward_move_only_deselects() {
    let mut engine = TurnEngine::new(8, 8, 1, PlayerColor::Black);
    engine.state.place(coord(2, 3), black()).unwrap();
    assert_eq!(engine.pick(coord(2, 3)), PickOutcome::Selected);
    // (1,2) is behind the Black piece, so it is no legal destination.
    assert_eq!(engine.pick(coord(1, 2)), PickOutcome::Deselected);
    assert_eq!(engine.state.occupant_at(coord(2, 3)), Some(black()));
    assert_eq!(engine.commits, 0);
}

#[test]
fn pick_resolves_pointer_to_occupied_cell_only() {
    let board = Board::new(8, 8, 32, 32, 1028, 1028);
    let engine = initialize(8, 8, 0, PlayerColor::Black);

    // Dead centre of the occupied cell (2,2).
    let on_piece = board.cell_to_screen(coord(2, 2));
    assert_eq!(pick(&board, &engine.state, on_piece), Some(coord(2, 2)));

    // A point inside the same cell but away from its centre still picks it.
    let off_centre = ScreenPos { x: on_piece.x + 1000, y: on_piece.y - 1000 };
    assert_eq!(pick(&board, &engine.state, off_centre), Some(coord(2, 2)));

    // An empty cell picks nothing.
    let on_empty = board.cell_to_screen(coord(0, 4));
    assert_eq!(pick(&board, &engine.state, on_empty), None);

    // Off the board picks nothing.
    assert_eq!(pick(&board, &engine.state, ScreenPos { x: 99999, y: 0 }), None);
}
