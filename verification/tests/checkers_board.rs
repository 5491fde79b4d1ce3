use checkers::board::{BoardError, BoardState, Piece, PlayerColor};
use checkers::geometry::{Board, Coordinate, Scale, ScreenPos};
use checkers::rules::{is_capture_move, jumped_cell, legal_destinations};

fn coord(col: u16, row: u16) -> Coordinate {
    Coordinate { col, row }
}

fn black() -> Piece {
    Piece { color: PlayerColor::Black }
}

fn red() -> Piece {
    Piece { color: PlayerColor::Red }
}

#[test]
fn screen_round_trip_covers_every_cell() {
    let board = Board::new(8, 8, 32, 32, 1028, 1028);
    for col in 0..8u16 {
        for row in 0..8u16 {
            let c = coord(col, row);
            let pos = board.cell_to_screen(c);
            assert_eq!(board.screen_to_cell(pos), Some(c));
        }
    }
}

#[test]
fn cell_centres_are_exact() {
    // 8x8 board, 32x32 tiles, 1028x1028 viewport: the scaled tile is
    // 1028/8 = 128.5 pixels, so cell (0,0) is centred at -449.75 pixels,
    // which is -7196 in sub-units of 1/16 pixel.
    let board = Board::new(8, 8, 32, 32, 1028, 1028);
    assert_eq!(board.cell_to_screen(coord(0, 0)), ScreenPos { x: -7196, y: -7196 });
    assert_eq!(board.cell_to_screen(coord(7, 7)), ScreenPos { x: 7196, y: 7196 });
    assert_eq!(board.cell_to_screen(coord(3, 5)), ScreenPos { x: -1028, y: 3084 });
    assert_eq!(board.bottom_left_origin(), ScreenPos { x: -7196, y: -7196 });
}

#[test]
fn scale_factors_are_exact_ratios() {
    let board = Board::new(8, 8, 32, 32, 1028, 1028);
    let (sx, sy) = board.scale_factor();
    assert_eq!(sx, Scale { num: 1028, den: 256 });
    assert_eq!(sy, Scale { num: 1028, den: 256 });
    let (tx, ty) = board.scaled_tile_size();
    assert_eq!(tx, Scale { num: 1028, den: 8 });
    assert_eq!(ty, Scale { num: 1028, den: 8 });
}

#[test]
fn degenerate_board_yields_zero_scale_and_no_cells() {
    let board = Board::new(0, 8, 32, 32, 1028, 1028);
    let (sx, _) = board.scale_factor();
    assert_eq!(sx, Scale { num: 0, den: 1 });
    assert_eq!(board.screen_to_cell(ScreenPos { x: 0, y: 0 }), None);
}

#[test]
fn pointer_anywhere_in_cell_span_resolves_to_it() {
    // Cell (0,0) spans sub-units [-8224, -6168) on each axis.
    let board = Board::new(8, 8, 32, 32, 1028, 1028);
    assert_eq!(
        board.screen_to_cell(ScreenPos { x: -8224, y: -8224 }),
        Some(coord(0, 0))
    );
    assert_eq!(
        board.screen_to_cell(ScreenPos { x: -6169, y: -7196 }),
        Some(coord(0, 0))
    );
    assert_eq!(
        board.screen_to_cell(ScreenPos { x: -6168, y: -7196 }),
        Some(coord(1, 0))
    );
    assert_eq!(board.screen_to_cell(ScreenPos { x: -8225, y: 0 }), None);
    assert_eq!(board.screen_to_cell(ScreenPos { x: 0, y: 8224 }), None);
}

#[test]
fn resize_rescales_placements() {
    let mut board = Board::new(8, 8, 32, 32, 1028, 1028);
    board.resize(514, 514);
    assert_eq!(board.cell_to_screen(coord(0, 0)), ScreenPos { x: -3598, y: -3598 });
}

#[test]
fn place_rejects_bad_cells() {
    let mut state = BoardState::new(8, 8, 0);
    assert_eq!(state.place(coord(8, 0), black()), Err(BoardError::OutOfBounds));
    assert_eq!(state.place(coord(1, 0), black()), Err(BoardError::UnplayableCell));
    assert_eq!(state.place(coord(0, 0), black()), Ok(()));
    assert_eq!(state.place(coord(0, 0), red()), Err(BoardError::OccupiedCell));
    assert_eq!(state.occupant_at(coord(0, 0)), Some(black()));
}

#[test]
fn move_piece_rejects_bad_moves_and_is_atomic() {
    let mut state = BoardState::new(8, 8, 0);
    state.place(coord(2, 2), black()).unwrap();
    state.place(coord(3, 3), red()).unwrap();
    assert_eq!(state.move_piece(coord(4, 4), coord(5, 5)), Err(BoardError::EmptySource));
    assert_eq!(state.move_piece(coord(2, 2), coord(3, 3)), Err(BoardError::OccupiedCell));
    assert_eq!(state.move_piece(coord(2, 2), coord(8, 8)), Err(BoardError::OutOfBounds));
    assert_eq!(state.occupant_at(coord(2, 2)), Some(black()));
    assert_eq!(state.move_piece(coord(2, 2), coord(1, 1)), Ok(()));
    assert_eq!(state.occupant_at(coord(2, 2)), None);
    assert_eq!(state.occupant_at(coord(1, 1)), Some(black()));
}

#[test]
fn remove_rejects_empty_cells() {
    let mut state = BoardState::new(8, 8, 0);
    assert_eq!(state.remove(coord(0, 0)), Err(BoardError::EmptySource));
    assert_eq!(state.remove(coord(9, 0)), Err(BoardError::OutOfBounds));
    state.place(coord(0, 0), red()).unwrap();
    assert_eq!(state.remove(coord(0, 0)), Ok(()));
    assert_eq!(state.occupant_at(coord(0, 0)), None);
}

#[test]
fn occupancy_count_tracks_places_and_removals() {
    let mut state = BoardState::new(8, 8, 0);
    assert_eq!(state.count_all(), 0);
    state.place(coord(0, 0), black()).unwrap();
    state.place(coord(2, 0), black()).unwrap();
    state.place(coord(1, 1), red()).unwrap();
    assert_eq!(state.count_all(), 3);
    assert_eq!(state.count_of_color(PlayerColor::Black), 2);
    assert_eq!(state.count_of_color(PlayerColor::Red), 1);
    state.move_piece(coord(0, 0), coord(1, 3)).unwrap();
    assert_eq!(state.count_all(), 3);
    state.remove(coord(1, 1)).unwrap();
    assert_eq!(state.count_all(), 2);
    assert_eq!(state.count_of_color(PlayerColor::Red), 0);
}

#[test]
fn simple_destinations_for_black_piece() {
    // A Black piece on (1,2) with (0,3) and (2,3) empty may step to both.
    let mut state = BoardState::new(8, 8, 1);
    state.place(coord(1, 2), black()).unwrap();
    let dests = legal_destinations(&state, coord(1, 2), PlayerColor::Black);
    assert_eq!(dests.len(), 2);
    assert!(dests.contains(&coord(0, 3)));
    assert!(dests.contains(&coord(2, 3)));
}

#[test]
fn capture_replaces_blocked_destination() {
    // With a Red piece on (2,3) and (3,4) empty, (2,3) is excluded and the
    // capture landing cell (3,4) takes its place.
    let mut state = BoardState::new(8, 8, 1);
    state.place(coord(1, 2), black()).unwrap();
    state.place(coord(2, 3), red()).unwrap();
    let dests = legal_destinations(&state, coord(1, 2), PlayerColor::Black);
    assert_eq!(dests.len(), 2);
    assert!(dests.contains(&coord(0, 3)));
    assert!(dests.contains(&coord(3, 4)));
    assert!(!dests.contains(&coord(2, 3)));
    assert!(is_capture_move(&state, coord(1, 2), PlayerColor::Black, coord(3, 4)));
    assert!(!is_capture_move(&state, coord(1, 2), PlayerColor::Black, coord(0, 3)));
    assert_eq!(jumped_cell(coord(1, 2), coord(3, 4)), coord(2, 3));
}

#[test]
fn red_advances_toward_smaller_rows() {
    let mut state = BoardState::new(8, 8, 1);
    state.place(coord(4, 5), red()).unwrap();
    let dests = legal_destinations(&state, coord(4, 5), PlayerColor::Red);
    assert_eq!(dests.len(), 2);
    assert!(dests.contains(&coord(3, 4)));
    assert!(dests.contains(&coord(5, 4)));
}

#[test]
fn destinations_stay_on_the_board() {
    let mut state = BoardState::new(8, 8, 1);
    state.place(coord(0, 7), black()).unwrap();
    let dests = legal_destinations(&state, coord(0, 7), PlayerColor::Black);
    assert!(dests.is_empty());
    let mut state2 = BoardState::new(8, 8, 0);
    state2.place(coord(0, 0), red()).unwrap();
    let dests2 = legal_destinations(&state2, coord(0, 0), PlayerColor::Red);
    assert!(dests2.is_empty());
}
