use chess_core::{
    ChessPieceType, Coordinate, Game, GamePlugin, MoveError, PieceMoveEvent, Point3, Team,
};

fn unit_grid_anchors() -> Vec<Point3> {
    let mut v = Vec::new();
    for file in 0i64..8 {
        for rank in 0i64..8 {
            v.push(Point3 { x: file * 1000, y: 0, z: rank * 1000 });
        }
    }
    v
}

fn coord(file: u8, rank: u8) -> Coordinate {
    Coordinate::from_file_rank(file, rank).unwrap()
}

fn empty_game() -> Game {
    Game::new(&unit_grid_anchors())
}

#[test]
fn startup_lays_out_the_standard_pieces() {
    let game = GamePlugin::startup(&unit_grid_anchors());
    assert_eq!(game.active_team.0, Team::White);
    assert!(game.selection.piece.is_none());
    let expect_back = [
        ChessPieceType::Rook,
        ChessPieceType::Knight,
        ChessPieceType::Bishop,
        ChessPieceType::Queen,
        ChessPieceType::King,
        ChessPieceType::Bishop,
        ChessPieceType::Knight,
        ChessPieceType::Rook,
    ];
    for file in 0u8..8 {
        let white_back = game.get_piece(game.board.occupant_of(coord(file, 0)).unwrap()).unwrap();
        assert_eq!(white_back.team, Team::White);
        assert_eq!(white_back.kind, expect_back[file as usize]);
        assert!(!white_back.has_moved);
        let white_pawn = game.get_piece(game.board.occupant_of(coord(file, 1)).unwrap()).unwrap();
        assert_eq!(white_pawn.team, Team::White);
        assert_eq!(white_pawn.kind, ChessPieceType::Pawn);
        let black_pawn = game.get_piece(game.board.occupant_of(coord(file, 6)).unwrap()).unwrap();
        assert_eq!(black_pawn.team, Team::Black);
        assert_eq!(black_pawn.kind, ChessPieceType::Pawn);
        let black_back = game.get_piece(game.board.occupant_of(coord(file, 7)).unwrap()).unwrap();
        assert_eq!(black_back.team, Team::Black);
        assert_eq!(black_back.kind, expect_back[file as usize]);
        for rank in 2u8..6 {
            assert!(game.board.occupant_of(coord(file, rank)).is_none());
        }
    }
}

#[test]
fn pressing_a_piece_twice_returns_to_empty_with_no_intent() {
    let mut game = GamePlugin::startup(&unit_grid_anchors());
    let pawn = game.board.occupant_of(coord(4, 1)).unwrap();
    assert!(game.press_piece(pawn).is_none());
    assert_eq!(game.selection.piece, Some(pawn));
    assert!(game.press_piece(pawn).is_none());
    assert!(game.selection.piece.is_none());
    // No board mutation and no turn change happened.
    assert_eq!(game.board.position_of(pawn), Some(coord(4, 1)));
    assert_eq!(game.active_team.0, Team::White);
}

#[test]
fn pressing_a_wrong_team_piece_is_a_silent_no_op() {
    let mut game = GamePlugin::startup(&unit_grid_anchors());
    let black_pawn = game.board.occupant_of(coord(0, 6)).unwrap();
    assert!(game.press_piece(black_pawn).is_none());
    assert!(game.selection.piece.is_none());
    assert_eq!(game.active_team.0, Team::White);
}

#[test]
fn pressing_a_second_piece_emits_an_intent_onto_its_square() {
    let mut game = GamePlugin::startup(&unit_grid_anchors());
    let white_pawn = game.board.occupant_of(coord(4, 1)).unwrap();
    let black_pawn = game.board.occupant_of(coord(4, 6)).unwrap();
    assert!(game.press_piece(white_pawn).is_none());
    let intent = game.press_piece(black_pawn).unwrap();
    assert_eq!(intent, PieceMoveEvent { from: coord(4, 1), to: coord(4, 6) });
    assert!(game.selection.piece.is_none());
}

#[test]
fn press_square_selects_only_active_team_occupants() {
    let mut game = GamePlugin::startup(&unit_grid_anchors());
    // Empty square: nothing happens.
    assert!(game.press_square(coord(4, 3)).is_none());
    assert!(game.selection.piece.is_none());
    // Square held by the opponent: rejected.
    assert!(game.press_square(coord(4, 6)).is_none());
    assert!(game.selection.piece.is_none());
    // Square held by the active team: its occupant becomes selected.
    assert!(game.press_square(coord(4, 1)).is_none());
    assert_eq!(game.selection.piece, game.board.occupant_of(coord(4, 1)));
}

#[test]
fn press_square_on_own_square_deselects() {
    let mut game = GamePlugin::startup(&unit_grid_anchors());
    let pawn = game.board.occupant_of(coord(4, 1)).unwrap();
    assert!(game.press_piece(pawn).is_none());
    assert!(game.press_square(coord(4, 1)).is_none());
    assert!(game.selection.piece.is_none());
}

#[test]
fn press_square_emits_an_intent_onto_another_square() {
    let mut game = GamePlugin::startup(&unit_grid_anchors());
    let pawn = game.board.occupant_of(coord(4, 1)).unwrap();
    assert!(game.press_piece(pawn).is_none());
    let intent = game.press_square(coord(4, 3)).unwrap();
    assert_eq!(intent, PieceMoveEvent { from: coord(4, 1), to: coord(4, 3) });
    assert!(game.selection.piece.is_none());
}

#[test]
fn executing_a_move_relocates_toggles_and_sets_the_flag() {
    let mut game = GamePlugin::startup(&unit_grid_anchors());
    let pawn = game.board.occupant_of(coord(4, 1)).unwrap();
    let record = game
        .update_move(PieceMoveEvent { from: coord(4, 1), to: coord(4, 3) })
        .unwrap();
    assert_eq!(record.piece, pawn);
    assert_eq!(record.from, coord(4, 1));
    assert_eq!(record.to, coord(4, 3));
    assert!(record.captured.is_none());
    assert!(game.board.occupant_of(coord(4, 1)).is_none());
    assert_eq!(game.board.occupant_of(coord(4, 3)), Some(pawn));
    assert!(game.get_piece(pawn).unwrap().has_moved);
    // Turn parity: exactly one executed move flips the active team.
    assert_eq!(game.active_team.0, Team::Black);
}

#[test]
fn capture_destroys_the_defender_and_toggles_the_turn() {
    // White Rook at A1, Black Pawn at A8; intent A1 -> A8 while White is
    // the active team.
    let mut game = empty_game();
    let rook = game.spawn(Team::White, coord(0, 0), ChessPieceType::Rook).unwrap();
    let pawn = game.spawn(Team::Black, coord(0, 7), ChessPieceType::Pawn).unwrap();
    let record = game
        .update_move(PieceMoveEvent { from: coord(0, 0), to: coord(0, 7) })
        .unwrap();
    assert_eq!(record.piece, rook);
    assert_eq!(record.captured, Some(pawn));
    // A8 ends occupied by the Rook, A1 empty, the Pawn is destroyed.
    assert_eq!(game.board.occupant_of(coord(0, 7)), Some(rook));
    assert!(game.board.occupant_of(coord(0, 0)).is_none());
    assert!(game.board.position_of(pawn).is_none());
    assert!(game.get_piece(pawn).is_none());
    assert_eq!(game.active_team.0, Team::Black);
}

#[test]
fn own_team_destination_rejects_the_whole_intent() {
    // Selected White piece at D1; a press on the White piece at E1 is read
    // as a move intent D1 -> E1, which the executor must refuse.
    let mut game = empty_game();
    let queen = game.spawn(Team::White, coord(3, 0), ChessPieceType::Queen).unwrap();
    let king = game.spawn(Team::White, coord(4, 0), ChessPieceType::King).unwrap();
    assert!(game.press_piece(queen).is_none());
    let intent = game.press_piece(king).unwrap();
    assert_eq!(intent, PieceMoveEvent { from: coord(3, 0), to: coord(4, 0) });
    assert_eq!(game.update_move(intent), Err(MoveError::OwnTeamAtDestination));
    // Board, pieces and turn are unchanged; selection is back to empty.
    assert_eq!(game.board.position_of(queen), Some(coord(3, 0)));
    assert_eq!(game.board.position_of(king), Some(coord(4, 0)));
    assert!(!game.get_piece(queen).unwrap().has_moved);
    assert_eq!(game.active_team.0, Team::White);
    assert!(game.selection.piece.is_none());
}

#[test]
fn spawn_rejects_an_occupied_square() {
    let mut game = empty_game();
    game.spawn(Team::White, coord(3, 0), ChessPieceType::Queen).unwrap();
    assert!(game.spawn(Team::Black, coord(3, 0), ChessPieceType::Pawn).is_err());
    assert_eq!(game.get_piece(game.board.occupant_of(coord(3, 0)).unwrap()).unwrap().team, Team::White);
}

#[test]
fn turns_alternate_across_consecutive_moves() {
    let mut game = GamePlugin::startup(&unit_grid_anchors());
    assert_eq!(game.active_team.0, Team::White);
    game.update_move(PieceMoveEvent { from: coord(4, 1), to: coord(4, 3) }).unwrap();
    assert_eq!(game.active_team.0, Team::Black);
    game.update_move(PieceMoveEvent { from: coord(4, 6), to: coord(4, 4) }).unwrap();
    assert_eq!(game.active_team.0, Team::White);
}
