use chess_core::{BoardError, ChessBoard, Coordinate, PieceId, Point3};

/// Anchors on a unit grid (scaled to fixed-point units): square `(file,
/// rank)` sits at `(file * 1000, 0, rank * 1000)`.
fn unit_grid_anchors() -> Vec<Point3> {
    let mut v = Vec::new();
    for file in 0i64..8 {
        for rank in 0i64..8 {
            v.push(Point3 { x: file * 1000, y: 0, z: rank * 1000 });
        }
    }
    v
}

fn coord(file: u8, rank: u8) -> Coordinate {
    Coordinate::from_file_rank(file, rank).unwrap()
}

#[test]
fn build_starts_empty_with_given_anchors() {
    let anchors = unit_grid_anchors();
    let board = ChessBoard::build(&anchors);
    for i in 0u8..64 {
        let c = Coordinate::from_index(i);
        assert!(board.occupant_of(c).is_none());
        assert!(board.get_cell(c).occupant.is_none());
        assert_eq!(board.get_cell_translation(c), anchors[i as usize]);
    }
}

#[test]
fn insert_tracks_piece_in_both_directions() {
    let mut board = ChessBoard::build(&unit_grid_anchors());
    let p = PieceId(0);
    let a1 = coord(0, 0);
    assert_eq!(board.insert_piece(p, a1), Ok(()));
    assert_eq!(board.occupant_of(a1), Some(p));
    assert_eq!(board.position_of(p), Some(a1));
}

#[test]
fn insert_rejects_occupied_cell() {
    let mut board = ChessBoard::build(&unit_grid_anchors());
    let a1 = coord(0, 0);
    assert_eq!(board.insert_piece(PieceId(0), a1), Ok(()));
    assert_eq!(board.insert_piece(PieceId(1), a1), Err(BoardError::CellOccupied));
    // Nothing changed.
    assert_eq!(board.occupant_of(a1), Some(PieceId(0)));
    assert!(board.position_of(PieceId(1)).is_none());
}

#[test]
fn insert_rejects_piece_already_placed() {
    let mut board = ChessBoard::build(&unit_grid_anchors());
    let p = PieceId(7);
    assert_eq!(board.insert_piece(p, coord(0, 0)), Ok(()));
    assert_eq!(board.insert_piece(p, coord(3, 3)), Err(BoardError::PieceAlreadyPlaced));
    assert_eq!(board.position_of(p), Some(coord(0, 0)));
    assert!(board.occupant_of(coord(3, 3)).is_none());
}

#[test]
fn move_piece_relocates_and_returns_origin() {
    let mut board = ChessBoard::build(&unit_grid_anchors());
    let p = PieceId(0);
    let a1 = coord(0, 0);
    let a4 = coord(0, 3);
    board.insert_piece(p, a1).unwrap();
    assert_eq!(board.move_piece(p, a4), Ok(a1));
    assert!(board.occupant_of(a1).is_none());
    assert_eq!(board.occupant_of(a4), Some(p));
    assert_eq!(board.position_of(p), Some(a4));
}

#[test]
fn move_piece_to_occupied_cell_fails_without_mutating() {
    let mut board = ChessBoard::build(&unit_grid_anchors());
    let p = PieceId(0);
    let q = PieceId(1);
    let a1 = coord(0, 0);
    let b1 = coord(1, 0);
    board.insert_piece(p, a1).unwrap();
    board.insert_piece(q, b1).unwrap();
    assert_eq!(board.move_piece(p, b1), Err(BoardError::CellOccupied));
    // The board is exactly as it was.
    assert_eq!(board.occupant_of(a1), Some(p));
    assert_eq!(board.occupant_of(b1), Some(q));
    assert_eq!(board.position_of(p), Some(a1));
    assert_eq!(board.position_of(q), Some(b1));
}

#[test]
fn move_piece_to_own_square_fails_without_mutating() {
    let mut board = ChessBoard::build(&unit_grid_anchors());
    let p = PieceId(0);
    let a1 = coord(0, 0);
    board.insert_piece(p, a1).unwrap();
    assert_eq!(board.move_piece(p, a1), Err(BoardError::CellOccupied));
    assert_eq!(board.position_of(p), Some(a1));
}

#[test]
fn move_untracked_piece_fails() {
    let mut board = ChessBoard::build(&unit_grid_anchors());
    assert_eq!(board.move_piece(PieceId(0), coord(0, 0)), Err(BoardError::UntrackedPiece));
}

#[test]
fn remove_piece_clears_cell_and_index() {
    let mut board = ChessBoard::build(&unit_grid_anchors());
    let p = PieceId(0);
    let d4 = coord(3, 3);
    board.insert_piece(p, d4).unwrap();
    assert_eq!(board.remove_piece(p), Ok(d4));
    assert!(board.occupant_of(d4).is_none());
    assert!(board.position_of(p).is_none());
    assert_eq!(board.remove_piece(p), Err(BoardError::UntrackedPiece));
}

#[test]
fn occupancy_stays_a_bijection_through_a_sequence_of_operations() {
    let mut board = ChessBoard::build(&unit_grid_anchors());
    let pieces = [PieceId(0), PieceId(1), PieceId(2)];
    board.insert_piece(pieces[0], coord(0, 0)).unwrap();
    board.insert_piece(pieces[1], coord(1, 0)).unwrap();
    board.insert_piece(pieces[2], coord(2, 0)).unwrap();
    board.move_piece(pieces[0], coord(0, 5)).unwrap();
    board.remove_piece(pieces[1]).unwrap();
    board.move_piece(pieces[2], coord(1, 0)).unwrap();
    // Every tracked piece's square holds exactly that piece, and every
    // occupied square is tracked back to it.
    for i in 0u8..64 {
        let c = Coordinate::from_index(i);
        if let Some(p) = board.occupant_of(c) {
            assert_eq!(board.position_of(p), Some(c));
        }
    }
    for p in pieces {
        if let Some(c) = board.position_of(p) {
            assert_eq!(board.occupant_of(c), Some(p));
        }
    }
    assert_eq!(board.position_of(pieces[0]), Some(coord(0, 5)));
    assert!(board.position_of(pieces[1]).is_none());
    assert_eq!(board.position_of(pieces[2]), Some(coord(1, 0)));
}

#[test]
fn nearest_resolves_to_the_strictly_closest_square() {
    let board = ChessBoard::build(&unit_grid_anchors());
    // A hit a little off square B2's anchor (file 1, rank 1) is closer to
    // B2 than to any other square.
    let hit = Point3 { x: 1100, y: 50, z: 900 };
    assert_eq!(board.nearest(hit), coord(1, 1));
    // Resolution depends on the hit point alone, not on any press order.
    assert_eq!(board.nearest(hit), coord(1, 1));
    let far_corner = Point3 { x: 7400, y: 0, z: 6900 };
    assert_eq!(board.nearest(far_corner), coord(7, 7));
}

#[test]
fn nearest_breaks_ties_by_enumeration_order() {
    let board = ChessBoard::build(&unit_grid_anchors());
    // Equidistant between A1 (0,0,0) and A2 (0,0,1000): A1 comes first in
    // the canonical order.
    let midpoint = Point3 { x: 0, y: 0, z: 500 };
    assert_eq!(board.nearest(midpoint), coord(0, 0));
}
