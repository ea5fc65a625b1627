//! A verified board/piece state engine for a chess visualizer.
//!
//! The crate models the 64-square coordinate system, an occupancy-tracked
//! grid with a reverse index from piece to square, a two-phase selection
//! state machine that turns presses into move intents, and a move executor
//! that applies intents with capture semantics and turn toggling.
//! Rendering, asset loading and input plumbing live outside the library.

mod board;
mod coords;
mod game;
mod geometry;
mod piece;
mod selection;

pub use board::{
    lemma_nearest_strictly_closer, lemma_occupancy_bijection, BoardError, ChessBoard, GridCell,
};
pub use coords::{coord_name, file_char_of, lemma_coord_name_injective, rank_char_of, Coordinate};
pub use game::{back_rank_kind, initial_piece_at, Game, GamePlugin, MoveError, MoveRecord};
pub use geometry::{dist_sq, spec_dist_sq, Point3, ANCHOR_BOUND};
pub use selection::{
    lemma_press_piece_idempotent, press_piece_emits, press_piece_sel, PieceMoveEvent,
    PieceSelection,
};
pub use piece::{ActiveTeam, ChessPiece, ChessPieceType, PieceId, Team};
