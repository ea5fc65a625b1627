//! The game context: board, piece arena, selection and turn tracker.
//!
//! `Game` threads the shared state through the selection controller
//! (`press_piece`, `press_square`) and the move executor (`update_move`).
//! Pieces live in an arena indexed by `PieceId`; the board's occupant index
//! is the authoritative record of which pieces are still in play, and a
//! captured piece's arena slot is cleared for good.

use vstd::prelude::*;

use crate::board::{lemma_occupancy_bijection, BoardError, ChessBoard};
use crate::coords::Coordinate;
use crate::geometry::Point3;
use crate::piece::{ActiveTeam, ChessPiece, ChessPieceType, PieceId, Team};
use crate::selection::{press_piece_emits, press_piece_sel, PieceMoveEvent, PieceSelection};

verus! {

/// Why a move intent was refused. A refused intent changes neither the
/// board nor the turn.
#[derive(Clone, Copy, Debug, PartialEq, Eq, Structural)]
pub enum MoveError {
    /// The destination is occupied by a piece of the moving team.
    OwnTeamAtDestination,
}

/// What an executed move did, for the rendering layer to animate.
#[derive(Clone, Copy, Debug, PartialEq, Eq, Structural)]
pub struct MoveRecord {
    /// The piece that moved.
    pub piece: PieceId,
    /// The square it left.
    pub from: Coordinate,
    /// The square it now occupies.
    pub to: Coordinate,
    /// The opposing piece that was captured and destroyed, if any.
    pub captured: Option<PieceId>,
}

/// The full game state.
pub struct Game {
    /// The board: grid occupancy plus the piece -> square index.
    pub board: ChessBoard,
    /// The piece arena; a slot is cleared when its piece is captured.
    pub pieces: Vec<Option<ChessPiece>>,
    /// The piece currently armed for a move, if any.
    pub selection: PieceSelection,
    /// The side currently allowed to act.
    pub active_team: ActiveTeam,
}

impl Game {
    /// The identity record of a piece, or `None` when the piece never
    /// existed or has been captured.
    pub closed spec fn piece(self, p: PieceId) -> Option<ChessPiece> {
        if p.0 < self.pieces@.len() {
            self.pieces@[p.0 as int]
        } else {
            None
        }
    }

    /// Well-formedness: the board is well-formed, every piece the board
    /// tracks is live in the arena, and any selected piece is in play.
    pub closed spec fn wf(self) -> bool {
        &&& self.board.wf()
        &&& (forall|p: PieceId| (#[trigger] self.board.pos(p)) is Some ==> self.piece(p) is Some)
        &&& (self.selection.piece matches Some(s) ==> self.board.pos(s) is Some)
    }

    /// Builds a game with an empty board over the given anchors, nothing
    /// selected, and White to move.
    pub fn new(anchors: &Vec<Point3>) -> (r: Game)
        requires
            anchors@.len() == 64,
            forall|i: int| 0 <= i < 64 ==> (#[trigger] anchors@[i]).bounded(),
        ensures
            r.wf(),
            forall|i: int| 0 <= i < 64 ==> #[trigger] r.board.occupant(i) is None,
            forall|i: int| 0 <= i < 64 ==> #[trigger] r.board.anchor(i) == anchors@[i],
            forall|p: PieceId| #[trigger] r.piece(p) is None,
            r.selection.piece is None,
            r.active_team == ActiveTeam(Team::White),
    {
        Game {
            board: ChessBoard::build(anchors),
            pieces: Vec::new(),
            selection: PieceSelection::new(),
            active_team: ActiveTeam(Team::White),
        }
    }

    /// The identity record of a piece, or `None` when the piece never
    /// existed or has been captured.
    pub fn get_piece(&self, p: PieceId) -> (r: Option<ChessPiece>)
        ensures
            r == self.piece(p),
    {
        if p.0 < self.pieces.len() {
            self.pieces[p.0]
        } else {
            None
        }
    }

    /// Creates a piece and places it on an empty square, returning its
    /// fresh identity. Refused exactly when the square is occupied; a
    /// refused spawn changes nothing.
    pub fn spawn(&mut self, team: Team, position: Coordinate, kind: ChessPieceType) -> (r: Result<
        PieceId,
        BoardError,
    >)
        requires
            old(self).wf(),
        ensures
            final(self).wf(),
            match r {
                Ok(id) => {
                    &&& old(self).board.occupant(position@) is None
                    &&& old(self).piece(id) is None
                    &&& final(self).piece(id) == Some(ChessPiece { kind, team, has_moved: false })
                    &&& final(self).board.pos(id) == Some(position@)
                    &&& final(self).board.occupant(position@) == Some(id)
                    &&& (forall|i: int|
                        0 <= i < 64 && i != position@ ==> #[trigger] final(self).board.occupant(i)
                            == old(self).board.occupant(i))
                    &&& (forall|q: PieceId|
                        q != id ==> #[trigger] final(self).board.pos(q) == old(self).board.pos(q))
                    &&& (forall|q: PieceId|
                        q != id ==> #[trigger] final(self).piece(q) == old(self).piece(q))
                    &&& (forall|i: int|
                        0 <= i < 64 ==> #[trigger] final(self).board.anchor(i) == old(self).board.anchor(i))
                    &&& final(self).selection == old(self).selection
                    &&& final(self).active_team == old(self).active_team
                },
                Err(e) => {
                    &&& e == BoardError::CellOccupied
                    &&& old(self).board.occupant(position@) is Some
                    &&& *final(self) == *old(self)
                },
            },
    {
        let id = PieceId(self.pieces.len());
        proof {
            // A fresh arena index is tracked by no well-formed board.
            assert(old(self).piece(id) is None);
            if old(self).board.pos(id) is Some {
                assert(old(self).piece(id) is Some);
            }
        }
        match self.board.insert_piece(id, position) {
            Ok(_) => {
                self.pieces.push(Some(ChessPiece { kind, team, has_moved: false }));
                Ok(id)
            },
            Err(e) => {
                proof {
                    assert(e != BoardError::PieceAlreadyPlaced);
                }
                Err(e)
            },
        }
    }

    /// Handles a press on a piece that is in play on the board.
    ///
    /// From `Empty`, selects the piece when it belongs to the active team
    /// and silently rejects it otherwise. From `Selected`, pressing the
    /// selected piece deselects it; pressing any other piece emits a move
    /// intent onto that piece's square. The board, the piece records and
    /// the turn are never changed.
    pub fn press_piece(&mut self, p: PieceId) -> (r: Option<PieceMoveEvent>)
        requires
            old(self).wf(),
            old(self).board.pos(p) is Some,
        ensures
            final(self).wf(),
            final(self).board == old(self).board,
            final(self).active_team == old(self).active_team,
            forall|q: PieceId| #[trigger] final(self).piece(q) == old(self).piece(q),
            final(self).selection.piece == press_piece_sel(
                old(self).selection.piece,
                p,
                old(self).piece(p).unwrap().team,
                old(self).active_team.0,
            ),
            r is Some == press_piece_emits(old(self).selection.piece, p),
            match r {
                Some(ev) => old(self).selection.piece matches Some(s) && old(self).board.pos(s)
                    == Some(ev.from@) && old(self).board.pos(p) == Some(ev.to@),
                None => true,
            },
    {
        match self.selection.piece {
            None => {
                let pc = self.get_piece(p).unwrap();
                if pc.team == self.active_team.0 {
                    self.selection.piece = Some(p);
                }
                None
            },
            Some(s) => {
                self.selection.piece = None;
                if s.0 == p.0 {
                    proof {
                        assert(s == p);
                    }
                    None
                } else {
                    let from = self.board.position_of(s).unwrap();
                    let to = self.board.position_of(p).unwrap();
                    Some(PieceMoveEvent { from, to })
                }
            },
        }
    }

    /// Handles a press on a square (already resolved from a hit point via
    /// `ChessBoard::nearest` by the input layer).
    ///
    /// From `Empty`, selects the square's occupant when it belongs to the
    /// active team and silently rejects the press otherwise. From
    /// `Selected`, pressing the selected piece's own square deselects it;
    /// pressing any other square emits a move intent onto it. The board,
    /// the piece records and the turn are never changed.
    pub fn press_square(&mut self, c: Coordinate) -> (r: Option<PieceMoveEvent>)
        requires
            old(self).wf(),
        ensures
            final(self).wf(),
            final(self).board == old(self).board,
            final(self).active_team == old(self).active_team,
            forall|q: PieceId| #[trigger] final(self).piece(q) == old(self).piece(q),
            match old(self).selection.piece {
                Some(s) => {
                    &&& final(self).selection.piece is None
                    &&& if old(self).board.pos(s) == Some(c@) {
                        r is None
                    } else {
                        r matches Some(ev) && old(self).board.pos(s) == Some(ev.from@) && ev.to == c
                    }
                },
                None => {
                    &&& r is None
                    &&& match old(self).board.occupant(c@) {
                        Some(q) => {
                            if old(self).piece(q).unwrap().team == old(self).active_team.0 {
                                final(self).selection.piece == Some(q)
                            } else {
                                final(self).selection.piece is None
                            }
                        },
                        None => final(self).selection.piece is None,
                    }
                },
            },
    {
        match self.selection.piece {
            Some(s) => {
                self.selection.piece = None;
                let spos = self.board.position_of(s).unwrap();
                if spos.index() == c.index() {
                    None
                } else {
                    Some(PieceMoveEvent { from: spos, to: c })
                }
            },
            None => {
                match self.board.occupant_of(c) {
                    Some(q) => {
                        proof {
                            lemma_occupancy_bijection(self.board, c@, q);
                        }
                        let pc = self.get_piece(q).unwrap();
                        if pc.team == self.active_team.0 {
                            self.selection.piece = Some(q);
                        }
                        None
                    },
                    None => None,
                }
            },
        }
    }

    /// Applies a move intent: captures any opposing piece on the
    /// destination, relocates the mover, marks it as having moved, and
    /// toggles the active team. An intent whose destination is held by the
    /// active team is refused whole, changing neither the board nor the
    /// turn. Either way the selection ends `Empty`.
    ///
    /// The intent must come from a square that is actually occupied and
    /// must relate two distinct squares, as every intent the selection
    /// controller emits does.
    pub fn update_move(&mut self, event: PieceMoveEvent) -> (r: Result<MoveRecord, MoveError>)
        requires
            old(self).wf(),
            old(self).board.occupant(event.from@) is Some,
            event.from@ != event.to@,
        ensures
            final(self).wf(),
            final(self).selection.piece is None,
            ({
                let attacker = old(self).board.occupant(event.from@).unwrap();
                let defender = old(self).board.occupant(event.to@);
                match r {
                    Err(e) => {
                        &&& e == MoveError::OwnTeamAtDestination
                        &&& defender matches Some(d) && old(self).piece(d).unwrap().team == old(self).active_team.0
                        &&& final(self).board == old(self).board
                        &&& (forall|q: PieceId|
                            #[trigger] final(self).piece(q) == old(self).piece(q))
                        &&& final(self).active_team == old(self).active_team
                    },
                    Ok(rec) => {
                        &&& (defender matches Some(d) ==> old(self).piece(d).unwrap().team != old(self).active_team.0)
                        &&& rec == (MoveRecord {
                            piece: attacker,
                            from: event.from,
                            to: event.to,
                            captured: defender,
                        })
                        &&& final(self).board.pos(attacker) == Some(event.to@)
                        &&& final(self).board.occupant(event.to@) == Some(attacker)
                        &&& final(self).board.occupant(event.from@) is None
                        &&& (forall|i: int|
                            0 <= i < 64 && i != event.from@ && i != event.to@
                                ==> #[trigger] final(self).board.occupant(i) == old(self).board.occupant(i))
                        &&& (defender matches Some(d) ==> final(self).board.pos(d) is None && final(self).piece(d) is None)
                        &&& (forall|q: PieceId|
                            q != attacker && Some(q) != defender ==> #[trigger] final(self).board.pos(q) == old(self).board.pos(q))
                        &&& final(self).piece(attacker) == Some(
                            ChessPiece {
                                has_moved: true,
                                ..old(self).piece(attacker).unwrap()
                            },
                        )
                        &&& (forall|q: PieceId|
                            q != attacker && Some(q) != defender ==> #[trigger] final(self).piece(q)
                                == old(self).piece(q))
                        &&& final(self).active_team.0 == old(self).active_team.0.opponent()
                        &&& (forall|i: int|
                            0 <= i < 64 ==> #[trigger] final(self).board.anchor(i) == old(self).board.anchor(i))
                    },
                }
            }),
    {
        self.selection.piece = None;
        let attacker = self.board.occupant_of(event.from).unwrap();
        let defender_opt = self.board.occupant_of(event.to);
        proof {
            lemma_occupancy_bijection(self.board, event.from@, attacker);
        }
        if let Some(defender) = defender_opt {
            proof {
                lemma_occupancy_bijection(self.board, event.to@, defender);
            }
            let dpc = self.get_piece(defender).unwrap();
            if dpc.team == self.active_team.0 {
                return Err(MoveError::OwnTeamAtDestination);
            }
            proof {
                // Distinct squares hold distinct pieces.
                assert(attacker != defender);
            }
            match self.board.remove_piece(defender) {
                Ok(_) => {},
                Err(_) => {
                    proof {
                        assert(false);
                    }
                },
            }
            self.pieces[defender.0] = None;
        }
        match self.board.move_piece(attacker, event.to) {
            Ok(_) => {},
            Err(_) => {
                proof {
                    assert(false);
                }
            },
        }
        let pc = self.pieces[attacker.0].unwrap();
        self.pieces[attacker.0] = Some(
            ChessPiece { kind: pc.kind, team: pc.team, has_moved: true },
        );
        self.active_team = ActiveTeam(self.active_team.0.toggle());
        proof {
            assert forall|q: PieceId| (#[trigger] self.board.pos(q)) is Some implies self.piece(q)
                is Some by {
                if q != attacker && Some(q) != defender_opt {
                    assert(old(self).board.pos(q) is Some);
                }
            }
        }
        Ok(MoveRecord { piece: attacker, from: event.from, to: event.to, captured: defender_opt })
    }

    /// Spawns the standard 32-piece opening layout onto an empty board:
    /// each side's back row behind a row of pawns, White on ranks one and
    /// two, Black on ranks seven and eight.
    pub fn spawn_initial_pieces(&mut self)
        requires
            old(self).wf(),
            forall|i: int| 0 <= i < 64 ==> #[trigger] old(self).board.occupant(i) is None,
        ensures
            final(self).wf(),
            forall|i: int|
                0 <= i < 64 ==> ((#[trigger] final(self).board.occupant(i)) is Some
                    == initial_piece_at(i) is Some && (final(self).board.occupant(i) matches Some(p)
                    ==> final(self).piece(p) == initial_piece_at(i))),
            final(self).selection == old(self).selection,
            final(self).active_team == old(self).active_team,
            forall|i: int|
                0 <= i < 64 ==> #[trigger] final(self).board.anchor(i) == old(self).board.anchor(i),
    {
        let mut idx: u8 = 0;
        while idx < 64
            invariant
                self.wf(),
                idx <= 64,
                forall|i: int|
                    0 <= i < idx as int ==> ((#[trigger] self.board.occupant(i)) is Some
                        == initial_piece_at(i) is Some && (self.board.occupant(i) matches Some(p)
                        ==> self.piece(p) == initial_piece_at(i))),
                forall|i: int|
                    idx as int <= i < 64 ==> (#[trigger] self.board.occupant(i)) is None,
                self.selection == old(self).selection,
                self.active_team == old(self).active_team,
                forall|i: int|
                    0 <= i < 64 ==> #[trigger] self.board.anchor(i) == old(self).board.anchor(i),
            decreases 64 - idx as int,
        {
            if let Some((team, kind)) = initial_piece_for(idx) {
                let c = Coordinate::from_index(idx);
                match self.spawn(team, c, kind) {
                    Ok(id) => {
                        proof {
                            assert forall|i: int|
                                0 <= i < idx as int implies ((#[trigger] self.board.occupant(i))
                                is Some == initial_piece_at(i) is Some && (self.board.occupant(i)
                                matches Some(p) ==> self.piece(p) == initial_piece_at(i))) by {
                                if self.board.occupant(i) is Some {
                                    let p = self.board.occupant(i).unwrap();
                                    assert(p != id);
                                }
                            }
                        }
                    },
                    Err(_) => {
                        proof {
                            assert(false);
                        }
                    },
                }
            }
            idx = idx + 1;
        }
    }
}

/// The kind that starts on a back-row square of the given file.
pub open spec fn back_rank_kind(file: int) -> ChessPieceType {
    if file == 0 || file == 7 {
        ChessPieceType::Rook
    } else if file == 1 || file == 6 {
        ChessPieceType::Knight
    } else if file == 2 || file == 5 {
        ChessPieceType::Bishop
    } else if file == 3 {
        ChessPieceType::Queen
    } else {
        ChessPieceType::King
    }
}

/// The piece that starts on the square with the given enumeration index in
/// the standard layout, or `None` for the empty middle of the board.
pub open spec fn initial_piece_at(i: int) -> Option<ChessPiece> {
    let file = i / 8;
    let rank = i % 8;
    if rank == 0 {
        Some(ChessPiece { kind: back_rank_kind(file), team: Team::White, has_moved: false })
    } else if rank == 1 {
        Some(ChessPiece { kind: ChessPieceType::Pawn, team: Team::White, has_moved: false })
    } else if rank == 6 {
        Some(ChessPiece { kind: ChessPieceType::Pawn, team: Team::Black, has_moved: false })
    } else if rank == 7 {
        Some(ChessPiece { kind: back_rank_kind(file), team: Team::Black, has_moved: false })
    } else {
        None
    }
}

/// The team and kind that start on the square with the given enumeration
/// index, as executable data.
fn initial_piece_for(index: u8) -> (r: Option<(Team, ChessPieceType)>)
    requires
        index < 64,
    ensures
        match r {
            Some(tk) => initial_piece_at(index as int) == Some(
                ChessPiece { kind: tk.1, team: tk.0, has_moved: false },
            ),
            None => initial_piece_at(index as int) is None,
        },
{
    let file = index / 8;
    let rank = index % 8;
    let back: ChessPieceType = if file == 0 || file == 7 {
        ChessPieceType::Rook
    } else if file == 1 || file == 6 {
        ChessPieceType::Knight
    } else if file == 2 || file == 5 {
        ChessPieceType::Bishop
    } else if file == 3 {
        ChessPieceType::Queen
    } else {
        ChessPieceType::King
    };
    if rank == 0 {
        Some((Team::White, back))
    } else if rank == 1 {
        Some((Team::White, ChessPieceType::Pawn))
    } else if rank == 6 {
        Some((Team::Black, ChessPieceType::Pawn))
    } else if rank == 7 {
        Some((Team::Black, back))
    } else {
        None
    }
}

/// The game bootstrap: builds the initial world that the surrounding
/// application starts from.
pub struct GamePlugin;

impl GamePlugin {
    /// Builds a fresh game over the given anchors with the standard
    /// 32-piece layout, nothing selected, and White to move.
    pub fn startup(anchors: &Vec<Point3>) -> (r: Game)
        requires
            anchors@.len() == 64,
            forall|i: int| 0 <= i < 64 ==> (#[trigger] anchors@[i]).bounded(),
        ensures
            r.wf(),
            forall|i: int|
                0 <= i < 64 ==> ((#[trigger] r.board.occupant(i)) is Some == initial_piece_at(i)
                    is Some && (r.board.occupant(i) matches Some(p) ==> r.piece(p)
                    == initial_piece_at(i))),
            forall|i: int| 0 <= i < 64 ==> #[trigger] r.board.anchor(i) == anchors@[i],
            r.selection.piece is None,
            r.active_team == ActiveTeam(Team::White),
    {
        let mut game = Game::new(anchors);
        game.spawn_initial_pieces();
        game
    }
}

} // verus!
