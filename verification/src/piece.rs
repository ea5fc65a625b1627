//! Pieces, teams and the turn tracker.

use vstd::prelude::*;

verus! {

/// The kind of a chess piece.
#[derive(Clone, Copy, Debug, PartialEq, Eq, Structural)]
pub enum ChessPieceType {
    Pawn,
    Rook,
    Knight,
    Bishop,
    Queen,
    King,
}

impl ChessPieceType {
    /// All piece kinds, in declaration order.
    pub fn all() -> (r: Vec<ChessPieceType>)
        ensures
            r@ =~= seq![
                ChessPieceType::Pawn,
                ChessPieceType::Rook,
                ChessPieceType::Knight,
                ChessPieceType::Bishop,
                ChessPieceType::Queen,
                ChessPieceType::King,
            ],
    {
        let mut v: Vec<ChessPieceType> = Vec::new();
        v.push(ChessPieceType::Pawn);
        v.push(ChessPieceType::Rook);
        v.push(ChessPieceType::Knight);
        v.push(ChessPieceType::Bishop);
        v.push(ChessPieceType::Queen);
        v.push(ChessPieceType::King);
        v
    }

    /// The kind's display name.
    pub fn name(&self) -> (r: &'static str)
        ensures
            r@ == spec_kind_name(*self),
    {
        proof {
            reveal_strlit("Pawn");
            reveal_strlit("Rook");
            reveal_strlit("Knight");
            reveal_strlit("Bishop");
            reveal_strlit("Queen");
            reveal_strlit("King");
        }
        match self {
            ChessPieceType::Pawn => "Pawn",
            ChessPieceType::Rook => "Rook",
            ChessPieceType::Knight => "Knight",
            ChessPieceType::Bishop => "Bishop",
            ChessPieceType::Queen => "Queen",
            ChessPieceType::King => "King",
        }
    }
}

/// The display name of a piece kind.
pub open spec fn spec_kind_name(kind: ChessPieceType) -> Seq<char> {
    match kind {
        ChessPieceType::Pawn => "Pawn"@,
        ChessPieceType::Rook => "Rook"@,
        ChessPieceType::Knight => "Knight"@,
        ChessPieceType::Bishop => "Bishop"@,
        ChessPieceType::Queen => "Queen"@,
        ChessPieceType::King => "King"@,
    }
}

/// One of the two sides.
#[derive(Clone, Copy, Debug, PartialEq, Eq, Structural)]
pub enum Team {
    Black,
    White,
}

impl Team {
    /// The other side.
    pub open spec fn opponent(self) -> Team {
        match self {
            Team::Black => Team::White,
            Team::White => Team::Black,
        }
    }

    /// Returns the other side.
    pub fn toggle(self) -> (r: Team)
        ensures
            r == self.opponent(),
    {
        match self {
            Team::Black => Team::White,
            Team::White => Team::Black,
        }
    }

    /// The team's display label.
    pub fn label(&self) -> (r: &'static str)
        ensures
            *self == Team::Black ==> r@ == "Team::Black"@,
            *self == Team::White ==> r@ == "Team::White"@,
    {
        match self {
            Team::Black => "Team::Black",
            Team::White => "Team::White",
        }
    }
}

/// The side currently allowed to act; toggled once per executed move.
#[derive(Clone, Copy, Debug, PartialEq, Eq, Structural)]
pub struct ActiveTeam(pub Team);

impl Default for ActiveTeam {
    /// White moves first.
    fn default() -> (r: Self)
        ensures
            r == ActiveTeam(Team::White),
    {
        ActiveTeam(Team::White)
    }
}

/// A stable identity for a piece: an index into the game's piece arena.
/// The board's occupant index is the authoritative record of whether the
/// piece is still in play.
#[derive(Clone, Copy, Debug, PartialEq, Eq, Structural)]
pub struct PieceId(pub usize);

/// A piece's identity record.
#[derive(Clone, Copy, Debug, PartialEq, Eq, Structural)]
pub struct ChessPiece {
    pub kind: ChessPieceType,
    pub team: Team,
    /// Whether the piece has moved at least once.
    pub has_moved: bool,
}

} // verus!
