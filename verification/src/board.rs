//! The 8x8 board: an occupancy-tracked grid with a reverse index.
//!
//! The board owns two structures that must stay in step: the grid, giving
//! each square's occupant, and the occupant index, giving each piece's
//! square. The well-formedness predicate `wf` states the bijection between
//! them, and every public operation preserves it; a failed operation leaves
//! the board untouched.

use std::collections::HashMap;

use vstd::prelude::*;

use crate::coords::Coordinate;
use crate::geometry::{dist_sq, spec_dist_sq, Point3};
use crate::piece::PieceId;

verus! {

broadcast use vstd::std_specs::hash::group_hash_axioms;

/// Why a board operation was refused. Refused operations leave the board
/// unchanged.
#[derive(Clone, Copy, Debug, PartialEq, Eq, Structural)]
pub enum BoardError {
    /// The target cell already has an occupant.
    CellOccupied,
    /// The piece is not present in the board's occupant index.
    UntrackedPiece,
    /// The piece is already present in the board's occupant index.
    PieceAlreadyPlaced,
}

/// One square of the grid: its occupant, if any, and its cached spatial
/// anchor, set once at board construction.
#[derive(Clone, Copy, Debug)]
pub struct GridCell {
    pub occupant: Option<PieceId>,
    pub translation: Point3,
}

/// The board: 64 grid cells plus the reverse index from piece to square.
pub struct ChessBoard {
    grid: Vec<GridCell>,
    occupants: HashMap<usize, u8>,
}

impl ChessBoard {
    /// The occupant of the square with the given enumeration index.
    pub closed spec fn occupant(self, i: int) -> Option<PieceId> {
        if 0 <= i < self.grid@.len() {
            self.grid@[i].occupant
        } else {
            None
        }
    }

    /// The square a piece stands on, by the occupant index, or `None` when
    /// the piece is not in play on this board.
    pub closed spec fn pos(self, p: PieceId) -> Option<int> {
        if self.occupants@.contains_key(p.0) {
            Some(self.occupants@[p.0] as int)
        } else {
            None
        }
    }

    /// The cached anchor of the square with the given enumeration index.
    pub closed spec fn anchor(self, i: int) -> Point3 {
        if 0 <= i < self.grid@.len() {
            self.grid@[i].translation
        } else {
            Point3 { x: 0, y: 0, z: 0 }
        }
    }

    /// Well-formedness: all 64 cells are present with bounded anchors, and
    /// grid occupancy and the occupant index are two views of one relation:
    /// a piece stands on a square exactly when the index says so.
    pub closed spec fn wf(self) -> bool {
        &&& self.grid@.len() == 64
        &&& (forall|i: int|
            0 <= i < 64 ==> (#[trigger] self.grid@[i]).translation.bounded())
        &&& (forall|p: usize|
            #[trigger] self.occupants@.contains_key(p) ==> self.occupants@[p] < 64
                && self.grid@[self.occupants@[p] as int].occupant == Some(PieceId(p)))
        &&& (forall|i: int|
            0 <= i < 64 && (#[trigger] self.grid@[i]).occupant is Some ==> {
                let p = self.grid@[i].occupant.unwrap();
                self.occupants@.contains_key(p.0) && self.occupants@[p.0] as int == i
            })
    }

    /// Builds a board with all 64 cells empty and the given anchors, one
    /// per coordinate in enumeration order.
    pub fn build(anchors: &Vec<Point3>) -> (r: ChessBoard)
        requires
            anchors@.len() == 64,
            forall|i: int| 0 <= i < 64 ==> (#[trigger] anchors@[i]).bounded(),
        ensures
            r.wf(),
            forall|i: int| 0 <= i < 64 ==> #[trigger] r.occupant(i) is None,
            forall|i: int| 0 <= i < 64 ==> #[trigger] r.anchor(i) == anchors@[i],
            forall|p: PieceId| #[trigger] r.pos(p) is None,
    {
        let mut grid: Vec<GridCell> = Vec::new();
        let mut i: usize = 0;
        while i < 64
            invariant
                i <= 64,
                grid@.len() == i as int,
                anchors@.len() == 64,
                forall|j: int| 0 <= j < 64 ==> (#[trigger] anchors@[j]).bounded(),
                forall|j: int|
                    0 <= j < i as int ==> (#[trigger] grid@[j]).occupant is None
                        && grid@[j].translation == anchors@[j],
            decreases 64 - i as int,
        {
            grid.push(GridCell { occupant: None, translation: anchors[i] });
            i = i + 1;
        }
        let occupants: HashMap<usize, u8> = HashMap::new();
        ChessBoard { grid, occupants }
    }

    /// Read access to a square's cell.
    pub fn get_cell(&self, cell: Coordinate) -> (r: &GridCell)
        requires
            self.wf(),
        ensures
            r.occupant == self.occupant(cell@),
            r.translation == self.anchor(cell@),
    {
        let i = cell.index();
        &self.grid[i as usize]
    }

    /// The occupant of a square, if any.
    pub fn occupant_of(&self, cell: Coordinate) -> (r: Option<PieceId>)
        requires
            self.wf(),
        ensures
            r == self.occupant(cell@),
    {
        let i = cell.index();
        self.grid[i as usize].occupant
    }

    /// The square a piece stands on, or `None` when the piece is not in
    /// play on this board.
    pub fn position_of(&self, piece: PieceId) -> (r: Option<Coordinate>)
        requires
            self.wf(),
        ensures
            match r {
                Some(c) => self.pos(piece) == Some(c@),
                None => self.pos(piece) is None,
            },
    {
        match self.occupants.get(&piece.0) {
            Some(v) => Some(Coordinate::from_index(*v)),
            None => None,
        }
    }

    /// The cached anchor of a square, for the rendering layer.
    pub fn get_cell_translation(&self, cell: Coordinate) -> (r: Point3)
        requires
            self.wf(),
        ensures
            r == self.anchor(cell@),
            r.bounded(),
    {
        let i = cell.index();
        self.grid[i as usize].translation
    }

    /// Places a piece on an empty square and records it in the occupant
    /// index. Refused when the square is occupied or the piece is already
    /// on the board; a refused insert changes nothing.
    pub fn insert_piece(&mut self, piece: PieceId, position: Coordinate) -> (r: Result<
        (),
        BoardError,
    >)
        requires
            old(self).wf(),
        ensures
            final(self).wf(),
            match r {
                Ok(_) => {
                    &&& old(self).occupant(position@) is None
                    &&& old(self).pos(piece) is None
                    &&& final(self).pos(piece) == Some(position@)
                    &&& final(self).occupant(position@) == Some(piece)
                    &&& (forall|i: int|
                        0 <= i < 64 && i != position@ ==> #[trigger] final(self).occupant(i)
                            == old(self).occupant(i))
                    &&& (forall|q: PieceId|
                        q != piece ==> #[trigger] final(self).pos(q) == old(self).pos(q))
                    &&& (forall|i: int|
                        0 <= i < 64 ==> #[trigger] final(self).anchor(i) == old(self).anchor(i))
                },
                Err(e) => {
                    &&& (e == BoardError::CellOccupied <==> old(self).occupant(position@) is Some)
                    &&& (e == BoardError::PieceAlreadyPlaced ==> old(self).occupant(position@)
                        is None && old(self).pos(piece) is Some)
                    &&& (e == BoardError::CellOccupied || e == BoardError::PieceAlreadyPlaced)
                    &&& *final(self) == *old(self)
                },
            },
    {
        let i = position.index();
        if self.grid[i as usize].occupant.is_some() {
            return Err(BoardError::CellOccupied);
        }
        if self.occupants.contains_key(&piece.0) {
            return Err(BoardError::PieceAlreadyPlaced);
        }
        let mut cell = self.grid[i as usize];
        cell.occupant = Some(piece);
        self.grid[i as usize] = cell;
        self.occupants.insert(piece.0, i);
        proof {
            assert forall|p: usize| #[trigger] self.occupants@.contains_key(p) implies self
                .occupants@[p] < 64 && self.grid@[self.occupants@[p] as int].occupant == Some(
                PieceId(p),
            ) by {
                if p != piece.0 {
                    assert(old(self).occupants@.contains_key(p));
                }
            }
            assert forall|j: int|
                0 <= j < 64 && (#[trigger] self.grid@[j]).occupant is Some implies {
                let p = self.grid@[j].occupant.unwrap();
                self.occupants@.contains_key(p.0) && self.occupants@[p.0] as int == j
            } by {
                if j != i as int {
                    assert(old(self).grid@[j].occupant is Some);
                    let p = old(self).grid@[j].occupant.unwrap();
                    assert(old(self).occupants@.contains_key(p.0));
                    assert(p.0 != piece.0);
                }
            }
        }
        Ok(())
    }

    /// Moves a tracked piece to an empty square, returning the square it
    /// came from. Refused when the piece is untracked or the destination is
    /// occupied (the caller must capture first); a refused move changes
    /// nothing.
    pub fn move_piece(&mut self, piece: PieceId, to: Coordinate) -> (r: Result<
        Coordinate,
        BoardError,
    >)
        requires
            old(self).wf(),
        ensures
            final(self).wf(),
            match r {
                Ok(from) => {
                    &&& old(self).pos(piece) == Some(from@)
                    &&& 0 <= from@ < 64
                    &&& old(self).occupant(to@) is None
                    &&& final(self).pos(piece) == Some(to@)
                    &&& final(self).occupant(to@) == Some(piece)
                    &&& final(self).occupant(from@) is None
                    &&& (forall|i: int|
                        0 <= i < 64 && i != from@ && i != to@ ==> #[trigger] final(self).occupant(i)
                            == old(self).occupant(i))
                    &&& (forall|q: PieceId|
                        q != piece ==> #[trigger] final(self).pos(q) == old(self).pos(q))
                    &&& (forall|i: int|
                        0 <= i < 64 ==> #[trigger] final(self).anchor(i) == old(self).anchor(i))
                },
                Err(e) => {
                    &&& (e == BoardError::UntrackedPiece <==> old(self).pos(piece) is None)
                    &&& (e == BoardError::CellOccupied ==> old(self).pos(piece) is Some && old(
                        self,
                    ).occupant(to@) is Some)
                    &&& (e == BoardError::UntrackedPiece || e == BoardError::CellOccupied)
                    &&& *final(self) == *old(self)
                },
            },
    {
        let to_i = to.index();
        let from_i: u8 = match self.occupants.get(&piece.0) {
            Some(v) => *v,
            None => {
                return Err(BoardError::UntrackedPiece);
            },
        };
        if self.grid[to_i as usize].occupant.is_some() {
            return Err(BoardError::CellOccupied);
        }
        assert(self.grid@[from_i as int].occupant == Some(piece));
        assert(from_i != to_i);
        let mut from_cell = self.grid[from_i as usize];
        from_cell.occupant = None;
        self.grid[from_i as usize] = from_cell;
        let mut to_cell = self.grid[to_i as usize];
        to_cell.occupant = Some(piece);
        self.grid[to_i as usize] = to_cell;
        self.occupants.insert(piece.0, to_i);
        proof {
            assert forall|p: usize| #[trigger] self.occupants@.contains_key(p) implies self
                .occupants@[p] < 64 && self.grid@[self.occupants@[p] as int].occupant == Some(
                PieceId(p),
            ) by {
                if p != piece.0 {
                    assert(old(self).occupants@.contains_key(p));
                    assert(old(self).occupants@[p] as int != from_i as int);
                }
            }
            assert forall|j: int|
                0 <= j < 64 && (#[trigger] self.grid@[j]).occupant is Some implies {
                let p = self.grid@[j].occupant.unwrap();
                self.occupants@.contains_key(p.0) && self.occupants@[p.0] as int == j
            } by {
                if j != to_i as int && j != from_i as int {
                    assert(old(self).grid@[j].occupant is Some);
                    let p = old(self).grid@[j].occupant.unwrap();
                    assert(old(self).occupants@.contains_key(p.0));
                    assert(p.0 != piece.0);
                }
            }
        }
        Ok(Coordinate::from_index(from_i))
    }

    /// Takes a tracked piece out of play: clears its cell and drops its
    /// index entry, returning the square it stood on. Refused when the
    /// piece is untracked; a refused removal changes nothing.
    pub fn remove_piece(&mut self, piece: PieceId) -> (r: Result<Coordinate, BoardError>)
        requires
            old(self).wf(),
        ensures
            final(self).wf(),
            match r {
                Ok(at) => {
                    &&& old(self).pos(piece) == Some(at@)
                    &&& 0 <= at@ < 64
                    &&& final(self).pos(piece) is None
                    &&& final(self).occupant(at@) is None
                    &&& (forall|i: int|
                        0 <= i < 64 && i != at@ ==> #[trigger] final(self).occupant(i) == old(
                            self,
                        ).occupant(i))
                    &&& (forall|q: PieceId|
                        q != piece ==> #[trigger] final(self).pos(q) == old(self).pos(q))
                    &&& (forall|i: int|
                        0 <= i < 64 ==> #[trigger] final(self).anchor(i) == old(self).anchor(i))
                },
                Err(e) => {
                    &&& e == BoardError::UntrackedPiece
                    &&& old(self).pos(piece) is None
                    &&& *final(self) == *old(self)
                },
            },
    {
        if !self.occupants.contains_key(&piece.0) {
            return Err(BoardError::UntrackedPiece);
        }
        let at_i: u8 = match self.occupants.remove(&piece.0) {
            Some(v) => v,
            None => {
                proof {
                    assert(false);
                }
                0
            },
        };
        let mut cell = self.grid[at_i as usize];
        cell.occupant = None;
        self.grid[at_i as usize] = cell;
        proof {
            assert forall|p: usize| #[trigger] self.occupants@.contains_key(p) implies self
                .occupants@[p] < 64 && self.grid@[self.occupants@[p] as int].occupant == Some(
                PieceId(p),
            ) by {
                assert(old(self).occupants@.contains_key(p));
                assert(old(self).occupants@[p] as int != at_i as int);
            }
            assert forall|j: int|
                0 <= j < 64 && (#[trigger] self.grid@[j]).occupant is Some implies {
                let p = self.grid@[j].occupant.unwrap();
                self.occupants@.contains_key(p.0) && self.occupants@[p.0] as int == j
            } by {
                if j != at_i as int {
                    assert(old(self).grid@[j].occupant is Some);
                    let p = old(self).grid@[j].occupant.unwrap();
                    assert(old(self).occupants@.contains_key(p.0));
                    assert(p.0 != piece.0);
                }
            }
        }
        Ok(Coordinate::from_index(at_i))
    }

    /// The coordinate whose cached anchor minimizes the Euclidean distance
    /// to the given point; ties go to the first square in enumeration
    /// order.
    pub fn nearest(&self, point: Point3) -> (r: Coordinate)
        requires
            self.wf(),
            point.bounded(),
        ensures
            0 <= r@ < 64,
            forall|i: int|
                0 <= i < 64 ==> spec_dist_sq(self.anchor(r@), point) <= spec_dist_sq(
                    #[trigger] self.anchor(i),
                    point,
                ),
            forall|i: int|
                0 <= i < r@ ==> spec_dist_sq(#[trigger] self.anchor(i), point) > spec_dist_sq(
                    self.anchor(r@),
                    point,
                ),
    {
        let mut best: u8 = 0;
        let mut best_d: i64 = dist_sq(self.grid[0].translation, point);
        let mut i: u8 = 1;
        while i < 64
            invariant
                self.wf(),
                point.bounded(),
                1 <= i <= 64,
                best < i,
                best_d == spec_dist_sq(self.anchor(best as int), point),
                forall|j: int|
                    0 <= j < i as int ==> best_d <= spec_dist_sq(#[trigger] self.anchor(j), point),
                forall|j: int|
                    0 <= j < best as int ==> spec_dist_sq(#[trigger] self.anchor(j), point)
                        > best_d,
            decreases 64 - i as int,
        {
            let d = dist_sq(self.grid[i as usize].translation, point);
            if d < best_d {
                best = i;
                best_d = d;
            }
            i = i + 1;
        }
        Coordinate::from_index(best)
    }
}

/// The occupancy bijection: on a well-formed board, a piece occupies a
/// square exactly when the occupant index places it there. Every board
/// operation that succeeds preserves well-formedness, so this relation
/// holds after each of them.
pub proof fn lemma_occupancy_bijection(b: ChessBoard, i: int, p: PieceId)
    requires
        b.wf(),
    ensures
        b.occupant(i) == Some(p) <==> b.pos(p) == Some(i),
{
    if b.occupant(i) == Some(p) {
        assert(b.grid@[i].occupant is Some);
    }
    if b.pos(p) == Some(i) {
        assert(b.occupants@.contains_key(p.0));
    }
}

/// Nearest-anchor resolution is pinned by distance alone: when one square
/// is strictly closer to the hit point than every other square, any result
/// meeting `nearest`'s contract is that square, regardless of the order in
/// which squares were examined.
pub proof fn lemma_nearest_strictly_closer(b: ChessBoard, point: Point3, r: int, target: int)
    requires
        0 <= target < 64,
        0 <= r < 64,
        forall|i: int|
            0 <= i < 64 ==> spec_dist_sq(b.anchor(r), point) <= spec_dist_sq(
                #[trigger] b.anchor(i),
                point,
            ),
        forall|i: int|
            0 <= i < 64 && i != target ==> spec_dist_sq(b.anchor(target), point) < spec_dist_sq(
                #[trigger] b.anchor(i),
                point,
            ),
    ensures
        r == target,
{
    if r != target {
        assert(spec_dist_sq(b.anchor(r), point) <= spec_dist_sq(b.anchor(target), point));
        assert(spec_dist_sq(b.anchor(target), point) < spec_dist_sq(b.anchor(r), point));
    }
}

} // verus!
