//! The selection state machine.
//!
//! The controller is two-phase: from `Empty`, a press on an active-team
//! piece arms a selection; from `Selected`, a press resolves the
//! interaction, either deselecting or emitting one move intent, and always
//! returns to `Empty`. Rejections are silent no-ops. The transition on the
//! selection state is given by the spec functions below, which
//! `Game::press_piece` is proved to follow.

use vstd::prelude::*;

use crate::coords::Coordinate;
use crate::piece::{PieceId, Team};

verus! {

/// The selection: the piece currently armed for a move, if any.
#[derive(Clone, Copy, Debug, PartialEq, Eq, Structural)]
pub struct PieceSelection {
    pub piece: Option<PieceId>,
}

impl PieceSelection {
    /// Starts with nothing selected.
    pub fn new() -> (r: PieceSelection)
        ensures
            r.piece is None,
    {
        PieceSelection { piece: None }
    }
}

impl Default for PieceSelection {
    /// Starts with nothing selected.
    fn default() -> (r: Self)
        ensures
            r.piece is None,
    {
        PieceSelection { piece: None }
    }
}

/// A resolved move intent: move whatever stands on `from` to `to`. Produced
/// by the selection controller and consumed by the move executor; it is not
/// yet validated against board occupancy.
#[derive(Clone, Copy, Debug, PartialEq, Eq, Structural)]
pub struct PieceMoveEvent {
    pub from: Coordinate,
    pub to: Coordinate,
}

/// The next selection after a press on a piece: while a piece is selected,
/// any piece press resolves the interaction and returns to `Empty`; from
/// `Empty`, the pressed piece becomes selected exactly when it belongs to
/// the active team.
pub open spec fn press_piece_sel(
    sel: Option<PieceId>,
    p: PieceId,
    p_team: Team,
    active: Team,
) -> Option<PieceId> {
    match sel {
        Some(_) => None,
        None => if p_team == active {
            Some(p)
        } else {
            None
        },
    }
}

/// Whether a press on a piece emits a move intent: only from `Selected`,
/// and only when a different piece is pressed.
pub open spec fn press_piece_emits(sel: Option<PieceId>, p: PieceId) -> bool {
    match sel {
        Some(s) => s != p,
        None => false,
    }
}

/// Selection idempotence: pressing the same piece twice from `Empty` ends
/// with nothing selected, and neither press emits a move intent — whatever
/// the piece's team and whichever team is active. (That no press changes
/// the board is stated by `Game::press_piece` itself.)
pub proof fn lemma_press_piece_idempotent(p: PieceId, p_team: Team, active: Team)
    ensures
        ({
            let s1 = press_piece_sel(None, p, p_team, active);
            let s2 = press_piece_sel(s1, p, p_team, active);
            &&& s2 is None
            &&& !press_piece_emits(None, p)
            &&& !press_piece_emits(s1, p)
        }),
{
}

} // verus!
