use vstd::prelude::*;

use super::trip_kind::TripKind;

verus! {

/// A not-yet-synced Komoot tour, as offered on the "Sync now" review screen
/// (US-22/US-29), with what the review's rules read of it: the tour, what it
/// is called, its sport and date as Komoot wrote them, and its kind.
#[derive(Debug, Clone, PartialEq)]
pub struct SyncCandidate {
    pub tour_id: String,
    pub name: String,
    pub sport: String,
    pub date: String,
    pub kind: TripKind,
}

/// What `GET /api/komoot/sync` answers with: the candidates, and how many
/// pending edits (US-20) and deletes (US-24) the push phases would send.
#[derive(Debug, Clone, PartialEq)]
pub struct SyncCandidates {
    pub candidates: Vec<SyncCandidate>,
    pub pending_edits: i64,
    pub pending_deletes: i64,
}

/// One tour the owner ticked: its id plus the kind the screen knew it was.
#[derive(Debug, Clone, PartialEq)]
pub struct SelectedTour {
    pub tour_id: String,
    pub kind: TripKind,
}

/// The `POST /api/komoot/sync` body: the ticked tours, in submission order.
#[derive(Debug, Clone, PartialEq)]
pub struct SyncRequest {
    pub tours: Vec<SelectedTour>,
}

impl Default for SyncRequest {
    fn default() -> (r: Self)
        ensures
            r.tours@.len() == 0,
    {
        SyncRequest { tours: Vec::new() }
    }
}

/// Which half of a sync run a failure belongs to (US-25).
#[derive(Debug, Clone, Copy, PartialEq, Eq, Structural)]
pub enum SyncPhase {
    Push,
    Pull,
}

/// The verb naming each phase.
pub open spec fn phase_verb(p: SyncPhase) -> Seq<char> {
    match p {
        SyncPhase::Push => "push"@,
        SyncPhase::Pull => "pull"@,
    }
}

impl SyncPhase {
    /// Every variant.
    pub const ALL: [SyncPhase; 2] = [SyncPhase::Push, SyncPhase::Pull];

    /// The verb the screen uses when naming what failed: "Failed to push
    /// tour 123" / "Failed to pull tour 123".
    pub fn verb(&self) -> (r: &'static str)
        ensures
            r@ == phase_verb(*self),
    {
        match self {
            SyncPhase::Push => "push",
            SyncPhase::Pull => "pull",
        }
    }
}

/// What `POST /api/komoot/sync` answers with: how much each phase did, and
/// the one trip or tour that halted the run, if any.
#[derive(Debug, Clone, PartialEq)]
pub struct SyncResponse {
    pub pushed: usize,
    pub deleted: usize,
    pub imported: usize,
    pub failed_tour: Option<String>,
    pub failed_msg: Option<String>,
    pub failed_phase: Option<SyncPhase>,
}

impl Default for SyncResponse {
    fn default() -> (r: Self)
        ensures
            r.pushed == 0,
            r.deleted == 0,
            r.imported == 0,
            r.failed_tour is None,
            r.failed_msg is None,
            r.failed_phase is None,
    {
        SyncResponse {
            pushed: 0,
            deleted: 0,
            imported: 0,
            failed_tour: None,
            failed_msg: None,
            failed_phase: None,
        }
    }
}

} // verus!
