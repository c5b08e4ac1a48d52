use vstd::prelude::*;

use crate::text::str_eq;

verus! {

/// Whether a trip was recorded or is only planned (US-29/US-31): which of
/// the list's two tabs it appears on.
#[derive(Debug, Clone, Copy, PartialEq, Eq, Structural)]
pub enum TripKind {
    Recorded,
    Planned,
}

/// The wire value of each kind.
pub open spec fn kind_wire(k: TripKind) -> Seq<char> {
    match k {
        TripKind::Recorded => "recorded"@,
        TripKind::Planned => "planned"@,
    }
}

/// What the owner reads for each kind.
pub open spec fn kind_label(k: TripKind) -> Seq<char> {
    match k {
        TripKind::Recorded => "Recorded"@,
        TripKind::Planned => "Planned"@,
    }
}

/// The kind whose wire value is `s`, if any.
pub open spec fn kind_named(s: Seq<char>) -> Option<TripKind> {
    if s == "recorded"@ {
        Some(TripKind::Recorded)
    } else if s == "planned"@ {
        Some(TripKind::Planned)
    } else {
        None
    }
}

impl Default for TripKind {
    /// An import that says nothing is a recorded trip (US-31).
    fn default() -> (r: Self)
        ensures
            r == TripKind::Recorded,
    {
        TripKind::Recorded
    }
}

impl TripKind {
    /// Both kinds, in the order the tabs and the radios show them.
    pub const ALL: [TripKind; 2] = [TripKind::Recorded, TripKind::Planned];

    pub fn as_str(&self) -> (r: &'static str)
        ensures
            r@ == kind_wire(*self),
    {
        match self {
            TripKind::Recorded => "recorded",
            TripKind::Planned => "planned",
        }
    }

    pub fn label(&self) -> (r: &'static str)
        ensures
            r@ == kind_label(*self),
    {
        match self {
            TripKind::Recorded => "Recorded",
            TripKind::Planned => "Planned",
        }
    }

    /// The kind a wire value names, if it names one.
    pub fn parse(s: &str) -> (r: Option<TripKind>)
        ensures
            r == kind_named(s@),
    {
        if str_eq(s, "recorded") {
            Some(TripKind::Recorded)
        } else if str_eq(s, "planned") {
            Some(TripKind::Planned)
        } else {
            None
        }
    }
}

/// Every kind's wire value reads back as that kind.
pub proof fn lemma_kind_round_trip(k: TripKind)
    ensures
        kind_named(kind_wire(k)) == Some(k),
{
    reveal_strlit("recorded");
    reveal_strlit("planned");
    assert("recorded"@[0] != "planned"@[0]);
}

} // verus!
