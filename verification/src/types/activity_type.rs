use vstd::prelude::*;

use crate::text::str_eq;

verus! {

/// What kind of outing a trip was (US-11). `Unknown` is the unspecified one,
/// the same as an import that named no activity.
#[derive(Debug, Clone, Copy, PartialEq, Eq, Structural)]
pub enum ActivityType {
    Unknown,
    Hiking,
    Cycling,
    SkiTouring,
}

/// The wire value of each activity.
pub open spec fn activity_wire(a: ActivityType) -> Seq<char> {
    match a {
        ActivityType::Unknown => "unknown"@,
        ActivityType::Hiking => "hiking"@,
        ActivityType::Cycling => "cycling"@,
        ActivityType::SkiTouring => "ski_touring"@,
    }
}

/// What the owner reads for each activity; the unspecified one is a dash.
pub open spec fn activity_label(a: ActivityType) -> Seq<char> {
    match a {
        ActivityType::Unknown => "—"@,
        ActivityType::Hiking => "Hiking"@,
        ActivityType::Cycling => "Cycling"@,
        ActivityType::SkiTouring => "Ski touring"@,
    }
}

/// Every specified activity's label is its wire value as the owner reads
/// it: the same length, with the first letter a capital where the wire
/// value has the small one, a space where it has an underscore, and the
/// same character everywhere else.
pub proof fn lemma_label_spells_the_wire_value(a: ActivityType)
    requires
        a != ActivityType::Unknown,
    ensures
        activity_label(a).len() == activity_wire(a).len(),
        forall|i: int|
            0 <= i < activity_label(a).len() ==> {
                let l = #[trigger] activity_label(a)[i];
                let w = activity_wire(a)[i];
                if i == 0 {
                    'A' <= l <= 'Z' && (l as u32) + 32 == (w as u32)
                } else if w == '_' {
                    l == ' '
                } else {
                    l == w
                }
            },
{
    reveal_strlit("Hiking");
    reveal_strlit("hiking");
    reveal_strlit("Cycling");
    reveal_strlit("cycling");
    reveal_strlit("Ski touring");
    reveal_strlit("ski_touring");
}

/// The activity whose wire value is `s`, if any.
pub open spec fn activity_named(s: Seq<char>) -> Option<ActivityType> {
    if s == "unknown"@ {
        Some(ActivityType::Unknown)
    } else if s == "hiking"@ {
        Some(ActivityType::Hiking)
    } else if s == "cycling"@ {
        Some(ActivityType::Cycling)
    } else if s == "ski_touring"@ {
        Some(ActivityType::SkiTouring)
    } else {
        None
    }
}

impl ActivityType {
    /// Every activity the owner can choose; `Unknown` is the picker's blank.
    pub const SELECTABLE: [ActivityType; 3] = [
        ActivityType::Hiking,
        ActivityType::Cycling,
        ActivityType::SkiTouring,
    ];

    pub fn as_str(&self) -> (r: &'static str)
        ensures
            r@ == activity_wire(*self),
    {
        match self {
            ActivityType::Unknown => "unknown",
            ActivityType::Hiking => "hiking",
            ActivityType::Cycling => "cycling",
            ActivityType::SkiTouring => "ski_touring",
        }
    }

    pub fn label(&self) -> (r: &'static str)
        ensures
            r@ == activity_label(*self),
    {
        match self {
            ActivityType::Unknown => "—",
            ActivityType::Hiking => "Hiking",
            ActivityType::Cycling => "Cycling",
            ActivityType::SkiTouring => "Ski touring",
        }
    }

    /// The activity a wire value names, if it names one.
    pub fn parse(s: &str) -> (r: Option<ActivityType>)
        ensures
            r == activity_named(s@),
    {
        if str_eq(s, "unknown") {
            Some(ActivityType::Unknown)
        } else if str_eq(s, "hiking") {
            Some(ActivityType::Hiking)
        } else if str_eq(s, "cycling") {
            Some(ActivityType::Cycling)
        } else if str_eq(s, "ski_touring") {
            Some(ActivityType::SkiTouring)
        } else {
            None
        }
    }
}

/// Every activity's wire value reads back as that activity.
pub proof fn lemma_activity_round_trip(a: ActivityType)
    ensures
        activity_named(activity_wire(a)) == Some(a),
{
    reveal_strlit("unknown");
    reveal_strlit("hiking");
    reveal_strlit("cycling");
    reveal_strlit("ski_touring");
    assert("hiking"@[0] != "unknown"@[0]);
    assert("cycling"@[0] != "unknown"@[0]);
    assert("cycling"@[0] != "hiking"@[0]);
    assert("ski_touring"@.len() != "unknown"@.len());
    assert("ski_touring"@.len() != "hiking"@.len());
    assert("ski_touring"@.len() != "cycling"@.len());
}

} // verus!
