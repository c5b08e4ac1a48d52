use vstd::prelude::*;

verus! {

/// What `POST /api/import/staged` answers with, as far as the confirm step
/// reads it: the handle to confirm, the suggested name, the track's start
/// date and name, the guessed timezone, and the duration.
#[derive(Debug, Clone, PartialEq)]
pub struct StagedImport {
    pub staging_id: i64,
    pub suggested_name: String,
    pub start_date: Option<String>,
    pub gpx_name: Option<String>,
    pub timezone: String,
    pub duration_secs: Option<i64>,
}

/// The `POST /api/import/staged/:id/confirm` body: the owner's answers. An
/// absent or blank field falls back the way the single-step import does.
#[derive(Debug, Clone, PartialEq)]
pub struct ConfirmImport {
    pub name: Option<String>,
    pub activity_type: Option<String>,
    pub kind: Option<String>,
    pub timezone: Option<String>,
}

impl Default for ConfirmImport {
    fn default() -> (r: Self)
        ensures
            r.name is None,
            r.activity_type is None,
            r.kind is None,
            r.timezone is None,
    {
        ConfirmImport { name: None, activity_type: None, kind: None, timezone: None }
    }
}

/// What a confirmed import answers with: the trip that now exists.
#[derive(Debug, Clone, PartialEq)]
pub struct ImportedTrip {
    pub id: i64,
}

} // verus!
