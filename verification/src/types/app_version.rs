use vstd::prelude::*;

verus! {

/// What `GET /api/version` answers with (US-68): the version the server was
/// built from, e.g. `2026-09-24 · e45c25a`, or `dev` for a build without one.
#[derive(Debug, Clone, PartialEq)]
pub struct AppVersion {
    pub version: String,
}

} // verus!
