use vstd::prelude::*;

use crate::text::owned;

verus! {

/// The body a failed API request answers with: the archive's own account of
/// what went wrong, one sentence meant for the owner. The status stays the
/// machine-readable half.
#[derive(Debug, Clone, PartialEq)]
pub struct ErrorResponse {
    pub error: String,
}

impl ErrorResponse {
    pub fn new(error: &str) -> (r: Self)
        ensures
            r.error@ == error@,
    {
        ErrorResponse { error: owned(error) }
    }
}

} // verus!
