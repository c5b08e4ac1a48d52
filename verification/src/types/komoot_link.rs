use vstd::prelude::*;

use super::komoot_privacy::KomootPrivacy;

verus! {

/// A trip's link to the Komoot tour it came from: the tour, and its privacy
/// once a sync has read one (US-35).
#[derive(Debug, Clone, PartialEq)]
pub struct KomootLink {
    pub tour_id: String,
    pub privacy: Option<KomootPrivacy>,
}

} // verus!
