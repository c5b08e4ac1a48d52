//! Placing a photo by hand (US-30): what doing so throws away, said before
//! it happens.

use vstd::prelude::*;

use crate::api::ApiError;
use crate::types::location_source::LocationSource;

verus! {

/// The warning for each automatic position, and none where nothing
/// automatic is lost.
pub open spec fn warning_text(source: LocationSource) -> Option<Seq<char>> {
    match source {
        LocationSource::Exif => Some(
            "This photo's position was read from its own GPS data. Saving replaces it."@,
        ),
        LocationSource::Interpolated => Some(
            "This photo's position was worked out from when it was taken along the track. Saving replaces it."@,
        ),
        LocationSource::Provided => Some(
            "This photo's position came from Komoot. Saving replaces it."@,
        ),
        LocationSource::Unplaced => None,
        LocationSource::Manual => None,
    }
}

/// What placing a photo by hand throws away, said before it happens —
/// `None` when there is nothing automatic to lose: a photo that was never
/// placed, or one the owner placed already.
pub fn overwrite_warning(source: LocationSource) -> (r: Option<&'static str>)
    ensures
        match r {
            Some(w) => warning_text(source) == Some(w@),
            None => warning_text(source) is None,
        },
{
    match source {
        LocationSource::Exif => Some(
            "This photo's position was read from its own GPS data. Saving replaces it.",
        ),
        LocationSource::Interpolated => Some(
            "This photo's position was worked out from when it was taken along the track. Saving replaces it.",
        ),
        LocationSource::Provided => Some(
            "This photo's position came from Komoot. Saving replaces it.",
        ),
        LocationSource::Unplaced => None,
        LocationSource::Manual => None,
    }
}

/// Every automatic position is warned about before it is replaced, and a
/// position that is not automatic never is.
pub proof fn lemma_warned_exactly_when_automatic(source: LocationSource)
    ensures
        warning_text(source) is Some <==> (source == LocationSource::Exif || source
            == LocationSource::Interpolated || source == LocationSource::Provided),
{
}

/// Where placing a photo stands: whether a spot on the map is chosen,
/// whether its save is in flight, and the last problem to show.
#[derive(Debug, Clone, PartialEq)]
pub struct Placing {
    pub chosen: bool,
    pub saving: bool,
    pub error: Option<String>,
}

impl Placing {
    /// Nothing chosen, nothing in flight.
    pub fn new() -> (r: Self)
        ensures
            !r.chosen,
            !r.saving,
            r.error is None,
    {
        Placing { chosen: false, saving: false, error: None }
    }

    /// A tap on the map: a spot is chosen (the latest tap wins).
    pub fn pick(&mut self)
        ensures
            final(self).chosen,
            final(self).saving == old(self).saving,
            final(self).error == old(self).error,
    {
        self.chosen = true;
    }

    /// Whether "Save" can be pressed: a spot is chosen and no save is in
    /// flight.
    pub fn save_enabled(&self) -> (r: bool)
        ensures
            r == (self.chosen && !self.saving),
    {
        self.chosen && !self.saving
    }

    /// "Save" pressed: whether to send the request now. One request per
    /// press: not without a spot, and never while one is in flight, since a
    /// second would race the first to the same row. Once sent, it is in
    /// flight and the last problem goes.
    pub fn begin_save(&mut self) -> (send: bool)
        ensures
            send == (old(self).chosen && !old(self).saving),
            send ==> final(self).saving && final(self).error is None && final(self).chosen,
            !send ==> *final(self) == *old(self),
    {
        if !self.chosen || self.saving {
            return false;
        }
        self.saving = true;
        self.error = None;
        true
    }

    /// The archive stored the new position: nothing is in flight.
    pub fn saved(&mut self)
        ensures
            !final(self).saving,
            final(self).chosen == old(self).chosen,
            final(self).error == old(self).error,
    {
        self.saving = false;
    }

    /// The save was refused: its words are shown, the chosen spot stays,
    /// and nothing is in flight.
    pub fn save_refused(&mut self, refusal: &ApiError)
        ensures
            !final(self).saving,
            final(self).chosen == old(self).chosen,
            final(self).error matches Some(m) && m@ == refusal.message_view(),
    {
        self.error = Some(refusal.to_string());
        self.saving = false;
    }
}

} // verus!
