//! What a trip's photo gallery claims (US-2/US-5): "No photos yet" is a
//! claim about the trip, so neither a read still in flight nor a failed one
//! is evidence for it; and photos already read stay on screen through a
//! refresh, and belong to the trip they were read for.

use vstd::prelude::*;

verus! {

/// What the gallery shows under its heading, beside any failure to read.
#[derive(Debug, Clone, Copy, PartialEq, Eq, Structural)]
pub enum GalleryShows {
    /// Nothing read yet, and nothing failed: "Loading the photos…".
    Loading,
    /// Nothing to show but the failure.
    Nothing,
    /// A read that found none: "No photos yet."
    NoPhotosYet,
    /// The photos, by their thumbnails.
    Photos,
}

/// What the gallery shows, given how many photos were last read (none while
/// no read has succeeded) and whether the last read failed.
pub open spec fn gallery_shows_spec(photo_count: Option<usize>, failed: bool) -> GalleryShows {
    match photo_count {
        None => if failed {
            GalleryShows::Nothing
        } else {
            GalleryShows::Loading
        },
        Some(n) => if n > 0 {
            GalleryShows::Photos
        } else if failed {
            GalleryShows::Nothing
        } else {
            GalleryShows::NoPhotosYet
        },
    }
}

/// What the gallery shows: the photos whenever there are some, failure or
/// not; "No photos yet" only for a read that succeeded and found none; and
/// "Loading" only while nothing has been read and nothing has failed.
pub fn gallery_shows(photo_count: Option<usize>, failed: bool) -> (r: GalleryShows)
    ensures
        r == gallery_shows_spec(photo_count, failed),
{
    match photo_count {
        None => if failed {
            GalleryShows::Nothing
        } else {
            GalleryShows::Loading
        },
        Some(n) => if n > 0 {
            GalleryShows::Photos
        } else if failed {
            GalleryShows::Nothing
        } else {
            GalleryShows::NoPhotosYet
        },
    }
}

/// "No photos yet" is never claimed on a failed read or a read in flight.
pub proof fn lemma_emptiness_is_only_claimed_on_evidence(photo_count: Option<usize>, failed: bool)
    ensures
        gallery_shows_spec(photo_count, failed) == GalleryShows::NoPhotosYet ==> (!failed
            && photo_count == Some(0usize)),
{
}

/// The photos to show for trip `id`: the last ones read successfully, kept
/// through a refresh — but only if they were read for this trip, so a trip
/// never wears the previous one's gallery.
pub fn photos_for_trip<'a, T>(read_for: Option<i64>, photos: &'a Vec<T>, id: i64) -> (r: Option<
    &'a Vec<T>,
>)
    ensures
        read_for == Some(id) ==> r == Some(photos),
        read_for != Some(id) ==> r is None,
{
    match read_for {
        Some(trip) => if trip == id {
            Some(photos)
        } else {
            None
        },
        None => None,
    }
}

/// A failure to read photos, shown only on the trip it was a failure for.
pub fn failure_for_trip<'a>(failed_for: Option<(i64, &'a str)>, id: i64) -> (r: Option<&'a str>)
    ensures
        match failed_for {
            Some((trip, message)) => if trip == id {
                r == Some(message)
            } else {
                r is None
            },
            None => r is None,
        },
{
    match failed_for {
        Some((trip, message)) => if trip == id {
            Some(message)
        } else {
            None
        },
        None => None,
    }
}

} // verus!
