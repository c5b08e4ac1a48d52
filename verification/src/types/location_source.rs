use vstd::prelude::*;

verus! {

/// How a photo's position was decided (US-3/US-4/US-30).
#[derive(Debug, Clone, Copy, PartialEq, Eq, Structural)]
pub enum LocationSource {
    /// The photo has no position (the wire's `none`).
    Unplaced,
    /// Read from the photo's own GPS data.
    Exif,
    /// Worked out from when it was taken along the track.
    Interpolated,
    /// Placed by hand by the owner.
    Manual,
    /// Handed over by Komoot.
    Provided,
}

} // verus!
