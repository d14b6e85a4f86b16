use vstd::prelude::*;

verus! {

/// What can go wrong while attributing a track file's time to stages.
/// Every error is fatal to a run: the caller aborts on the first one.
#[derive(Clone, Copy, Debug, PartialEq, Eq, Structural)]
pub enum TrackError {
    /// The bytes are not a well-formed track document.
    TrackParse,
    /// The document holds no track.
    MissingTrack,
    /// The first track holds no segment.
    MissingSegment,
    /// A point has no timestamp.
    MissingTimestamp,
    /// A point's timestamp cannot be rendered or parsed as an instant.
    TimestampParse,
    /// The geodesic distance from a coordinate to a stage cannot be computed.
    DistanceComputation,
    /// An accumulated duration does not fit the duration type.
    DurationOverflow,
}

} // verus!
