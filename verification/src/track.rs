use vstd::prelude::*;

verus! {

/// View of a point's timestamp field.
pub enum TimeV {
    /// The point carries no timestamp.
    Missing,
    /// The point carries a timestamp the reader could not render as text.
    Unrenderable,
    /// The timestamp rendered as an ISO 8601 string.
    Text(Seq<char>),
}

/// A point's timestamp as the track reader hands it over.
pub enum RawTime {
    Missing,
    Unrenderable,
    Text(String),
}

impl DeepView for RawTime {
    type V = TimeV;

    open spec fn deep_view(&self) -> TimeV {
        match self {
            RawTime::Missing => TimeV::Missing,
            RawTime::Unrenderable => TimeV::Unrenderable,
            RawTime::Text(s) => TimeV::Text(s@),
        }
    }
}

/// View of a track point: decimal-degree coordinates and timestamp.
pub struct RawPointV {
    pub lat: Seq<char>,
    pub lon: Seq<char>,
    pub time: TimeV,
}

/// One recorded track point: its coordinate as the exact decimal-degree
/// strings of the recorded doubles, and its timestamp.
pub struct RawPoint {
    pub lat: String,
    pub lon: String,
    pub time: RawTime,
}

impl DeepView for RawPoint {
    type V = RawPointV;

    open spec fn deep_view(&self) -> RawPointV {
        RawPointV { lat: self.lat@, lon: self.lon@, time: self.time.deep_view() }
    }
}

/// An ordered run of track points.
pub struct SegmentData {
    pub points: Vec<RawPoint>,
}

impl DeepView for SegmentData {
    type V = Seq<RawPointV>;

    open spec fn deep_view(&self) -> Seq<RawPointV> {
        self.points.deep_view()
    }
}

/// One track: its segments in file order.
pub struct TrackData {
    pub segments: Vec<SegmentData>,
}

impl DeepView for TrackData {
    type V = Seq<Seq<RawPointV>>;

    open spec fn deep_view(&self) -> Seq<Seq<RawPointV>> {
        self.segments.deep_view()
    }
}

/// A parsed track document: its tracks in file order.
pub struct GpxDoc {
    pub tracks: Vec<TrackData>,
}

impl DeepView for GpxDoc {
    type V = Seq<Seq<Seq<RawPointV>>>;

    open spec fn deep_view(&self) -> Seq<Seq<Seq<RawPointV>>> {
        self.tracks.deep_view()
    }
}

/// The track document a byte stream parses to — its tracks, each track's
/// segments, each segment's points in order — or `None` when the bytes are
/// not a well-formed document. A function of the bytes alone.
pub uninterp spec fn gpx_doc_of(bytes: Seq<u8>) -> Option<Seq<Seq<Seq<RawPointV>>>>;

/// Relies on gpx::read: whether a byte stream is a well-formed GPX
/// document, and which tracks, segments and points it holds, are functions
/// of the bytes alone. Each point's coordinate doubles are rendered by
/// to_string (longitude is x, latitude is y), which round-trips exactly;
/// each timestamp is rendered by gpx::Time::format (ISO 8601).
#[verifier::external_body]
pub(crate) fn parse_gpx_doc(bytes: &[u8]) -> (r: Option<GpxDoc>)
    ensures
        r is Some <==> gpx_doc_of(bytes@) is Some,
        r matches Some(doc) ==> doc.deep_view() == gpx_doc_of(bytes@)->0,
{
    let g = gpx::read(bytes).ok()?;
    Some(GpxDoc { tracks: g.tracks.into_iter().map(|tr| TrackData {
        segments: tr.segments.into_iter().map(|sg| SegmentData {
            points: sg.points.into_iter().map(|p| RawPoint {
                lat: p.point().y().to_string(),
                lon: p.point().x().to_string(),
                time: match p.time {
                    None => RawTime::Missing,
                    Some(tm) => match tm.format() {
                        Ok(x) => RawTime::Text(x),
                        Err(_) => RawTime::Unrenderable,
                    },
                },
            }).collect() }).collect() }).collect() })
}

} // verus!
