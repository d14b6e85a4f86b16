use vstd::prelude::*;

use crate::accum::{lemma_add_total, spec_add, total_millis, StageDurations};
use crate::error::TrackError;
use crate::instant::{parse_rfc3339_millis, rfc3339_millis};
use crate::stage::{closest_idx, closest_stage_in, keys_known, spec_stages, stages, StageV};
use crate::track::{gpx_doc_of, parse_gpx_doc, RawPointV, RawTime, TimeV};

verus! {

/// The instant a point's timestamp denotes, when it has one and it parses.
pub open spec fn point_instant(p: RawPointV) -> Option<i64> {
    match p.time {
        TimeV::Text(s) => rfc3339_millis(s),
        _ => None,
    }
}

/// The walk over a segment's points in order: each point is attributed to
/// its nearest stage, and the time from the previous point's instant to
/// its own is added to that stage's total. `prev` seeds the previous
/// instant, so the first point of a walk started with `None` contributes
/// no interval. Stops at the first failing point, leaving the totals as
/// the walk had built them so far.
pub open spec fn walk_points(
    stages: Seq<StageV>,
    points: Seq<RawPointV>,
    prev: Option<i64>,
    acc: Seq<(Seq<char>, i64)>,
) -> (Result<(), TrackError>, Seq<(Seq<char>, i64)>)
    decreases points.len(),
{
    if points.len() == 0 {
        (Ok(()), acc)
    } else {
        let p = points[0];
        if !keys_known(stages, p.lat, p.lon) {
            (Err(TrackError::DistanceComputation), acc)
        } else {
            let stage_name = stages[closest_idx(stages, p.lat, p.lon)].name;
            match p.time {
                TimeV::Missing => (Err(TrackError::MissingTimestamp), acc),
                TimeV::Unrenderable => (Err(TrackError::TimestampParse), acc),
                TimeV::Text(s) => match rfc3339_millis(s) {
                    None => (Err(TrackError::TimestampParse), acc),
                    Some(t) => match prev {
                        None => walk_points(stages, points.drop_first(), Some(t), acc),
                        Some(pt) => match spec_add(acc, stage_name, t - pt) {
                            None => (Err(TrackError::DurationOverflow), acc),
                            Some(acc2) => walk_points(stages, points.drop_first(), Some(t), acc2),
                        },
                    },
                },
            }
        }
    }
}

/// What processing one file's bytes does to the accumulator: parse the
/// bytes, take the first segment of the first track, and walk its points
/// with no previous instant carried in.
pub open spec fn file_outcome(acc: Seq<(Seq<char>, i64)>, bytes: Seq<u8>) -> (Result<
    (),
    TrackError,
>, Seq<(Seq<char>, i64)>) {
    match gpx_doc_of(bytes) {
        None => (Err(TrackError::TrackParse), acc),
        Some(doc) => if doc.len() == 0 {
            (Err(TrackError::MissingTrack), acc)
        } else if doc[0].len() == 0 {
            (Err(TrackError::MissingSegment), acc)
        } else {
            walk_points(spec_stages(), doc[0][0], None, acc)
        },
    }
}

/// Law of accumulation: a walk that succeeds grows the total across all
/// stages together by exactly the time from its reference instant to the
/// last point's instant — the telescoped sum of the consecutive
/// point-to-point deltas, each attributed to its own stage. A walk seeded
/// with no reference instant adds the span from its first to its last
/// point: the first point contributes no interval, and since every file is
/// walked from such a seed, no interval ever crosses a file boundary.
pub proof fn lemma_walk_total(
    stages: Seq<StageV>,
    points: Seq<RawPointV>,
    prev: Option<i64>,
    acc: Seq<(Seq<char>, i64)>,
)
    requires
        walk_points(stages, points, prev, acc).0 is Ok,
    ensures
        points.len() == 0 ==> walk_points(stages, points, prev, acc).1 == acc,
        points.len() > 0 && prev is Some ==> total_millis(walk_points(stages, points, prev, acc).1)
            == total_millis(acc) + point_instant(points.last())->0 - prev->0,
        points.len() > 0 && prev is None ==> total_millis(walk_points(stages, points, prev, acc).1)
            == total_millis(acc) + point_instant(points.last())->0 - point_instant(
            points.first(),
        )->0,
    decreases points.len(),
{
    if points.len() > 0 {
        let p = points[0];
        let rest = points.drop_first();
        if rest.len() > 0 {
            assert(rest.last() == points.last());
        }
        match p.time {
            TimeV::Text(s) => {
                match rfc3339_millis(s) {
                    Some(t) => {
                        match prev {
                            None => {
                                lemma_walk_total(stages, rest, Some(t), acc);
                            },
                            Some(pt) => {
                                let stage_name = stages[closest_idx(stages, p.lat, p.lon)].name;
                                let acc2 = spec_add(acc, stage_name, t - pt)->0;
                                lemma_add_total(acc, stage_name, t - pt);
                                lemma_walk_total(stages, rest, Some(t), acc2);
                            },
                        }
                    },
                    None => {},
                }
            },
            _ => {},
        }
    }
}

/// The span a file's walk covers: from its first walked point's instant
/// to its last's; zero when the walked segment is empty.
pub open spec fn file_span(bytes: Seq<u8>) -> int {
    let pts = gpx_doc_of(bytes)->0[0][0];
    if pts.len() == 0 {
        0
    } else {
        point_instant(pts.last())->0 - point_instant(pts.first())->0
    }
}

/// Law of inter-file isolation: two files processed one after the other
/// grow the total across all stages by each file's own first-to-last
/// span and nothing more — no interval is computed across the boundary
/// between them, whatever instants the files hold.
pub proof fn lemma_files_isolated(acc: Seq<(Seq<char>, i64)>, bytes_a: Seq<u8>, bytes_b: Seq<u8>)
    requires
        file_outcome(acc, bytes_a).0 is Ok,
        file_outcome(file_outcome(acc, bytes_a).1, bytes_b).0 is Ok,
    ensures
        total_millis(file_outcome(file_outcome(acc, bytes_a).1, bytes_b).1) == total_millis(acc)
            + file_span(bytes_a) + file_span(bytes_b),
{
    let mid = file_outcome(acc, bytes_a).1;
    lemma_walk_total(spec_stages(), gpx_doc_of(bytes_a)->0[0][0], None, acc);
    lemma_walk_total(spec_stages(), gpx_doc_of(bytes_b)->0[0][0], None, mid);
}

/// Process one track file: attribute the time between its consecutive
/// points to the stage nearest each point, as `file_outcome` states. On an
/// error the run is meant to abort; the totals hold what the walk had
/// built when it stopped.
pub fn process_file(acc: &mut StageDurations, bytes: &[u8]) -> (r: Result<(), TrackError>)
    ensures
        r == file_outcome(old(acc)@, bytes@).0,
        final(acc)@ == file_outcome(old(acc)@, bytes@).1,
{
    let doc = match parse_gpx_doc(bytes) {
        Some(d) => d,
        None => {
            return Err(TrackError::TrackParse);
        },
    };
    let ghost docv = gpx_doc_of(bytes@)->0;
    if doc.tracks.len() == 0 {
        proof {
            assert(docv.len() == 0);
        }
        return Err(TrackError::MissingTrack);
    }
    let track = &doc.tracks[0];
    proof {
        assert(track.deep_view() == docv[0]);
    }
    if track.segments.len() == 0 {
        return Err(TrackError::MissingSegment);
    }
    let seg = &track.segments[0];
    let ghost segv = docv[0][0];
    proof {
        assert(seg.deep_view() == segv);
    }
    let stage_list = stages();
    let ghost m0 = acc@;
    let mut prev: Option<i64> = None;
    let mut i: usize = 0;
    proof {
        assert(segv.skip(0) =~= segv);
    }
    while i < seg.points.len()
        invariant
            0 <= i <= segv.len(),
            m0 == old(acc)@,
            gpx_doc_of(bytes@) is Some,
            gpx_doc_of(bytes@)->0.len() > 0,
            gpx_doc_of(bytes@)->0[0].len() > 0,
            segv == gpx_doc_of(bytes@)->0[0][0],
            seg.points.deep_view() == segv,
            seg.points@.len() == segv.len(),
            stage_list.deep_view() == spec_stages(),
            stage_list@.len() == 13,
            walk_points(spec_stages(), segv, None, m0) == walk_points(
                spec_stages(),
                segv.skip(i as int),
                prev,
                acc@,
            ),
        decreases segv.len() - i,
    {
        let ghost tail = segv.skip(i as int);
        proof {
            assert(tail.len() > 0);
            assert(tail[0] == segv[i as int]);
            assert(tail.drop_first() =~= segv.skip(i as int + 1));
        }
        let p = &seg.points[i];
        proof {
            assert(p.deep_view() == segv[i as int]);
        }
        let name = match closest_stage_in(&stage_list, p.lat.as_str(), p.lon.as_str()) {
            Ok(n) => n,
            Err(e) => {
                return Err(e);
            },
        };
        let t = match &p.time {
            RawTime::Missing => {
                return Err(TrackError::MissingTimestamp);
            },
            RawTime::Unrenderable => {
                return Err(TrackError::TimestampParse);
            },
            RawTime::Text(s) => match parse_rfc3339_millis(s.as_str()) {
                Some(t) => t,
                None => {
                    return Err(TrackError::TimestampParse);
                },
            },
        };
        if let Some(pt) = prev {
            let wide: i128 = t as i128 - pt as i128;
            if wide < i64::MIN as i128 || wide > i64::MAX as i128 {
                return Err(TrackError::DurationOverflow);
            }
            let ok = acc.add(name, wide as i64);
            if !ok {
                return Err(TrackError::DurationOverflow);
            }
        }
        prev = Some(t);
        i += 1;
    }
    proof {
        assert(segv.skip(i as int) =~= Seq::<RawPointV>::empty());
    }
    Ok(())
}

} // verus!
