use vstd::prelude::*;

use crate::error::TrackError;
use crate::geo::geo_distance_key;

verus! {

/// View of a stage: its name and its decimal-degree coordinates, as
/// character sequences.
pub struct StageV {
    pub name: Seq<char>,
    pub lat: Seq<char>,
    pub lon: Seq<char>,
}

/// A named geographic point. Its latitude and longitude are decimal
/// degrees, carried as the exact decimal strings they were written as.
pub struct Stage {
    pub name: String,
    pub lat: String,
    pub lon: String,
}

impl View for Stage {
    type V = StageV;

    open spec fn view(&self) -> StageV {
        StageV { name: self.name@, lat: self.lat@, lon: self.lon@ }
    }
}

impl DeepView for Stage {
    type V = StageV;

    open spec fn deep_view(&self) -> StageV {
        self@
    }
}

impl Stage {
    pub fn new(name: &str, lat: &str, lon: &str) -> (s: Stage)
        ensures
            s@ == (StageV { name: name@, lat: lat@, lon: lon@ }),
    {
        Stage { name: name.to_owned(), lat: lat.to_owned(), lon: lon.to_owned() }
    }

    /// The distance from this stage to the given coordinate, as an order
    /// key: keys of two distances compare as the distances themselves do.
    /// `None` when the geodesic formula fails on this pair.
    pub fn distance_key(&self, lat: &str, lon: &str) -> (r: Option<u64>)
        ensures
            r == stage_key(self@, lat@, lon@),
    {
        crate::geo::distance_key(self.lat.as_str(), self.lon.as_str(), lat, lon)
    }
}

/// Distance key from stage `s` to the coordinate `(lat, lon)`.
pub open spec fn stage_key(s: StageV, lat: Seq<char>, lon: Seq<char>) -> Option<u64> {
    geo_distance_key(s.lat, s.lon, lat, lon)
}

/// The geodesic distance from every stage of the list to `(lat, lon)` can
/// be computed.
pub open spec fn keys_known(stages: Seq<StageV>, lat: Seq<char>, lon: Seq<char>) -> bool {
    forall|j: int| 0 <= j < stages.len() ==> (#[trigger] stage_key(stages[j], lat, lon)) is Some
}

/// Index of the stage nearest to `(lat, lon)` among `stages[0..n]`, with
/// first-minimum semantics: a later stage replaces the best seen so far
/// only when it is strictly nearer, so ties go to the earlier stage.
pub open spec fn best_upto(stages: Seq<StageV>, lat: Seq<char>, lon: Seq<char>, n: int) -> int
    decreases n,
{
    if n <= 1 {
        0
    } else {
        let b = best_upto(stages, lat, lon, n - 1);
        if stage_key(stages[n - 1], lat, lon)->0 < stage_key(stages[b], lat, lon)->0 {
            n - 1
        } else {
            b
        }
    }
}

/// Index of the stage nearest to `(lat, lon)`, ties to the earliest.
pub open spec fn closest_idx(stages: Seq<StageV>, lat: Seq<char>, lon: Seq<char>) -> int {
    best_upto(stages, lat, lon, stages.len() as int)
}

proof fn lemma_best_upto(stages: Seq<StageV>, lat: Seq<char>, lon: Seq<char>, n: int)
    requires
        1 <= n <= stages.len(),
    ensures
        0 <= best_upto(stages, lat, lon, n) < n,
        forall|j: int|
            0 <= j < n ==> stage_key(stages[best_upto(stages, lat, lon, n)], lat, lon)->0 <= (
            #[trigger] stage_key(stages[j], lat, lon))->0,
        forall|j: int|
            0 <= j < best_upto(stages, lat, lon, n) ==> (#[trigger] stage_key(
                stages[j],
                lat,
                lon,
            ))->0 > stage_key(stages[best_upto(stages, lat, lon, n)], lat, lon)->0,
    decreases n,
{
    if n > 1 {
        lemma_best_upto(stages, lat, lon, n - 1);
    }
}

/// Law of tie-breaking: the chosen stage bears a minimal distance key, and
/// every stage strictly earlier in the list is strictly farther away — so
/// of several equidistant nearest stages, the one appearing earliest in
/// the list is chosen.
pub proof fn lemma_closest_first_min(stages: Seq<StageV>, lat: Seq<char>, lon: Seq<char>)
    requires
        stages.len() > 0,
        keys_known(stages, lat, lon),
    ensures
        0 <= closest_idx(stages, lat, lon) < stages.len(),
        forall|j: int|
            0 <= j < stages.len() ==> stage_key(stages[closest_idx(stages, lat, lon)], lat, lon)->0
                <= (#[trigger] stage_key(stages[j], lat, lon))->0,
        forall|j: int|
            0 <= j < closest_idx(stages, lat, lon) ==> (#[trigger] stage_key(stages[j], lat, lon))
                ->0 > stage_key(stages[closest_idx(stages, lat, lon)], lat, lon)->0,
{
    lemma_best_upto(stages, lat, lon, stages.len() as int);
}

/// Name of the stage of `stages` nearest to `(lat, lon)`; of equidistant
/// stages the one earliest in the list wins. Errors exactly when the
/// geodesic distance to some stage cannot be computed.
pub fn closest_stage_in(stages: &Vec<Stage>, lat: &str, lon: &str) -> (r: Result<
    String,
    TrackError,
>)
    requires
        stages@.len() > 0,
    ensures
        r is Ok <==> keys_known(stages.deep_view(), lat@, lon@),
        r matches Ok(name) ==> name@ == stages.deep_view()[closest_idx(
            stages.deep_view(),
            lat@,
            lon@,
        )].name,
        r matches Err(e) ==> e == TrackError::DistanceComputation,
{
    let ghost sv = stages.deep_view();
    let mut best: usize = 0;
    let mut best_key: u64;
    match stages[0].distance_key(lat, lon) {
        Some(k) => {
            best_key = k;
        },
        None => {
            return Err(TrackError::DistanceComputation);
        },
    }
    let mut i: usize = 1;
    while i < stages.len()
        invariant
            1 <= i <= sv.len(),
            sv == stages.deep_view(),
            sv.len() == stages@.len(),
            0 <= best < i,
            forall|j: int| 0 <= j < i ==> (#[trigger] stage_key(sv[j], lat@, lon@)) is Some,
            Some(best_key) == stage_key(sv[best as int], lat@, lon@),
            best == best_upto(sv, lat@, lon@, i as int),
        decreases stages@.len() - i,
    {
        match stages[i].distance_key(lat, lon) {
            Some(k) => {
                if k < best_key {
                    best = i;
                    best_key = k;
                }
            },
            None => {
                proof {
                    assert(stage_key(sv[i as int], lat@, lon@) is None);
                }
                return Err(TrackError::DistanceComputation);
            },
        }
        i += 1;
    }
    Ok(stages[best].name.clone())
}

/// The views of the fixed list of thirteen stages.
pub open spec fn spec_stages() -> Seq<StageV> {
    seq![
        StageV { name: "HPTTRSN"@, lat: "53.30959"@, lon: "12.73694"@ },
        StageV { name: "Turmbühne"@, lat: "53.30864"@, lon: "12.73732"@ },
        StageV { name: "Dubstation"@, lat: "53.30766"@, lon: "12.73471"@ },
        StageV { name: "Casino"@, lat: "53.30659"@, lon: "12.73436"@ },
        StageV { name: "FreiKörperKüste"@, lat: "53.30399"@, lon: "12.73192"@ },
        StageV { name: "Tanzwüste"@, lat: "53.31186"@, lon: "12.73839"@ },
        StageV { name: "Stoners Garden"@, lat: "53.31189"@, lon: "12.74076"@ },
        StageV { name: "Trancefloor"@, lat: "53.31224"@, lon: "12.74221"@ },
        StageV { name: "Rootsbase"@, lat: "53.31198"@, lon: "12.74359"@ },
        StageV { name: "Extravaganza"@, lat: "53.31059"@, lon: "12.74393"@ },
        StageV { name: "Sonnendeck"@, lat: "53.31089"@, lon: "12.74322"@ },
        StageV { name: "Palapa"@, lat: "53.30974"@, lon: "12.74381"@ },
        StageV { name: "Panne Eichel"@, lat: "53.31049"@, lon: "12.75295"@ },
    ]
}

/// The fixed list of thirteen stages.
pub fn stages() -> (r: Vec<Stage>)
    ensures
        r.deep_view() == spec_stages(),
        r@.len() == 13,
{
    let mut v: Vec<Stage> = Vec::new();
    v.push(Stage::new("HPTTRSN", "53.30959", "12.73694"));
    v.push(Stage::new("Turmbühne", "53.30864", "12.73732"));
    v.push(Stage::new("Dubstation", "53.30766", "12.73471"));
    v.push(Stage::new("Casino", "53.30659", "12.73436"));
    v.push(Stage::new("FreiKörperKüste", "53.30399", "12.73192"));
    v.push(Stage::new("Tanzwüste", "53.31186", "12.73839"));
    v.push(Stage::new("Stoners Garden", "53.31189", "12.74076"));
    v.push(Stage::new("Trancefloor", "53.31224", "12.74221"));
    v.push(Stage::new("Rootsbase", "53.31198", "12.74359"));
    v.push(Stage::new("Extravaganza", "53.31059", "12.74393"));
    v.push(Stage::new("Sonnendeck", "53.31089", "12.74322"));
    v.push(Stage::new("Palapa", "53.30974", "12.74381"));
    v.push(Stage::new("Panne Eichel", "53.31049", "12.75295"));
    proof {
        assert(v.deep_view() =~= spec_stages());
    }
    v
}

/// Name of the fixed stage nearest to the coordinate `(lat, lon)` given in
/// decimal degrees; of equidistant stages the one earliest in the fixed
/// list wins. Errors exactly when the geodesic distance to some stage
/// cannot be computed.
pub fn closest_stage(lat: &str, lon: &str) -> (r: Result<String, TrackError>)
    ensures
        r is Ok <==> keys_known(spec_stages(), lat@, lon@),
        r matches Ok(name) ==> name@ == spec_stages()[closest_idx(spec_stages(), lat@, lon@)].name,
        r matches Err(e) ==> e == TrackError::DistanceComputation,
{
    let s = stages();
    closest_stage_in(&s, lat, lon)
}

} // verus!
