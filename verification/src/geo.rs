use vstd::prelude::*;

verus! {

/// Distance key between two coordinates given as decimal-degree strings:
/// the geodesic distance in meters from the first point to the second,
/// carried as the bit pattern of its IEEE-754 double, or `None` when the
/// distance cannot be computed. The distance is nonnegative, and the bit
/// patterns of nonnegative doubles order as their values do, so two keys
/// compare exactly as the distances they stand for.
pub uninterp spec fn geo_distance_key(
    lat_a: Seq<char>,
    lon_a: Seq<char>,
    lat_b: Seq<char>,
    lon_b: Seq<char>,
) -> Option<u64>;

/// Relies on geoutils::Location::distance_to (Vincenty's inverse formula):
/// the geodesic distance in meters between two points, a function of the
/// two coordinates alone; and on str::parse to read each decimal-degree
/// string as a double. Returns the distance's bit pattern (to_bits), or
/// `None` when a coordinate does not parse or the formula does not
/// converge.
#[allow(unused_assignments)]
#[verifier::external_body]
pub(crate) fn distance_key(lat_a: &str, lon_a: &str, lat_b: &str, lon_b: &str) -> (r: Option<
    u64,
>)
    ensures
        r == geo_distance_key(lat_a@, lon_a@, lat_b@, lon_b@),
{
    // The zero location only anchors the numeric type the strings parse to.
    let zero = geoutils::Location::new(0i32, 0i32);
    let mut lat = zero.latitude();
    let mut lon = zero.longitude();
    lat = lat_a.parse().ok()?;
    lon = lon_a.parse().ok()?;
    let from = geoutils::Location::new(lat, lon);
    lat = lat_b.parse().ok()?;
    lon = lon_b.parse().ok()?;
    let to = geoutils::Location::new(lat, lon);
    Some(from.distance_to(&to).ok()?.meters().to_bits())
}

} // verus!
