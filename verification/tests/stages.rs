use stage_times::error::TrackError;
use stage_times::stage::{closest_stage, closest_stage_in, stages, Stage};

#[test]
fn nearest_at_each_stage_location() {
    let expected = [
        ("HPTTRSN", "53.30959", "12.73694"),
        ("Turmbühne", "53.30864", "12.73732"),
        ("Dubstation", "53.30766", "12.73471"),
        ("Casino", "53.30659", "12.73436"),
        ("FreiKörperKüste", "53.30399", "12.73192"),
        ("Tanzwüste", "53.31186", "12.73839"),
        ("Stoners Garden", "53.31189", "12.74076"),
        ("Trancefloor", "53.31224", "12.74221"),
        ("Rootsbase", "53.31198", "12.74359"),
        ("Extravaganza", "53.31059", "12.74393"),
        ("Sonnendeck", "53.31089", "12.74322"),
        ("Palapa", "53.30974", "12.74381"),
        ("Panne Eichel", "53.31049", "12.75295"),
    ];
    assert_eq!(stages().len(), expected.len());
    for (name, lat, lon) in expected {
        assert_eq!(closest_stage(lat, lon), Ok(name.to_string()));
    }
}

#[test]
fn tie_at_same_location_goes_to_earlier_stage() {
    let pair = vec![
        Stage::new("First", "53.0", "12.0"),
        Stage::new("Second", "53.0", "12.0"),
    ];
    assert_eq!(
        closest_stage_in(&pair, "53.5", "12.5"),
        Ok("First".to_string())
    );
}

#[test]
fn tie_by_symmetry_goes_to_earlier_stage() {
    let pair = vec![
        Stage::new("West", "53.0", "12.0"),
        Stage::new("East", "53.0", "14.0"),
    ];
    assert_eq!(
        closest_stage_in(&pair, "53.0", "13.0"),
        Ok("West".to_string())
    );
}

#[test]
fn distance_failure_is_an_error() {
    let list = vec![Stage::new("Antipode", "0.5", "179.5")];
    assert_eq!(
        closest_stage_in(&list, "0.0", "0.0"),
        Err(TrackError::DistanceComputation)
    );
}

#[test]
fn stage_coordinates_denote_the_recorded_degrees() {
    let degrees = [
        (53.30959, 12.73694),
        (53.30864, 12.73732),
        (53.30766, 12.73471),
        (53.30659, 12.73436),
        (53.30399, 12.73192),
        (53.31186, 12.73839),
        (53.31189, 12.74076),
        (53.31224, 12.74221),
        (53.31198, 12.74359),
        (53.31059, 12.74393),
        (53.31089, 12.74322),
        (53.30974, 12.74381),
        (53.31049, 12.75295),
    ];
    let list = stages();
    assert_eq!(list.len(), degrees.len());
    for (stage, (lat, lon)) in list.iter().zip(degrees) {
        let parsed_lat: f64 = stage.lat.parse().unwrap();
        let parsed_lon: f64 = stage.lon.parse().unwrap();
        assert_eq!(parsed_lat, lat);
        assert_eq!(parsed_lon, lon);
    }
}

#[test]
fn stage_distance_key_orders_as_distances() {
    let near = Stage::new("Near", "53.30766", "12.73471");
    let far = Stage::new("Far", "53.31049", "12.75295");
    let k_near = near.distance_key("53.30765", "12.73470").unwrap();
    let k_far = far.distance_key("53.30765", "12.73470").unwrap();
    assert!(k_near < k_far);
}
