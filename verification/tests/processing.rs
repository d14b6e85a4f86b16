use stage_times::accum::StageDurations;
use stage_times::attribution::process_file;
use stage_times::error::TrackError;
use stage_times::report::report_rows;

fn gpx_with_points(points: &str) -> Vec<u8> {
    format!(
        "<?xml version=\"1.0\" encoding=\"UTF-8\"?>\
         <gpx version=\"1.1\" creator=\"test\">\
         <trk><trkseg>{}</trkseg></trk></gpx>",
        points
    )
    .into_bytes()
}

fn trkpt(lat: &str, lon: &str, time: &str) -> String {
    format!(
        "<trkpt lat=\"{}\" lon=\"{}\"><time>{}</time></trkpt>",
        lat, lon, time
    )
}

#[test]
fn accumulation_per_stage() {
    // Three points: the first two at Dubstation, the third at Casino,
    // five minutes then three minutes apart. The first point seeds the
    // walk and contributes no interval; each interval goes to the stage
    // of its later point.
    let dub = ("53.30766", "12.73471");
    let casino = ("53.30659", "12.73436");
    let points = [
        trkpt(dub.0, dub.1, "2021-08-14T10:00:00Z"),
        trkpt(dub.0, dub.1, "2021-08-14T10:05:00Z"),
        trkpt(casino.0, casino.1, "2021-08-14T10:08:00Z"),
    ]
    .concat();
    let bytes = gpx_with_points(&points);
    let mut acc = StageDurations::new();
    assert_eq!(process_file(&mut acc, &bytes), Ok(()));
    assert_eq!(acc.get_millis("Dubstation"), Some(5 * 60 * 1000));
    assert_eq!(acc.get_millis("Casino"), Some(3 * 60 * 1000));
    assert_eq!(acc.len(), 2);
}

#[test]
fn totals_do_not_cross_files() {
    // Two files of two points each, both at Dubstation. The gap between
    // the files (55 minutes) must contribute nothing: only the two
    // intra-file deltas count.
    let dub = ("53.30766", "12.73471");
    let file_one = gpx_with_points(
        &[
            trkpt(dub.0, dub.1, "2021-08-14T10:00:00Z"),
            trkpt(dub.0, dub.1, "2021-08-14T10:05:00Z"),
        ]
        .concat(),
    );
    let file_two = gpx_with_points(
        &[
            trkpt(dub.0, dub.1, "2021-08-14T11:00:00Z"),
            trkpt(dub.0, dub.1, "2021-08-14T11:02:00Z"),
        ]
        .concat(),
    );
    let mut acc = StageDurations::new();
    assert_eq!(process_file(&mut acc, &file_one), Ok(()));
    assert_eq!(process_file(&mut acc, &file_two), Ok(()));
    assert_eq!(acc.get_millis("Dubstation"), Some(7 * 60 * 1000));
    assert_eq!(acc.len(), 1);
}

#[test]
fn missing_track_is_fatal() {
    let bytes = b"<?xml version=\"1.0\"?><gpx version=\"1.1\" creator=\"test\"></gpx>".to_vec();
    let mut acc = StageDurations::new();
    assert_eq!(process_file(&mut acc, &bytes), Err(TrackError::MissingTrack));
    assert!(report_rows(&acc).is_empty());
}

#[test]
fn missing_segment_is_fatal() {
    let bytes =
        b"<?xml version=\"1.0\"?><gpx version=\"1.1\" creator=\"test\"><trk></trk></gpx>".to_vec();
    let mut acc = StageDurations::new();
    assert_eq!(
        process_file(&mut acc, &bytes),
        Err(TrackError::MissingSegment)
    );
}

#[test]
fn unparseable_file_is_fatal() {
    let bytes = b"this is not a track document".to_vec();
    let mut acc = StageDurations::new();
    assert_eq!(process_file(&mut acc, &bytes), Err(TrackError::TrackParse));
}

#[test]
fn missing_timestamp_is_fatal() {
    let bytes = gpx_with_points("<trkpt lat=\"53.30766\" lon=\"12.73471\"></trkpt>");
    let mut acc = StageDurations::new();
    assert_eq!(
        process_file(&mut acc, &bytes),
        Err(TrackError::MissingTimestamp)
    );
}

#[test]
fn negative_deltas_accumulate_as_given() {
    // Points out of order: the delta is negative and is added as-is.
    let dub = ("53.30766", "12.73471");
    let points = [
        trkpt(dub.0, dub.1, "2021-08-14T10:05:00Z"),
        trkpt(dub.0, dub.1, "2021-08-14T10:00:00Z"),
    ]
    .concat();
    let mut acc = StageDurations::new();
    assert_eq!(process_file(&mut acc, &gpx_with_points(&points)), Ok(()));
    assert_eq!(acc.get_millis("Dubstation"), Some(-5 * 60 * 1000));
}

#[test]
fn add_overflow_is_refused() {
    let mut acc = StageDurations::new();
    assert!(acc.add("X".to_string(), i64::MAX));
    assert!(!acc.add("X".to_string(), 1));
    assert_eq!(acc.get_millis("X"), Some(i64::MAX));
    assert!(acc.add("X".to_string(), -1));
    assert_eq!(acc.get_millis("X"), Some(i64::MAX - 1));
}

#[test]
fn entries_keep_first_attribution_order() {
    let mut acc = StageDurations::new();
    assert!(acc.add("B".to_string(), 60_000));
    assert!(acc.add("A".to_string(), 120_000));
    assert!(acc.add("B".to_string(), 180_000));
    assert_eq!(acc.len(), 2);
    assert_eq!(acc.entry_at(0), ("B".to_string(), 240_000));
    assert_eq!(acc.entry_at(1), ("A".to_string(), 120_000));
}

#[test]
fn offset_timestamps_use_the_instant() {
    // The same instant written in two offsets: no time elapses.
    let dub = ("53.30766", "12.73471");
    let points = [
        trkpt(dub.0, dub.1, "2021-08-14T10:00:00Z"),
        trkpt(dub.0, dub.1, "2021-08-14T12:00:00+02:00"),
    ]
    .concat();
    let mut acc = StageDurations::new();
    assert_eq!(process_file(&mut acc, &gpx_with_points(&points)), Ok(()));
    assert_eq!(acc.get_millis("Dubstation"), Some(0));
}
