use stage_times::accum::StageDurations;
use stage_times::attribution::process_file;
use stage_times::duration::format_duration;
use stage_times::report::report_rows;

#[test]
fn report_sorts_descending_with_ties_reversed() {
    // A: 10 min, B: 30 min, C: 30 min, inserted in that order. The
    // report is descending; B and C are tied and appear in reverse
    // insertion order: C before B.
    let mut acc = StageDurations::new();
    assert!(acc.add("A".to_string(), 10 * 60 * 1000));
    assert!(acc.add("B".to_string(), 30 * 60 * 1000));
    assert!(acc.add("C".to_string(), 30 * 60 * 1000));
    let rows = report_rows(&acc);
    assert_eq!(
        rows,
        vec![
            ("C".to_string(), "0:30".to_string()),
            ("B".to_string(), "0:30".to_string()),
            ("A".to_string(), "0:10".to_string()),
        ]
    );
}

#[test]
fn durations_format_as_hours_and_padded_minutes() {
    assert_eq!(format_duration(125 * 60 * 1000), "2:05");
    assert_eq!(format_duration(0), "0:00");
    assert_eq!(format_duration(59 * 60 * 1000 + 59 * 1000), "0:59");
    assert_eq!(format_duration(60 * 60 * 1000), "1:00");
    assert_eq!(format_duration(25 * 60 * 60 * 1000), "25:00");
}

#[test]
fn negative_durations_carry_signs_per_component() {
    assert_eq!(format_duration(-125 * 60 * 1000), "-2:-5");
    assert_eq!(format_duration(-30 * 60 * 1000), "0:-30");
    assert_eq!(format_duration(-2 * 60 * 60 * 1000), "-2:00");
    assert_eq!(format_duration(-61 * 60 * 1000), "-1:-1");
}

#[test]
fn two_files_end_to_end() {
    // Two files, each one track with one segment of three points five
    // minutes apart, near a distinct stage. Each file attributes ten
    // minutes to its stage; the rows are tied and stand in reverse
    // insertion order.
    let file_one = "<?xml version=\"1.0\"?><gpx version=\"1.1\" creator=\"t\"><trk><trkseg>\
         <trkpt lat=\"53.30766\" lon=\"12.73471\"><time>2021-08-14T09:00:00Z</time></trkpt>\
         <trkpt lat=\"53.30766\" lon=\"12.73471\"><time>2021-08-14T09:05:00Z</time></trkpt>\
         <trkpt lat=\"53.30767\" lon=\"12.73472\"><time>2021-08-14T09:10:00Z</time></trkpt>\
         </trkseg></trk></gpx>";
    let file_two = "<?xml version=\"1.0\"?><gpx version=\"1.1\" creator=\"t\"><trk><trkseg>\
         <trkpt lat=\"53.30659\" lon=\"12.73436\"><time>2021-08-14T10:00:00Z</time></trkpt>\
         <trkpt lat=\"53.30659\" lon=\"12.73436\"><time>2021-08-14T10:05:00Z</time></trkpt>\
         <trkpt lat=\"53.30660\" lon=\"12.73437\"><time>2021-08-14T10:10:00Z</time></trkpt>\
         </trkseg></trk></gpx>";
    let mut acc = StageDurations::new();
    assert_eq!(process_file(&mut acc, file_one.as_bytes()), Ok(()));
    assert_eq!(process_file(&mut acc, file_two.as_bytes()), Ok(()));
    assert_eq!(acc.get_millis("Dubstation"), Some(10 * 60 * 1000));
    assert_eq!(acc.get_millis("Casino"), Some(10 * 60 * 1000));
    let rows = report_rows(&acc);
    assert_eq!(
        rows,
        vec![
            ("Casino".to_string(), "0:10".to_string()),
            ("Dubstation".to_string(), "0:10".to_string()),
        ]
    );
}
