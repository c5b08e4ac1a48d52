use trip_archive_ui::track::{
    crosses_a_date, has_times, offset_at, point_time, readout, readout_times, track_is_readable,
};

fn stamps(values: [&str; 3]) -> Vec<String> {
    values.iter().map(|s| s.to_string()).collect()
}

fn times(timestamps: &[String], changes: &[(usize, Option<i32>)]) -> Vec<Option<String>> {
    let with_date = crosses_a_date(timestamps, changes);
    readout_times(timestamps, changes, 3, with_date)
}

#[test]
fn a_hovered_point_says_when_it_was_in_the_offset_it_was_in() {
    let timestamps = vec![
        "2026-07-11T09:30:00Z".to_string(),
        "2026-07-11T09:35:00Z".to_string(),
    ];
    let changes = [(0, Some(7200))];
    assert_eq!(
        readout_times(&timestamps, &changes, 2, false),
        vec![
            Some("11:30 (+02:00)".to_string()),
            Some("11:35 (+02:00)".to_string()),
        ]
    );
}

#[test]
fn a_point_across_a_border_is_read_in_the_offset_on_its_side() {
    let timestamps = stamps([
        "2026-07-11T08:00:00Z",
        "2026-07-11T09:00:00Z",
        "2026-07-11T10:00:00Z",
    ]);
    assert_eq!(
        times(&timestamps, &[(0, Some(7200)), (2, Some(10800))]),
        vec![
            Some("10:00 (+02:00)".to_string()),
            Some("11:00 (+02:00)".to_string()),
            Some("13:00 (+03:00)".to_string()),
        ]
    );
}

#[test]
fn a_track_that_crosses_midnight_dates_every_reading() {
    let timestamps = stamps([
        "2026-07-11T21:00:00Z",
        "2026-07-11T21:30:00Z",
        "2026-07-11T22:30:00Z",
    ]);
    assert_eq!(
        times(&timestamps, &[(0, Some(7200))]),
        vec![
            Some("11 Jul 23:00 (+02:00)".to_string()),
            Some("11 Jul 23:30 (+02:00)".to_string()),
            Some("12 Jul 00:30 (+02:00)".to_string()),
        ]
    );
}

#[test]
fn a_point_with_no_time_has_none_rather_than_an_invented_one() {
    let timestamps = stamps(["2026-07-11T08:00:00Z", "", "2026-07-11T10:00:00Z"]);
    let read = times(&timestamps, &[(0, Some(7200))]);
    assert_eq!(read[1], None);
    assert!(has_times(&read));
}

#[test]
fn a_point_whose_zone_is_unknown_is_read_as_labelled_utc() {
    let timestamps = stamps([
        "2026-07-11T08:00:00Z",
        "2026-07-11T09:00:00Z",
        "2026-07-11T10:00:00Z",
    ]);
    let read = times(&timestamps, &[(0, Some(7200)), (1, None)]);
    assert_eq!(read[1].as_deref(), Some("09:00 UTC"));
    assert_eq!(read[2].as_deref(), Some("10:00 UTC"));
}

#[test]
fn a_track_with_no_times_has_none_to_read_out() {
    let timestamps = stamps(["", "", ""]);
    assert!(!has_times(&times(&timestamps, &[])));
}

#[test]
fn the_offset_in_force_is_the_last_change_at_or_before_the_point() {
    let changes = [(0, Some(7200)), (5, Some(10800)), (9, None)];
    assert_eq!(offset_at(&changes, 0), Some(7200));
    assert_eq!(offset_at(&changes, 4), Some(7200));
    assert_eq!(offset_at(&changes, 5), Some(10800));
    assert_eq!(offset_at(&changes, 12), None);
    assert_eq!(offset_at(&[], 3), None);
    assert_eq!(offset_at(&[(2, Some(3600))], 1), None);
    assert_eq!(offset_at(&[(0, Some(200_000))], 1), None);
}

#[test]
fn a_point_the_track_does_not_have_has_no_time() {
    let timestamps = stamps(["2026-07-11T08:00:00Z", "", ""]);
    assert_eq!(point_time(&timestamps, &[], 7, false), None);
    assert_eq!(
        point_time(&timestamps, &[], 0, false).as_deref(),
        Some("08:00 UTC")
    );
}

#[test]
fn the_readout_dates_its_times_only_for_a_track_that_crosses_a_date() {
    let timestamps = vec![
        "2026-07-10T21:30:00Z".to_string(),
        String::new(),
        "2026-07-10T22:30:00Z".to_string(),
    ];
    let changes = [(0, Some(7200))];
    assert_eq!(
        readout(&timestamps, &changes, 3),
        Some((
            true,
            vec![
                Some("10 Jul 23:30 (+02:00)".to_string()),
                None,
                Some("11 Jul 00:30 (+02:00)".to_string()),
            ]
        ))
    );
    assert_eq!(
        readout(&timestamps, &[], 2),
        Some((false, vec![Some("21:30 UTC".to_string()), None]))
    );
}

#[test]
fn a_track_with_a_time_past_the_last_year_has_no_readout() {
    let timestamps = vec!["9999-12-31T23:30:00Z".to_string()];
    assert!(track_is_readable(&timestamps, &[]));
    assert!(!track_is_readable(&timestamps, &[(0, Some(3600))]));
    assert_eq!(readout(&timestamps, &[(0, Some(3600))], 1), None);
}
