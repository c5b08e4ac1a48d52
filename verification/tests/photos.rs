use trip_archive_ui::api::PhotoUpload;
use trip_archive_ui::import::batches;
use trip_archive_ui::photos::{
    absolute, caption, captions, captions_need_dates, tapped, unsent, PopupTap, Upload,
};

#[test]
fn a_photos_url_is_resolved_against_the_archive_it_came_from() {
    assert_eq!(
        absolute("http://archive.test", "/media/trips/1/a.jpg"),
        "http://archive.test/media/trips/1/a.jpg"
    );
    assert_eq!(absolute("", "/media/trips/1/a.jpg"), "/media/trips/1/a.jpg");
    assert_eq!(
        absolute("http://archive.test", "https://bucket.example/a.jpg"),
        "https://bucket.example/a.jpg"
    );
}

#[test]
fn a_photo_is_captioned_with_when_it_was_taken_where_it_was_taken() {
    assert_eq!(
        caption(Some("2024-06-01T08:15:00Z"), Some(7200), false).as_deref(),
        Some("10:15 (+02:00)")
    );
    assert_eq!(
        caption(Some("2024-06-01T08:15:00Z"), Some(7200), true).as_deref(),
        Some("1 Jun 10:15 (+02:00)")
    );
}

#[test]
fn a_photo_whose_zone_is_unknown_is_captioned_in_labelled_utc() {
    assert_eq!(
        caption(Some("2024-06-01T08:15:00Z"), None, false).as_deref(),
        Some("08:15 UTC")
    );
}

#[test]
fn a_photo_with_no_capture_time_has_no_caption() {
    assert_eq!(caption(None, None, false), None);
}

#[test]
fn captions_carry_the_date_only_when_the_photos_span_more_than_one() {
    let morning = (Some("2024-06-01T08:15:00Z".to_string()), Some(7200));
    let evening = (Some("2024-06-01T20:15:00Z".to_string()), Some(7200));
    let midnight = (Some("2024-06-01T22:30:00Z".to_string()), Some(7200));
    let untimed = (None, None);

    assert!(!captions_need_dates(&[
        morning.clone(),
        evening.clone(),
        untimed
    ]));
    assert!(captions_need_dates(&[morning, midnight]));
}

fn uploads(count: usize) -> Vec<PhotoUpload> {
    (0..count)
        .map(|i| PhotoUpload {
            file_name: format!("{i}.jpg"),
            content_type: Some("image/jpeg".to_string()),
            bytes: b"\xFF\xD8\xFF-fake-jpeg".to_vec(),
        })
        .collect()
}

#[test]
fn uploads_report_the_running_count_after_each_batch() {
    let mut upload = Upload::start(uploads(20));
    let mut reported = Vec::new();
    while let Some(batch) = upload.next_batch() {
        assert!(batch.len() <= 8);
        upload.batch_sent();
        reported.push(upload.uploaded());
    }
    assert_eq!(reported, vec![8, 16, 20]);
}

#[test]
fn a_stopped_upload_keeps_what_did_not_arrive() {
    let chosen = uploads(20);
    let mut upload = Upload::start(chosen.clone());
    assert_eq!(upload.uploaded(), 0);
    upload.batch_sent();
    let left = unsent(chosen, upload.uploaded());
    assert_eq!(left.len(), 12);
    assert_eq!(left[0].file_name, "8.jpg");
    let rest: Vec<String> = batches(uploads(20))
        .into_iter()
        .skip(1)
        .flatten()
        .map(|p| p.file_name)
        .collect();
    assert_eq!(
        left.iter().map(|p| p.file_name.clone()).collect::<Vec<_>>(),
        rest
    );
}

#[test]
fn nothing_chosen_is_nothing_to_send() {
    let upload = Upload::start(Vec::new());
    assert!(upload.next_batch().is_none());
    assert!(unsent(uploads(2), 2).is_empty());
}

#[test]
fn a_url_resolved_once_is_left_alone_the_second_time() {
    let once = absolute("http://archive.test", "/media/trips/1/a.jpg");
    assert_eq!(absolute("http://archive.test", &once), once);
}

#[test]
fn a_tap_in_a_popup_opens_that_markers_photos_at_the_one_tapped() {
    let groups = vec![
        vec!["alone.jpg"],
        vec!["first.jpg", "second.jpg"],
    ];

    let (set, start) = tapped(&groups, PopupTap { marker: 1, photo: 1 }).unwrap();

    assert_eq!(set, &vec!["first.jpg", "second.jpg"]);
    assert_eq!(start, 1);
}

#[test]
fn a_tap_on_a_marker_the_map_no_longer_has_opens_nothing() {
    let groups = vec![vec!["a.jpg"]];
    assert_eq!(tapped(&groups, PopupTap { marker: 3, photo: 0 }), None);
    assert_eq!(tapped(&groups, PopupTap { marker: 0, photo: 4 }), None);
}

#[test]
fn a_refused_batch_stops_the_upload_and_leaves_the_rest() {
    let chosen = uploads(20);
    let mut upload = Upload::start(chosen.clone());
    upload.batch_sent();
    let (uploaded, rest) = upload.refused();
    let names = |ps: &[PhotoUpload]| ps.iter().map(|p| p.file_name.clone()).collect::<Vec<_>>();
    assert_eq!(uploaded, 8);
    assert_eq!(names(&rest), names(&unsent(chosen, 8)));
    assert_eq!(rest.len(), 12);
    assert_eq!(rest[0].file_name, "8.jpg");

    let (uploaded, rest) = Upload::start(uploads(3)).refused();
    assert_eq!(uploaded, 0);
    assert_eq!(names(&rest), vec!["0.jpg", "1.jpg", "2.jpg"]);
}

#[test]
fn captions_are_dated_together_or_not_at_all() {
    let morning = (Some("2024-06-01T08:15:00Z".to_string()), Some(7200));
    let midnight = (Some("2024-06-01T22:30:00Z".to_string()), Some(7200));
    let untimed = (None, None);
    assert_eq!(
        captions(&[morning.clone(), untimed.clone()]),
        Some(vec![Some("10:15 (+02:00)".to_string()), None])
    );
    assert_eq!(
        captions(&[morning, midnight, untimed]),
        Some(vec![
            Some("1 Jun 10:15 (+02:00)".to_string()),
            Some("2 Jun 00:30 (+02:00)".to_string()),
            None,
        ])
    );
    let too_late = (Some("9999-12-31T23:30:00Z".to_string()), Some(3600));
    assert_eq!(captions(&[too_late]), None);
}
