use trip_archive_ui::api::{ApiError, PhotoUpload};
use trip_archive_ui::import::{
    after_confirm, after_failed_restage, after_restaged_confirm, batches, partial_line,
    progress_line, ConfirmForm, ConfirmStep, Confirmation, ImportScreen, PartialImport, Progress,
    MAX_BATCH_BYTES,
};
use trip_archive_ui::types::staged_import::StagedImport;

fn a_suggestion(name: &str) -> StagedImport {
    StagedImport {
        staging_id: 7,
        suggested_name: name.to_string(),
        start_date: Some("2024-06-01".to_string()),
        gpx_name: Some("Oslo Hills Walk".to_string()),
        timezone: "Europe/Oslo".to_string(),
        duration_secs: Some(3600),
    }
}

fn a_photo(name: &str, size: usize) -> PhotoUpload {
    PhotoUpload {
        file_name: name.to_string(),
        content_type: Some("image/jpeg".to_string()),
        bytes: vec![0; size],
    }
}

#[test]
fn the_name_starts_as_the_archives_suggestion() {
    let form = ConfirmForm::of(&a_suggestion("2024-06-01 Oslo Hills Walk"));

    assert_eq!(form.name, "2024-06-01 Oslo Hills Walk");
    assert_eq!(form.timezone, "Europe/Oslo");
    assert_eq!(form.kind, "recorded");
    assert_eq!(form.activity, "");
}

#[test]
fn a_bare_date_prefix_is_sent_without_its_trailing_space() {
    let form = ConfirmForm::of(&a_suggestion("2024-06-01 "));

    assert_eq!(form.to_confirm().name.as_deref(), Some("2024-06-01"));
}

#[test]
fn a_name_wiped_out_asks_the_archive_for_its_own_fallback() {
    let mut form = ConfirmForm::of(&a_suggestion("2024-06-01 Oslo Hills Walk"));
    form.name = "   ".to_string();

    assert_eq!(form.to_confirm().name, None);
}

#[test]
fn the_owners_answers_are_what_travel() {
    let mut form = ConfirmForm::of(&a_suggestion("2024-06-01 "));
    form.name = "2024-06-01 Nordmarka".to_string();
    form.activity = "hiking".to_string();
    form.kind = "planned".to_string();
    form.timezone = "Europe/Berlin".to_string();

    let confirm = form.to_confirm();
    assert_eq!(confirm.name.as_deref(), Some("2024-06-01 Nordmarka"));
    assert_eq!(confirm.activity_type.as_deref(), Some("hiking"));
    assert_eq!(confirm.kind.as_deref(), Some("planned"));
    assert_eq!(confirm.timezone.as_deref(), Some("Europe/Berlin"));
}

#[test]
fn photos_are_split_by_count_so_the_owner_sees_the_number_move() {
    let photos: Vec<_> = (0..20).map(|i| a_photo(&format!("{i}.jpg"), 1)).collect();

    let batches = batches(photos);

    assert_eq!(batches.len(), 3, "20 photos, 8 to a request");
    assert_eq!(batches.iter().map(Vec::len).sum::<usize>(), 20);
}

#[test]
fn photos_are_split_by_size_too_because_bytes_are_what_take_time() {
    let photos = vec![
        a_photo("a.jpg", 10 * 1024 * 1024),
        a_photo("b.jpg", 10 * 1024 * 1024),
    ];

    let batches = batches(photos);

    assert_eq!(batches.len(), 2, "20 MB does not travel as one request");
}

#[test]
fn one_photo_larger_than_a_batch_travels_alone_rather_than_not_at_all() {
    let photos = vec![
        a_photo("huge.raw", MAX_BATCH_BYTES * 2),
        a_photo("b.jpg", 1),
    ];

    let batches = batches(photos);

    assert_eq!(batches.len(), 2);
    assert_eq!(batches[0].len(), 1);
    assert_eq!(batches[0][0].file_name, "huge.raw");
}

#[test]
fn no_photos_means_no_requests() {
    assert!(batches(Vec::new()).is_empty());
}

#[test]
fn batching_keeps_every_photo_in_order() {
    let photos: Vec<_> = (0..19).map(|i| a_photo(&format!("{i}.jpg"), 1)).collect();
    let names: Vec<String> = batches(photos)
        .into_iter()
        .flatten()
        .map(|p| p.file_name)
        .collect();
    let expected: Vec<String> = (0..19).map(|i| format!("{i}.jpg")).collect();
    assert_eq!(names, expected);
}

#[test]
fn a_partial_upload_says_how_many_photos_arrived() {
    let line = partial_line(6, 12, "the archive is unreachable");
    assert!(line.contains("6 of 12"), "{line}");
    assert!(line.contains("was created"), "{line}");
    assert_eq!(
        line,
        "The trip was created, but only 6 of 12 photos were uploaded: the archive is unreachable"
    );
}

#[test]
fn progress_says_how_many_photos_are_up() {
    assert_eq!(progress_line(6, 12), "6 of 12 photos uploaded.");
}

#[test]
fn a_confirmed_import_parks_nothing() {
    let step = after_confirm(a_suggestion("x"), Ok(42), true);
    assert_eq!(
        step,
        ConfirmStep::Finish(Confirmation {
            result: Ok(42),
            parked: None,
        })
    );
}

#[test]
fn a_refusal_on_its_merits_keeps_the_parse() {
    let refusal = ApiError::from_status(400, "unknown activity type");
    let step = after_confirm(a_suggestion("x"), Err(refusal.clone()), true);
    assert_eq!(
        step,
        ConfirmStep::Finish(Confirmation {
            result: Err(refusal),
            parked: Some(a_suggestion("x")),
        })
    );
}

#[test]
fn an_expired_parse_sends_the_file_again_when_the_screen_still_holds_it() {
    let gone = ApiError::from_status(404, "no such staged import");
    assert_eq!(after_confirm(a_suggestion("x"), Err(gone.clone()), true), ConfirmStep::Restage);

    match after_confirm(a_suggestion("x"), Err(gone), false) {
        ConfirmStep::Finish(Confirmation { result: Err(e), parked: None }) => {
            assert_eq!(e.to_string(), "that upload has expired — choose the file again");
            assert_eq!(e.status(), None);
        }
        other => panic!("expected an expiry, got {other:?}"),
    }
}

#[test]
fn the_second_attempt_keeps_the_new_parse_on_a_refusal() {
    let refusal = ApiError::from_status(400, "bad timezone");
    assert_eq!(
        after_restaged_confirm(a_suggestion("new"), Err(refusal.clone())),
        Confirmation {
            result: Err(refusal.clone()),
            parked: Some(a_suggestion("new")),
        }
    );
    assert_eq!(
        after_restaged_confirm(a_suggestion("new"), Ok(9)),
        Confirmation {
            result: Ok(9),
            parked: None,
        }
    );
    assert_eq!(
        after_failed_restage(refusal.clone()),
        Confirmation {
            result: Err(refusal),
            parked: None,
        }
    );
}

#[test]
fn only_one_confirmation_is_in_flight_at_a_time() {
    let mut screen = ImportScreen::new();
    assert!(!screen.begin_confirm(), "nothing parked, nothing to confirm");

    screen.staged = Some(a_suggestion("Walk"));
    screen.error = Some("an old problem".to_string());
    assert!(screen.begin_confirm());
    assert!(screen.submitting);
    assert_eq!(screen.error, None);
    assert!(!screen.begin_confirm(), "a second press sends nothing");
    assert!(screen.submitting);
}

#[test]
fn a_refused_confirmation_sends_no_photo() {
    let mut screen = ImportScreen::new();
    screen.staged = Some(a_suggestion("Walk"));
    assert!(screen.begin_confirm());
    let outcome = Confirmation {
        result: Err(ApiError::from_status(422, "name is too long")),
        parked: Some(a_suggestion("Walk")),
    };
    assert_eq!(screen.confirmation_ended(outcome, 3), None);
    assert!(!screen.submitting);
    assert_eq!(screen.progress, None);
    assert_eq!(
        screen.error.as_deref(),
        Some("Could not import this trip: name is too long")
    );
    assert_eq!(screen.staged, Some(a_suggestion("Walk")));
    assert!(screen.begin_confirm(), "the owner can try again");
}

#[test]
fn photos_go_up_to_the_trip_the_confirmation_made() {
    let mut screen = ImportScreen::new();
    screen.staged = Some(a_suggestion("Walk"));
    assert!(screen.begin_confirm());
    let outcome = Confirmation { result: Ok(42), parked: None };
    assert_eq!(screen.confirmation_ended(outcome, 12), Some(42));
    assert_eq!(screen.staged, None);
    assert_eq!(screen.progress, Some(Progress { done: 0, total: 12 }));
    screen.batch_uploaded(8);
    assert_eq!(screen.progress, Some(Progress { done: 8, total: 12 }));
    assert!(!screen.begin_confirm());
    screen.batch_uploaded(4);
    screen.upload_finished();
    assert_eq!(screen.progress, None);
    assert!(!screen.submitting);
}

#[test]
fn a_refused_batch_leaves_a_partly_uploaded_trip() {
    let mut screen = ImportScreen::new();
    screen.staged = Some(a_suggestion("Walk"));
    assert!(screen.begin_confirm());
    let outcome = Confirmation { result: Ok(42), parked: None };
    assert_eq!(screen.confirmation_ended(outcome, 12), Some(42));
    screen.batch_uploaded(8);
    screen.upload_failed(42, &ApiError::new("the archive is unreachable"));
    assert_eq!(
        screen.partial,
        Some(PartialImport {
            trip_id: 42,
            uploaded: 8,
            total: 12,
            error: "the archive is unreachable".to_string(),
        })
    );
    assert_eq!(screen.progress, None);
    assert!(!screen.submitting);
}

#[test]
fn a_staged_file_is_kept_to_send_again_and_start_over_lets_it_go() {
    let mut screen = ImportScreen::new();
    screen.error = Some("an old problem".to_string());
    screen.file_chosen();
    assert!(screen.reading);
    assert_eq!(screen.error, None);
    screen.stage_answered("walk.gpx".to_string(), b"<gpx/>".to_vec(), Ok(a_suggestion("Walk")));
    assert!(!screen.reading);
    assert!(screen.has_file());
    assert_eq!(screen.gpx, Some(("walk.gpx".to_string(), b"<gpx/>".to_vec())));
    assert_eq!(screen.staged, Some(a_suggestion("Walk")));

    assert_eq!(screen.start_over(), Some(7));
    assert_eq!(screen.staged, None);
    assert!(!screen.has_file());
    assert_eq!(screen.start_over(), None);
}

#[test]
fn a_refused_or_unreadable_file_keeps_the_owner_on_the_picker() {
    let mut screen = ImportScreen::new();
    screen.file_chosen();
    screen.stage_answered(
        "notes.txt".to_string(),
        b"hello".to_vec(),
        Err(ApiError::from_status(400, "not a GPX file")),
    );
    assert!(!screen.reading);
    assert_eq!(screen.staged, None);
    assert!(!screen.has_file());
    assert_eq!(
        screen.error.as_deref(),
        Some("Could not read that GPX file: not a GPX file")
    );

    screen.file_chosen();
    screen.file_unreadable("walk.gpx", "permission denied");
    assert!(!screen.reading);
    assert_eq!(
        screen.error.as_deref(),
        Some("Could not read walk.gpx: permission denied")
    );
}
