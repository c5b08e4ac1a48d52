use trip_archive_ui::api::ApiError;
use trip_archive_ui::komoot::{
    all_ticked, pending_note, refusal, run_report, selection_request, set_all_ticked, set_ticked,
    SyncRun,
};
use trip_archive_ui::types::komoot_sync::{SelectedTour, SyncCandidate, SyncPhase, SyncResponse};
use trip_archive_ui::types::trip_kind::TripKind;

fn a_candidate(tour_id: &str, name: &str, kind: TripKind) -> SyncCandidate {
    SyncCandidate {
        tour_id: tour_id.to_string(),
        name: name.to_string(),
        sport: "hike".to_string(),
        date: "2026-07-11T08:47:52.000Z".to_string(),
        kind,
    }
}

fn ticked(ids: &[&str]) -> Vec<String> {
    ids.iter().map(|id| id.to_string()).collect()
}

#[test]
fn a_selection_asks_for_the_tours_it_ticked_carrying_their_kind() {
    let candidates = vec![
        a_candidate("111", "Fjord Loop", TripKind::Recorded),
        a_candidate("222", "Ridge Traverse", TripKind::Planned),
    ];

    let request = selection_request(&candidates, &ticked(&["222"]));

    assert_eq!(
        request.tours,
        vec![SelectedTour {
            tour_id: "222".to_string(),
            kind: TripKind::Planned,
        }]
    );
}

#[test]
fn a_selection_only_ever_asks_for_tours_still_on_offer() {
    let candidates = vec![a_candidate("222", "Ridge Traverse", TripKind::Recorded)];

    let request = selection_request(&candidates, &ticked(&["111", "222"]));

    assert_eq!(request.tours.len(), 1);
    assert_eq!(request.tours[0].tour_id, "222");
}

#[test]
fn nothing_ticked_still_makes_a_run() {
    let candidates = vec![a_candidate("111", "Fjord Loop", TripKind::Recorded)];

    let request = selection_request(&candidates, &[]);

    assert!(request.tours.is_empty());
}

fn a_run() -> SyncResponse {
    SyncResponse::default()
}

#[test]
fn a_clean_run_reports_what_it_pulled() {
    let report = run_report(&SyncResponse {
        imported: 3,
        ..a_run()
    });

    assert!(report.contains("Synced 3 tour(s)"), "{report}");
}

#[test]
fn a_run_that_pushed_first_reports_that_half_too() {
    let report = run_report(&SyncResponse {
        pushed: 2,
        deleted: 1,
        imported: 0,
        ..a_run()
    });

    assert!(report.contains("Pushed 2 edit(s)"), "{report}");
    assert!(report.contains("Deleted 1 tour(s) on Komoot"), "{report}");
    assert!(report.contains("Synced 0 tour(s)"), "{report}");
}

#[test]
fn a_push_that_sent_nothing_is_not_mentioned() {
    let report = run_report(&SyncResponse {
        imported: 1,
        ..a_run()
    });

    assert!(!report.contains("Pushed"), "{report}");
    assert!(!report.contains("Deleted"), "{report}");
}

#[test]
fn a_halted_pull_names_the_tour_that_stopped_it() {
    let report = run_report(&SyncResponse {
        imported: 1,
        failed_tour: Some("222".to_string()),
        failed_msg: Some("komoot returned 500".to_string()),
        failed_phase: Some(SyncPhase::Pull),
        ..a_run()
    });

    assert!(report.contains("222"), "the tour must be named: {report}");
    assert!(report.contains("komoot returned 500"), "{report}");
    assert!(report.contains("pull"), "{report}");
    assert!(report.contains("Synced 1 tour(s)"), "{report}");
}

#[test]
fn a_halted_push_says_push_rather_than_pull() {
    let report = run_report(&SyncResponse {
        failed_tour: Some("111".to_string()),
        failed_msg: Some("delete tour: komoot returned 500".to_string()),
        failed_phase: Some(SyncPhase::Push),
        ..a_run()
    });

    assert!(report.contains("push"), "{report}");
    assert!(!report.contains("pull"), "{report}");
}

#[test]
fn a_failure_with_no_words_still_says_something() {
    let report = run_report(&SyncResponse {
        failed_tour: Some("111".to_string()),
        failed_phase: Some(SyncPhase::Pull),
        ..a_run()
    });

    assert!(report.contains("111"), "{report}");
    assert!(report.contains("unknown error"), "{report}");
}

#[test]
fn a_full_report_reads_as_one_line() {
    let report = run_report(&SyncResponse {
        pushed: 2,
        deleted: 1,
        imported: 4,
        failed_tour: Some("222".to_string()),
        failed_msg: Some("komoot returned 500".to_string()),
        failed_phase: Some(SyncPhase::Pull),
    });
    assert_eq!(
        report,
        "Pushed 2 edit(s). Deleted 1 tour(s) on Komoot. Synced 4 tour(s). Failed to pull tour 222: komoot returned 500"
    );
}

#[test]
fn a_quiet_queue_is_not_mentioned_at_all() {
    assert_eq!(pending_note(0, 0), None);
}

#[test]
fn a_pending_edit_is_named_before_the_run_not_after() {
    let note = pending_note(2, 0).expect("a note");

    assert!(note.contains("2 edit(s)"), "{note}");
    assert!(!note.contains("deletion"), "{note}");
}

#[test]
fn a_pending_delete_is_named_alongside_it() {
    let note = pending_note(2, 1).expect("a note");

    assert!(note.contains("2 edit(s)"), "{note}");
    assert!(note.contains("1 deletion(s)"), "{note}");
    assert_eq!(
        note,
        "This run will also push 2 edit(s) and 1 deletion(s) to Komoot."
    );
    assert_eq!(
        pending_note(0, 3).as_deref(),
        Some("This run will also push 3 deletion(s) to Komoot.")
    );
}

#[test]
fn a_run_already_going_is_said_in_the_archives_words() {
    let busy = ApiError::from_status(409, "a sync is already running");
    assert_eq!(refusal(&busy), "a sync is already running");
    let down = ApiError::new("http://archive.test/api/komoot/sync unreachable: refused");
    assert_eq!(
        refusal(&down),
        "Could not sync with Komoot: http://archive.test/api/komoot/sync unreachable: refused"
    );
}

#[test]
fn ticks_are_a_set_and_the_header_box_fills_when_all_are_ticked() {
    let candidates = vec![
        a_candidate("111", "Fjord Loop", TripKind::Recorded),
        a_candidate("222", "Ridge Traverse", TripKind::Planned),
    ];
    let mut selected: Vec<String> = Vec::new();
    assert!(!all_ticked(&candidates, &selected));

    set_ticked(&mut selected, "111", true);
    set_ticked(&mut selected, "111", true);
    assert_eq!(selected, ticked(&["111"]));
    assert!(!all_ticked(&candidates, &selected));

    set_all_ticked(&mut selected, &candidates, true);
    assert!(all_ticked(&candidates, &selected));

    set_ticked(&mut selected, "111", false);
    assert_eq!(selected, ticked(&["222"]));

    set_all_ticked(&mut selected, &candidates, false);
    assert!(selected.is_empty());
    assert!(!all_ticked(&[], &ticked(&["111"])));
}

#[test]
fn only_one_run_is_on_its_way_at_a_time() {
    let mut run = SyncRun::new();
    assert!(run.begin());
    assert!(run.running);
    assert!(!run.begin(), "a second press starts nothing");

    run.refused(&ApiError::from_status(409, "a sync is already running"));
    assert!(!run.running);
    assert_eq!(run.error.as_deref(), Some("a sync is already running"));

    assert!(run.begin());
    assert_eq!(run.error, None);
    run.finished(&SyncResponse {
        imported: 3,
        ..a_run()
    });
    assert!(!run.running);
    assert!(run.report.as_deref().unwrap().contains("Synced 3 tour(s)"));
}
