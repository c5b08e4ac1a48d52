use trip_archive_ui::types::komoot_sync::{SyncPhase, SyncRequest, SyncResponse};

#[test]
fn all_lists_every_phase_exactly_once() {
    for phase in SyncPhase::ALL {
        match phase {
            SyncPhase::Push | SyncPhase::Pull => {}
        }
    }
    assert_eq!(SyncPhase::ALL.len(), 2);
}

#[test]
fn a_phase_is_named_by_its_verb() {
    assert_eq!(SyncPhase::Push.verb(), "push");
    assert_eq!(SyncPhase::Pull.verb(), "pull");
}

#[test]
fn a_default_run_halted_nothing() {
    let run = SyncResponse::default();
    assert_eq!(run.imported, 0);
    assert!(run.failed_tour.is_none());
    assert!(run.failed_phase.is_none());
    assert!(SyncRequest::default().tours.is_empty());
}
