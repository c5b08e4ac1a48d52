use trip_archive_ui::api::ApiError;
use trip_archive_ui::placing::{overwrite_warning, Placing};
use trip_archive_ui::types::location_source::LocationSource;

#[test]
fn every_automatic_position_is_warned_about_before_it_is_replaced() {
    for source in [
        LocationSource::Exif,
        LocationSource::Interpolated,
        LocationSource::Provided,
    ] {
        let warning = overwrite_warning(source).expect("a warning");
        assert!(warning.contains("replaces"), "{source:?}: {warning}");
    }
    assert_ne!(
        overwrite_warning(LocationSource::Exif),
        overwrite_warning(LocationSource::Interpolated)
    );
    assert!(overwrite_warning(LocationSource::Provided)
        .unwrap()
        .contains("Komoot"));
}

#[test]
fn nothing_is_warned_about_when_nothing_automatic_is_lost() {
    assert_eq!(overwrite_warning(LocationSource::Unplaced), None);
    assert_eq!(overwrite_warning(LocationSource::Manual), None);
}

#[test]
fn one_save_goes_out_per_press() {
    let mut placing = Placing::new();
    assert!(!placing.save_enabled());
    assert!(!placing.begin_save(), "nothing chosen, nothing to save");

    placing.pick();
    assert!(placing.save_enabled());
    assert!(placing.begin_save());
    assert!(!placing.save_enabled());
    assert!(!placing.begin_save(), "a second press while saving sends nothing");

    placing.save_refused(&ApiError::new("no such photo"));
    assert_eq!(placing.error.as_deref(), Some("no such photo"));
    assert!(placing.save_enabled());
    assert!(placing.begin_save());
    assert_eq!(placing.error, None);
    placing.saved();
    assert!(!placing.saving);
    assert!(placing.chosen);
}
