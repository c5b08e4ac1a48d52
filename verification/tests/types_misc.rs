use trip_archive_ui::types::activity_type::ActivityType;
use trip_archive_ui::types::error_response::ErrorResponse;
use trip_archive_ui::types::trip_kind::TripKind;

#[test]
fn an_error_is_one_worded_field() {
    assert_eq!(ErrorResponse::new("Not found").error, "Not found");
}

#[test]
fn an_activity_reads_back_from_its_wire_value() {
    for activity in [
        ActivityType::Unknown,
        ActivityType::Hiking,
        ActivityType::Cycling,
        ActivityType::SkiTouring,
    ] {
        assert_eq!(ActivityType::parse(activity.as_str()), Some(activity));
    }
    assert_eq!(ActivityType::parse("kayaking"), None);
    assert_eq!(ActivityType::SkiTouring.label(), "Ski touring");
}

#[test]
fn a_kind_reads_back_from_its_wire_value() {
    assert_eq!(TripKind::Recorded.as_str(), "recorded");
    assert_eq!(TripKind::Planned.as_str(), "planned");
    assert_eq!(TripKind::default(), TripKind::Recorded);
}
