use trip_archive_ui::edit::{activity_value, changes, privacy_value, EditForm, EditableTrip};
use trip_archive_ui::types::activity_type::ActivityType;
use trip_archive_ui::types::komoot_link::KomootLink;
use trip_archive_ui::types::komoot_privacy::KomootPrivacy;

fn a_trip(activity: ActivityType, komoot: Option<KomootLink>) -> EditableTrip {
    EditableTrip {
        name: "Oslo Hills Walk".to_string(),
        activity_type: activity,
        komoot,
    }
}

fn a_form(trip: &EditableTrip) -> EditForm {
    EditForm::of(trip)
}

#[test]
fn a_form_nobody_touched_asks_for_no_change_at_all() {
    let trip = a_trip(ActivityType::Hiking, None);

    assert!(changes(&trip, &a_form(&trip)).is_empty());
}

#[test]
fn only_the_fields_that_changed_are_asked_for() {
    let trip = a_trip(ActivityType::Hiking, None);
    let mut form = a_form(&trip);
    form.name = "Renamed Trip".to_string();

    let edit = changes(&trip, &form);

    assert_eq!(edit.name.as_deref(), Some("Renamed Trip"));
    assert_eq!(edit.activity_type, None);
    assert_eq!(edit.privacy_status, None);
}

#[test]
fn clearing_the_activity_asks_for_the_unspecified_one() {
    let trip = a_trip(ActivityType::Hiking, None);
    let mut form = a_form(&trip);
    form.activity = String::new();

    assert_eq!(changes(&trip, &form).activity_type.as_deref(), Some(""));
}

#[test]
fn a_privacy_left_as_the_archive_reported_it_is_never_pushed_back() {
    let trip = a_trip(
        ActivityType::Hiking,
        Some(KomootLink {
            tour_id: "111".to_string(),
            privacy: Some(KomootPrivacy::Unknown),
        }),
    );

    assert!(changes(&trip, &a_form(&trip)).is_empty());
}

#[test]
fn a_chosen_privacy_is_asked_for() {
    let trip = a_trip(
        ActivityType::Hiking,
        Some(KomootLink {
            tour_id: "111".to_string(),
            privacy: Some(KomootPrivacy::Private),
        }),
    );
    let mut form = a_form(&trip);
    form.privacy = KomootPrivacy::Public.as_str().to_string();

    assert_eq!(
        changes(&trip, &form).privacy_status.as_deref(),
        Some("public")
    );
}

#[test]
fn the_form_opens_on_what_the_trip_has() {
    let trip = a_trip(
        ActivityType::Hiking,
        Some(KomootLink {
            tour_id: "111".to_string(),
            privacy: Some(KomootPrivacy::Private),
        }),
    );
    let form = a_form(&trip);
    assert_eq!(form.name, "Oslo Hills Walk");
    assert_eq!(form.activity, "hiking");
    assert_eq!(form.privacy, "private");
}

#[test]
fn a_privacy_the_owner_cannot_choose_opens_blank() {
    let unknown = KomootLink {
        tour_id: "111".to_string(),
        privacy: Some(KomootPrivacy::Unknown),
    };
    let unread = KomootLink {
        tour_id: "111".to_string(),
        privacy: None,
    };
    assert_eq!(privacy_value(Some(&unknown)), "");
    assert_eq!(privacy_value(Some(&unread)), "");
    assert_eq!(privacy_value(None), "");
    assert_eq!(activity_value(ActivityType::Unknown), "");
    assert_eq!(activity_value(ActivityType::SkiTouring), "ski_touring");
}
