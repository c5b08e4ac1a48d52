use trip_archive_ui::share::{create_label, link_note, pick_expiry, share_request, title};
use trip_archive_ui::types::share::ShareExpiry;

#[test]
fn us53_the_button_says_how_many_trips_it_shares() {
    assert_eq!(create_label(1), "Make a link to this trip");
    assert_eq!(create_label(3), "Make a link to 3 trips");
}

#[test]
fn us53_a_made_link_says_how_long_it_works() {
    let note = link_note(Some("2026-10-25T12:00:00Z"));
    assert!(note.contains("works until"), "{note}");
    assert_eq!(note, "It works until 2026-10-25.");
    assert!(link_note(None).contains("until you stop it"));
}

#[test]
fn a_blank_title_is_no_title_and_a_typed_one_travels_as_typed() {
    let request = share_request(&[4, 2], "   ", ShareExpiry::OneMonth);
    assert_eq!(request.trip_ids, vec![4, 2]);
    assert_eq!(request.label, None);
    assert_eq!(request.expiry, ShareExpiry::OneMonth);

    let request = share_request(&[4], " For Kari ", ShareExpiry::Never);
    assert_eq!(request.label.as_deref(), Some(" For Kari "));
}

#[test]
fn an_expiry_the_picker_does_not_know_keeps_the_one_chosen() {
    assert_eq!(pick_expiry(ShareExpiry::Never, "six_months"), ShareExpiry::SixMonths);
    assert_eq!(pick_expiry(ShareExpiry::OneMonth, "forever"), ShareExpiry::OneMonth);
}

#[test]
fn a_share_goes_by_its_label_or_a_plain_description() {
    assert_eq!(title(Some("Summer 2026")), "Summer 2026");
    assert_eq!(title(None), "Shared trips");
}
