use trip_archive_ui::stats::{date_beside_name, leads_with_a_date};

#[test]
fn only_a_whole_leading_date_counts_as_one() {
    assert!(!leads_with_a_date("2026-7-11 Walk"));
    assert!(!leads_with_a_date("Walk 2026-07-11"));
    assert!(!leads_with_a_date("2026"));
    assert!(leads_with_a_date("2026-07-11"));
    assert!(leads_with_a_date("2026-07-11 Walk"));
}

#[test]
fn a_name_without_a_date_is_followed_by_the_day_the_trip_started() {
    assert_eq!(
        date_beside_name("Oslo Hills Walk", Some("2026-07-11")),
        Some("2026-07-11")
    );
}

#[test]
fn a_name_that_leads_with_its_date_is_not_given_it_twice() {
    assert_eq!(
        date_beside_name("2026-07-11 Oslo Hills Walk", Some("2026-07-11")),
        None
    );
}

#[test]
fn a_trip_with_no_start_has_no_date_beside_its_name() {
    assert_eq!(date_beside_name("Bare Trip", None), None);
}
