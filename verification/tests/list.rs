use trip_archive_ui::filters::Filters;
use trip_archive_ui::list::{counts_line, empty_message, tab_total_query};
use trip_archive_ui::types::activity_type::ActivityType;
use trip_archive_ui::types::trip_kind::TripKind;

#[test]
fn the_counts_line_reports_both_numbers() {
    let line = counts_line(1, 2, TripKind::Recorded, 0).unwrap();
    assert!(line.contains("1 of 2 recorded trips"), "{line}");
}

#[test]
fn a_list_longer_than_a_page_says_which_rows_are_shown() {
    let line = counts_line(120, 312, TripKind::Recorded, 2).unwrap();
    assert!(
        line.contains("120 of 312 recorded trips · showing 101–120"),
        "{line}"
    );
}

#[test]
fn a_list_that_fits_on_a_page_needs_no_place() {
    let line = counts_line(50, 50, TripKind::Recorded, 0).unwrap();
    assert!(!line.contains("showing"), "{line}");
    assert_eq!(line, "50 recorded trips");
}

#[test]
fn an_empty_tab_leaves_the_counts_to_the_empty_state() {
    assert_eq!(counts_line(0, 0, TripKind::Recorded, 0), None);
}

#[test]
fn an_empty_list_says_whether_the_filters_emptied_it() {
    assert_eq!(empty_message(&Filters::default()), "No trips yet. Import your first trip.");
    let planned = Filters {
        kind: TripKind::Planned,
        ..Default::default()
    };
    assert_eq!(empty_message(&planned), "No planned trips yet.");
    let narrowed = Filters {
        activity: Some(ActivityType::Cycling),
        ..Default::default()
    };
    assert_eq!(empty_message(&narrowed), "No trips match your filters.");
}

#[test]
fn the_tab_total_asks_for_the_whole_tab() {
    assert_eq!(tab_total_query(TripKind::Planned), "kind=planned");
    assert_eq!(tab_total_query(TripKind::Recorded), "kind=recorded");
}
