use trip_archive_ui::filters::{decode, encode, hex, Filters};
use trip_archive_ui::types::activity_type::ActivityType;
use trip_archive_ui::types::trip_kind::TripKind;

#[test]
fn an_untouched_filter_asks_only_for_its_tab() {
    assert_eq!(Filters::default().to_query(), "kind=recorded");
    assert!(!Filters::default().any_set());
}

#[test]
fn set_fields_become_the_servers_own_parameter_names() {
    let filters = Filters {
        kind: TripKind::Planned,
        q: "oslo".to_string(),
        activity: Some(ActivityType::Hiking),
        from: "2026-01-01".to_string(),
        to: "2026-12-31".to_string(),
        min_dist: "5".to_string(),
        max_dist: "40".to_string(),
        tags: Vec::new(),
        bbox: String::new(),
    };

    assert_eq!(
        filters.to_query(),
        "kind=planned&activity=hiking&q=oslo&from=2026-01-01&to=2026-12-31&min_dist=5&max_dist=40"
    );
    assert!(filters.any_set());
}

#[test]
fn blank_and_whitespace_only_fields_are_left_out() {
    let filters = Filters {
        q: "   ".to_string(),
        ..Default::default()
    };

    assert_eq!(filters.to_query(), "kind=recorded");
    assert!(!filters.any_set());
}

#[test]
fn chosen_tags_travel_as_one_comma_separated_parameter() {
    let filters = Filters {
        tags: vec!["alpine".to_string(), "summer".to_string()],
        ..Default::default()
    };

    assert_eq!(filters.to_query(), "kind=recorded&tags=alpine%2Csummer");
    assert!(filters.any_set());
}

#[test]
fn every_filter_survives_a_round_trip_through_the_query_string() {
    let filters = Filters {
        kind: TripKind::Planned,
        q: "oslo".to_string(),
        activity: Some(ActivityType::SkiTouring),
        from: "2026-01-01".to_string(),
        to: "2026-12-31".to_string(),
        min_dist: "5".to_string(),
        max_dist: "40".to_string(),
        tags: vec!["alpine".to_string(), "summer".to_string()],
        bbox: String::new(),
    };

    assert_eq!(Filters::from_query(&filters.to_query()), filters);
}

#[test]
fn a_search_full_of_awkward_characters_round_trips_too() {
    let filters = Filters {
        q: "oslo & bergen? 100% + å".to_string(),
        ..Default::default()
    };

    assert_eq!(Filters::from_query(&filters.to_query()), filters);
}

#[test]
fn a_chosen_region_travels_as_the_apis_bbox_parameter() {
    let filters = Filters {
        bbox: "10.75,59.91,11.25,60.12".to_string(),
        ..Default::default()
    };

    assert_eq!(
        filters.to_query(),
        "kind=recorded&bbox=10.75%2C59.91%2C11.25%2C60.12"
    );
    assert_eq!(Filters::from_query(&filters.to_query()), filters);
}

#[test]
fn a_chosen_region_counts_as_a_filter() {
    let filters = Filters {
        bbox: "10.75,59.91,11.25,60.12".to_string(),
        ..Default::default()
    };

    assert!(filters.any_set());
    assert!(!Filters::default().any_set());
}

#[test]
fn an_empty_query_is_the_default_view() {
    assert_eq!(Filters::from_query(""), Filters::default());
}

#[test]
fn a_hand_edited_query_keeps_what_it_can() {
    let filters = Filters::from_query("kind=planned&activity=nonsense&q=oslo&bogus=1&novalue");

    assert_eq!(filters.kind, TripKind::Planned);
    assert_eq!(filters.activity, None);
    assert_eq!(filters.q, "oslo");
}

#[test]
fn a_free_text_search_is_encoded_so_it_cannot_break_the_query_string() {
    let filters = Filters {
        q: "oslo & bergen?".to_string(),
        ..Default::default()
    };

    assert_eq!(filters.to_query(), "kind=recorded&q=oslo+%26+bergen%3F");
}

#[test]
fn a_url_query_escapes_the_percent_signs_the_router_would_decode() {
    let filters = Filters {
        q: "b&b = 100% fun?".to_string(),
        ..Default::default()
    };
    assert_eq!(filters.to_query(), "kind=recorded&q=b%26b+%3D+100%25+fun%3F");
    assert_eq!(
        filters.to_url_query(),
        "kind=recorded&q=b%2526b+%253D+100%2525+fun%253F"
    );
}

#[test]
fn a_value_is_encoded_and_decoded_back() {
    assert_eq!(encode("a b&c"), "a+b%26c");
    assert_eq!(decode("a+b%26c"), "a b&c");
    assert_eq!(decode(&encode("å 100%")), "å 100%");
    assert_eq!(hex(b'7'), Some(7));
    assert_eq!(hex(b'c'), Some(12));
    assert_eq!(hex(b'F'), Some(15));
    assert_eq!(hex(b'g'), None);
}

#[test]
fn ticking_a_tag_chooses_it_once_and_unticking_drops_it() {
    let mut filters = Filters::default();
    filters.set_tag("alpine", true);
    filters.set_tag("summer", true);
    filters.set_tag("alpine", true);
    assert_eq!(filters.tags, vec!["alpine".to_string(), "summer".to_string()]);
    assert_eq!(filters.to_query(), "kind=recorded&tags=alpine%2Csummer");

    filters.set_tag("alpine", false);
    assert_eq!(filters.tags, vec!["summer".to_string()]);
    assert_eq!(filters.kind, TripKind::Recorded);
}

#[test]
fn a_filter_is_set_exactly_when_the_query_asks_for_more_than_the_tab() {
    let tab_only = Filters {
        kind: TripKind::Planned,
        from: " \t ".to_string(),
        ..Default::default()
    };
    assert_eq!(tab_only.to_query(), format!("kind={}", tab_only.kind.as_str()));
    assert!(!tab_only.any_set());

    let region = Filters {
        kind: TripKind::Planned,
        bbox: "10,59,11,60".to_string(),
        ..Default::default()
    };
    assert_ne!(region.to_query(), format!("kind={}", region.kind.as_str()));
    assert!(region.any_set());
}
