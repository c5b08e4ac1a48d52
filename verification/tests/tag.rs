use trip_archive_ui::types::tag::normalize_tag_name;

#[test]
fn normalize_lowercases_and_trims() {
    assert_eq!(normalize_tag_name("  Hiking  ").unwrap(), "hiking");
}

#[test]
fn normalize_is_case_insensitive_for_equal_tags() {
    assert_eq!(
        normalize_tag_name("Hiking").unwrap(),
        normalize_tag_name("HIKING").unwrap()
    );
}

#[test]
fn normalize_rejects_an_empty_string() {
    assert!(normalize_tag_name("").is_err());
}

#[test]
fn normalize_rejects_a_whitespace_only_string() {
    assert!(normalize_tag_name("   ").is_err());
}

#[test]
fn normalize_rejects_an_internal_space() {
    assert!(normalize_tag_name("day trip").is_err());
}

#[test]
fn normalize_rejects_an_internal_tab_or_newline() {
    assert!(normalize_tag_name("day\ttrip").is_err());
    assert!(normalize_tag_name("day\ntrip").is_err());
}

#[test]
fn normalize_rejects_a_comma() {
    assert!(normalize_tag_name("day,trip").is_err());
    assert!(normalize_tag_name(",").is_err());
}

#[test]
fn normalize_accepts_hyphens_and_underscores() {
    assert_eq!(
        normalize_tag_name("multi-day_trip").unwrap(),
        "multi-day_trip"
    );
}

#[test]
fn each_refusal_says_why() {
    assert_eq!(
        normalize_tag_name("  ").unwrap_err(),
        "tag name cannot be empty"
    );
    assert_eq!(
        normalize_tag_name("day trip").unwrap_err(),
        "tag name cannot contain spaces"
    );
    assert_eq!(
        normalize_tag_name("day,trip").unwrap_err(),
        "tag name cannot contain a comma"
    );
}

#[test]
fn names_differing_only_in_ascii_case_normalize_alike() {
    assert_eq!(normalize_tag_name("Day-Trip"), normalize_tag_name("dAY-tRIP"));
    assert_eq!(normalize_tag_name("A B"), normalize_tag_name("a b"));
    assert_eq!(normalize_tag_name("X,Y"), normalize_tag_name("x,y"));
}

#[test]
fn a_normalized_name_normalizes_to_itself() {
    let name = normalize_tag_name("  Alpine-2024 ").unwrap();
    assert_eq!(name, "alpine-2024");
    assert!(!name.contains(','));
    assert!(!name.chars().any(char::is_whitespace));
    assert_eq!(normalize_tag_name(&name), Ok(name.clone()));
}
