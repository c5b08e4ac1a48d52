use trip_archive_ui::types::komoot_privacy::KomootPrivacy;

#[test]
fn default_privacy_is_unknown() {
    assert_eq!(KomootPrivacy::default(), KomootPrivacy::Unknown);
}

#[test]
fn komoot_status_strings_map_to_their_variants() {
    assert_eq!(
        KomootPrivacy::from_komoot_status("private"),
        KomootPrivacy::Private
    );
    assert_eq!(
        KomootPrivacy::from_komoot_status("public"),
        KomootPrivacy::Public
    );
}

#[test]
fn an_unrecognized_komoot_status_maps_to_unknown() {
    assert_eq!(
        KomootPrivacy::from_komoot_status("friends_only"),
        KomootPrivacy::Unknown
    );
    assert_eq!(
        KomootPrivacy::from_komoot_status(""),
        KomootPrivacy::Unknown
    );
}

#[test]
fn komoot_status_returns_a_pushable_string_only_for_known_variants() {
    assert_eq!(KomootPrivacy::Private.komoot_status(), Some("private"));
    assert_eq!(KomootPrivacy::Public.komoot_status(), Some("public"));
    assert_eq!(KomootPrivacy::Unknown.komoot_status(), None);
}

#[test]
fn display_round_trips_through_from_str_for_every_variant() {
    for variant in KomootPrivacy::ALL {
        let rendered = variant.to_string();
        assert_eq!(rendered.parse::<KomootPrivacy>().unwrap(), variant);
    }
}

#[test]
fn from_str_rejects_an_unrecognized_value() {
    assert!("friends_only".parse::<KomootPrivacy>().is_err());
}

#[test]
fn selectable_lists_every_variant_except_unknown_exactly_once() {
    for privacy in KomootPrivacy::ALL {
        match privacy {
            KomootPrivacy::Unknown => assert!(!KomootPrivacy::SELECTABLE.contains(&privacy)),
            KomootPrivacy::Private | KomootPrivacy::Public => {
                assert_eq!(
                    KomootPrivacy::SELECTABLE
                        .iter()
                        .filter(|&&p| p == privacy)
                        .count(),
                    1
                );
            }
        }
    }
    assert_eq!(
        KomootPrivacy::SELECTABLE.len(),
        KomootPrivacy::ALL.len() - 1
    );
}

#[test]
fn labels_are_what_the_owner_reads() {
    assert_eq!(KomootPrivacy::Private.label(), "Private");
    assert_eq!(KomootPrivacy::Public.label(), "Public");
    assert_eq!(KomootPrivacy::Unknown.label(), "Unknown");
    assert_eq!(KomootPrivacy::Public.as_str(), "public");
}
