use trip_archive_ui::types::share::{CreatedShare, ShareExpiry};

#[test]
fn us53_a_created_share_never_prints_its_token() {
    let printed = CreatedShare {
        token: "secret-token".to_string(),
        expires_at: None,
    }
    .debug_string();
    assert!(!printed.contains("secret-token"), "got {printed}");
}

#[test]
fn a_created_share_prints_when_it_expires() {
    let printed = CreatedShare {
        token: "secret-token".to_string(),
        expires_at: Some("2026-08-11T00:00:00Z".to_string()),
    }
    .debug_string();
    assert_eq!(
        printed,
        "CreatedShare { token: \"<redacted>\", expires_at: Some(\"2026-08-11T00:00:00Z\") }"
    );
}

#[test]
fn an_expiry_reads_back_from_its_wire_value() {
    for expiry in ShareExpiry::ALL {
        assert_eq!(ShareExpiry::parse(expiry.as_str()), Some(expiry));
    }
    assert_eq!(ShareExpiry::parse("forever"), None);
    assert_eq!(ShareExpiry::default(), ShareExpiry::Never);
    assert_eq!(ShareExpiry::OneMonth.label(), "In 1 month");
}
