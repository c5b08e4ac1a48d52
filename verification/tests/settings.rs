use trip_archive_ui::settings::{base_url_to_use, connect, needs_configuration, normalize, Connect};

#[test]
fn a_bare_host_and_port_is_assumed_to_be_http() {
    assert_eq!(normalize("192.168.1.20:3000"), "http://192.168.1.20:3000");
}

#[test]
fn an_explicit_scheme_is_kept() {
    assert_eq!(
        normalize("https://trips.example.com"),
        "https://trips.example.com"
    );
}

#[test]
fn surrounding_space_and_a_trailing_slash_are_dropped() {
    assert_eq!(
        normalize("  http://10.0.0.5:3000/  "),
        "http://10.0.0.5:3000"
    );
}

#[test]
fn nothing_typed_stays_nothing() {
    assert_eq!(normalize("   "), "");
}

#[test]
fn the_web_build_never_demands_configuration() {
    assert!(needs_configuration("", false));
    assert!(!needs_configuration("", true));
    assert!(!needs_configuration("http://10.0.0.5:3000", false));
}

#[test]
fn every_trailing_slash_goes() {
    assert_eq!(normalize("trips.local///"), "http://trips.local");
}

#[test]
fn connecting_checks_the_tidied_address_or_asks_for_one() {
    assert_eq!(
        connect(" 10.0.0.5:3000/ "),
        Connect::Check("http://10.0.0.5:3000".to_string())
    );
    assert_eq!(
        connect(""),
        Connect::Ask("Enter the address your Trip Archive is reachable at.".to_string())
    );
}

#[test]
fn a_stored_address_wins_and_the_web_falls_back_to_its_origin() {
    assert_eq!(base_url_to_use("http://10.0.0.5:3000", None), "http://10.0.0.5:3000");
    assert_eq!(
        base_url_to_use("  ", Some("https://trips.example.com")),
        "https://trips.example.com"
    );
    assert_eq!(base_url_to_use("", None), "");
}
