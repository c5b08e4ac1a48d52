use trip_archive_ui::api::{
    confirm_url, list_trips_url, lost_session, original_gpx_url, readable_body, refusal_error, share_link,
    staged_url, trip_tag_url, trip_url, unreachable_error, unreadable_error, usable_content_type,
    ApiClient, ApiError, TripEdit,
};

#[test]
fn the_original_gpx_is_downloaded_from_the_archive_that_stored_it() {
    assert_eq!(
        original_gpx_url(&ApiClient::new("http://archive.test"), 7),
        "http://archive.test/api/trips/7/gpx"
    );
}

#[test]
fn only_a_content_type_worth_attaching_is_attached() {
    assert_eq!(usable_content_type(Some("image/jpeg")), Some("image/jpeg"));
    assert_eq!(
        usable_content_type(Some("image/svg+xml")),
        Some("image/svg+xml")
    );
    assert_eq!(usable_content_type(Some("")), None);
    assert_eq!(usable_content_type(Some("image")), None);
    assert_eq!(usable_content_type(Some("image/")), None);
    assert_eq!(usable_content_type(Some("image/jpeg; charset=utf-8")), None);
    assert_eq!(usable_content_type(None), None);
}

#[test]
fn only_a_servers_own_words_reach_the_owner() {
    assert_eq!(
        readable_body("tag names cannot contain spaces", None),
        Some("tag names cannot contain spaces".to_string())
    );
    assert_eq!(readable_body("   ", None), None);
    assert_eq!(readable_body("<!DOCTYPE html><h1>oh no", None), None);
    assert_eq!(
        readable_body(r#"{"error":" Not found "}"#, Some(" Not found ")),
        Some("Not found".to_string())
    );
    assert_eq!(readable_body(r#"{"error":""}"#, Some("")), None);
}

#[test]
fn urls_are_made_on_the_archive_the_client_reaches() {
    let archive = ApiClient::new("http://archive.test");
    assert_eq!(list_trips_url(&archive, ""), "http://archive.test/api/trips");
    assert_eq!(
        list_trips_url(&archive, "kind=planned"),
        "http://archive.test/api/trips?kind=planned"
    );
    assert_eq!(trip_url(&archive, 42), "http://archive.test/api/trips/42");
    assert_eq!(
        trip_tag_url(&archive, 42, 3),
        "http://archive.test/api/trips/42/tags/3"
    );
    assert_eq!(
        staged_url(&archive, 7),
        "http://archive.test/api/import/staged/7"
    );
    assert_eq!(
        confirm_url(&archive, 7),
        "http://archive.test/api/import/staged/7/confirm"
    );
    assert_eq!(
        share_link(&archive, "abc"),
        "http://archive.test/app/s/abc"
    );
}

#[test]
fn the_client_never_prints_its_token() {
    let archive = ApiClient::new("http://archive.test").with_token("secret-token");
    let printed = archive.debug_string();
    assert!(!printed.contains("secret-token"), "{printed}");
    assert_eq!(
        printed,
        "ApiClient { base_url: \"http://archive.test\", signed_in: true }"
    );
    assert_eq!(archive.token(), Some("secret-token"));
    assert_eq!(archive.base_url(), "http://archive.test");
}

#[test]
fn a_refusal_is_the_archives_words_or_the_request_and_its_status() {
    let worded = refusal_error(
        "http://archive.test/api/trips/9",
        404,
        "404 Not Found",
        Some("no such trip".to_string()),
    );
    assert_eq!(worded.to_string(), "no such trip");
    assert!(worded.is_not_found());

    let bare = refusal_error("http://archive.test/api/trips", 502, "502 Bad Gateway", None);
    assert_eq!(
        bare.to_string(),
        "http://archive.test/api/trips returned 502 Bad Gateway"
    );
    assert_eq!(bare.status(), Some(502));
    assert!(!bare.is_not_found());
}

#[test]
fn each_status_is_told_apart() {
    assert!(ApiError::from_status(401, "x").is_unauthorized());
    assert!(ApiError::from_status(409, "x").is_conflict());
    assert!(!ApiError::new("x").is_conflict());
    assert_eq!(
        unreachable_error("http://a/api", "refused").to_string(),
        "http://a/api unreachable: refused"
    );
    assert_eq!(
        unreadable_error("http://a/api", "eof").to_string(),
        "http://a/api returned unreadable JSON: eof"
    );
}

#[test]
fn an_edit_of_nothing_is_worth_no_request() {
    assert!(TripEdit::default().is_empty());
    let edit = TripEdit {
        name: Some("Renamed".to_string()),
        ..Default::default()
    };
    assert!(!edit.is_empty());
}

#[test]
fn only_a_refusal_means_the_session_is_lost() {
    assert!(lost_session(401));
    assert!(!lost_session(404));
    assert!(!lost_session(409));
    assert!(!lost_session(200));
}
