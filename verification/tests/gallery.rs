use trip_archive_ui::gallery::{failure_for_trip, gallery_shows, photos_for_trip, GalleryShows};

#[test]
fn a_gallery_with_photos_shows_them() {
    assert_eq!(gallery_shows(Some(2), false), GalleryShows::Photos);
}

#[test]
fn a_trip_with_no_photos_says_so() {
    assert_eq!(gallery_shows(Some(0), false), GalleryShows::NoPhotosYet);
}

#[test]
fn a_gallery_that_could_not_be_read_says_so_instead_of_claiming_emptiness() {
    assert_eq!(gallery_shows(Some(0), true), GalleryShows::Nothing);
    assert_eq!(gallery_shows(None, true), GalleryShows::Nothing);
}

#[test]
fn a_gallery_that_failed_to_refresh_keeps_what_is_already_on_screen() {
    assert_eq!(gallery_shows(Some(1), true), GalleryShows::Photos);
}

#[test]
fn a_gallery_that_has_not_been_read_yet_claims_nothing_about_the_trip() {
    assert_eq!(gallery_shows(None, false), GalleryShows::Loading);
}

#[test]
fn photos_and_failures_belong_to_the_trip_they_were_read_for() {
    let photos = vec!["a.jpg", "b.jpg"];
    assert_eq!(photos_for_trip(Some(4), &photos, 4), Some(&photos));
    assert_eq!(photos_for_trip(Some(3), &photos, 4), None);
    assert_eq!(photos_for_trip::<&str>(None, &photos, 4), None);
    assert_eq!(failure_for_trip(Some((4, "unreachable")), 4), Some("unreachable"));
    assert_eq!(failure_for_trip(Some((3, "unreachable")), 4), None);
    assert_eq!(failure_for_trip(None, 4), None);
}
