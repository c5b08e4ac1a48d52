use trip_archive_ui::format::{
    clock, date, day, day_line, duration, instant, local_reading, or_dash, readable, within_years, page_place, privacy, reading_line,
    trip_counts, utc_offset, LocalReading,
};
use trip_archive_ui::types::komoot_privacy::KomootPrivacy;
use trip_archive_ui::types::trip_kind::TripKind;

#[test]
fn missing_values_render_as_a_dash() {
    assert_eq!(duration(None), "—");
    assert_eq!(date(None), "—");
}

#[test]
fn durations_are_zero_padded_hours_minutes_seconds() {
    assert_eq!(duration(Some(3_725)), "01:02:05");
    assert_eq!(duration(Some(0)), "00:00:00");
    assert_eq!(duration(Some(90_000)), "25:00:00");
}

#[test]
fn a_privacy_is_shown_by_its_label_and_an_absent_one_as_a_dash() {
    assert_eq!(privacy(Some(KomootPrivacy::Public)), "Public");
    assert_eq!(privacy(Some(KomootPrivacy::Private)), "Private");
    assert_eq!(privacy(Some(KomootPrivacy::Unknown)), "Unknown");
    assert_eq!(privacy(None), "—");
}

#[test]
fn a_stored_value_is_shown_unchanged_and_an_absent_one_as_a_dash() {
    assert_eq!(
        or_dash(Some("2026-07-11T09:30:00Z")),
        "2026-07-11T09:30:00Z"
    );
    assert_eq!(or_dash(Some("Europe/Oslo")), "Europe/Oslo");
    assert_eq!(or_dash(None), "—");
}

#[test]
fn an_unnarrowed_list_reports_one_number() {
    assert_eq!(
        trip_counts(312, 312, TripKind::Recorded),
        "312 recorded trips"
    );
    assert_eq!(trip_counts(7, 7, TripKind::Planned), "7 planned trips");
}

#[test]
fn a_narrowed_list_says_what_it_narrowed_from() {
    assert_eq!(
        trip_counts(247, 312, TripKind::Recorded),
        "247 of 312 recorded trips"
    );
    assert_eq!(
        trip_counts(0, 312, TripKind::Recorded),
        "0 of 312 recorded trips"
    );
}

#[test]
fn the_owners_place_is_the_rows_shown_counted_from_one() {
    assert_eq!(page_place(50..100), "showing 51–100");
    assert_eq!(page_place(200..247), "showing 201–247");
}

#[test]
fn the_noun_agrees_with_the_number_beside_it() {
    assert_eq!(trip_counts(1, 1, TripKind::Recorded), "1 recorded trip");
    assert_eq!(
        trip_counts(1, 312, TripKind::Recorded),
        "1 of 312 recorded trips"
    );
}

fn at(text: &str) -> i64 {
    instant(text).expect("a stored instant")
}

#[test]
fn a_time_is_read_in_its_own_offset_and_says_which() {
    assert_eq!(
        clock(at("2026-07-11T12:32:00Z"), Some(7200), false),
        "14:32 (+02:00)"
    );
    assert_eq!(
        clock(at("2026-07-11T12:32:00Z"), Some(-4 * 3600), false),
        "08:32 (-04:00)"
    );
    assert_eq!(
        clock(at("2026-07-11T12:02:00Z"), Some(5 * 3600 + 30 * 60), false),
        "17:32 (+05:30)"
    );
}

#[test]
fn a_time_with_its_date_is_dated_where_it_was_read() {
    assert_eq!(
        clock(at("2026-07-10T23:30:00Z"), Some(7200), true),
        "11 Jul 01:30 (+02:00)"
    );
}

#[test]
fn a_time_whose_offset_is_unknown_says_it_is_utc() {
    assert_eq!(
        clock(at("2026-07-11T12:32:00Z"), None, false),
        "12:32 UTC"
    );
    assert_eq!(
        clock(at("2026-07-11T12:32:00Z"), None, true),
        "11 Jul 12:32 UTC"
    );
}

#[test]
fn a_stored_instant_is_read_and_an_empty_one_is_none() {
    let expected = time::Date::from_calendar_date(2026, time::Month::July, 11)
        .unwrap()
        .with_hms(12, 32, 0)
        .unwrap()
        .assume_utc();
    assert_eq!(instant("2026-07-11T12:32:00Z"), Some(expected.unix_timestamp()));
    assert_eq!(instant(""), None);
}

#[test]
fn a_date_is_shown_as_the_owner_reads_one() {
    assert_eq!(day("2026-07-11"), "11 Jul 2026");
    assert_eq!(day("sometime"), "sometime");
}

#[test]
fn a_timestamp_is_shown_as_its_date() {
    assert_eq!(date(Some("2026-07-11T09:30:00Z")), "2026-07-11");
}

#[test]
fn an_unexpected_timestamp_is_shown_unchanged() {
    assert_eq!(date(Some("sometime")), "sometime");
}

#[test]
fn text_with_a_t_that_is_no_timestamp_is_shown_whole() {
    assert_eq!(date(Some("Tuesday")), "Tuesday");
    assert_eq!(date(Some("2026-07-11")), "2026-07-11");
    assert_eq!(date(Some("2026-7-11T09:30:00Z")), "2026-7-11T09:30:00Z");
    assert_eq!(date(None), "—");
}

#[test]
fn an_instant_is_the_same_whatever_offset_it_was_written_in() {
    assert_eq!(instant("2026-07-11T14:32:00+02:00"), Some(1_783_773_120));
    assert_eq!(instant("2026-07-11T12:32:00Z"), Some(1_783_773_120));
    assert_eq!(instant("1970-01-01T00:00:00Z"), Some(0));
    assert_eq!(instant("sometime"), None);
}

#[test]
fn the_last_second_time_holds_is_read_and_one_past_it_is_not() {
    assert_eq!(clock(253_402_300_799, None, true), "31 Dec 23:59 UTC");
    assert!(within_years(253_402_300_799, None));
    assert!(!within_years(253_402_300_799, Some(3600)));
    assert!(!within_years(-377_705_116_801, None));
    assert!(readable("2026-07-11T12:32:00Z", Some(7200)));
    assert!(readable("sometime", None));
    assert!(!readable("9999-12-31T23:30:00Z", Some(3600)));
    assert_eq!(
        local_reading(-1, None),
        LocalReading { year: 1969, month: 12, day: 31, hour: 23, minute: 59 }
    );
}

#[test]
fn an_offset_always_shows_its_sign() {
    assert_eq!(utc_offset(0), "+00:00");
    assert_eq!(utc_offset(7200), "+02:00");
    assert_eq!(utc_offset(-4 * 3600), "-04:00");
    assert_eq!(utc_offset(-(9 * 3600 + 30 * 60)), "-09:30");
}

#[test]
fn a_reading_is_written_from_its_parts() {
    let reading = LocalReading {
        year: 2026,
        month: 12,
        day: 3,
        hour: 7,
        minute: 5,
    };
    assert_eq!(reading_line(reading, Some(3600), true), "3 Dec 07:05 (+01:00)");
    assert_eq!(reading_line(reading, None, false), "07:05 UTC");
    assert_eq!(day_line(2026, 1, 31), "31 Jan 2026");
}
