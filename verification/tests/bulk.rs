use trip_archive_ui::bulk::{confirmation, stage, ActivityPanel, Staged, TagPanel};
use trip_archive_ui::types::activity_type::ActivityType;
use trip_archive_ui::types::tag::Tag;

fn known_tags() -> Vec<Tag> {
    vec![Tag {
        id: 1,
        name: "alpine".to_string(),
    }]
}

#[test]
fn an_existing_tag_stages_without_confirmation() {
    assert_eq!(
        stage("Alpine", &known_tags(), &[]),
        Staged::Known("alpine".to_string())
    );
}

#[test]
fn an_unknown_tag_asks_before_creating_it() {
    assert_eq!(
        stage("summer", &known_tags(), &[]),
        Staged::New("summer".to_string())
    );
}

#[test]
fn a_tag_already_staged_is_not_staged_twice() {
    assert_eq!(
        stage("alpine", &known_tags(), &["alpine".to_string()]),
        Staged::Duplicate
    );
}

#[test]
fn an_invalid_tag_name_is_rejected_before_it_is_sent() {
    assert!(matches!(
        stage("day trip", &known_tags(), &[]),
        Staged::Invalid(_)
    ));
    assert!(matches!(
        stage("day,trip", &known_tags(), &[]),
        Staged::Invalid(_)
    ));
    assert!(matches!(
        stage("   ", &known_tags(), &[]),
        Staged::Invalid(_)
    ));
}

#[test]
fn the_panel_stages_known_tags_at_once_and_asks_about_new_ones() {
    let mut panel = TagPanel::new(known_tags());
    assert!(!panel.can_apply());

    panel.type_text("Alpine");
    panel.add_typed();
    assert_eq!(panel.staged, vec!["alpine".to_string()]);
    assert_eq!(panel.typed, "");
    assert!(panel.can_apply());

    panel.type_text("alpine");
    panel.add_typed();
    assert_eq!(panel.staged, vec!["alpine".to_string()]);

    panel.type_text("summer");
    panel.add_typed();
    assert_eq!(panel.awaiting.as_deref(), Some("summer"));
    assert_eq!(panel.staged, vec!["alpine".to_string()]);

    panel.confirm_create();
    assert_eq!(panel.staged, vec!["alpine".to_string(), "summer".to_string()]);
    assert_eq!(panel.awaiting, None);

    panel.type_text("day trip");
    panel.add_typed();
    assert_eq!(
        panel.message.as_deref(),
        Some("tag name cannot contain spaces")
    );

    panel.remove_chip("alpine");
    assert_eq!(panel.staged, vec!["summer".to_string()]);

    panel.refused("no such trip");
    assert_eq!(panel.message.as_deref(), Some("no such trip"));
    assert_eq!(panel.staged, vec!["summer".to_string()]);

    panel.applied();
    assert!(panel.staged.is_empty());
    assert_eq!(panel.message, None);
}

#[test]
fn a_new_name_can_be_declined() {
    let mut panel = TagPanel::new(known_tags());
    panel.type_text("winter");
    panel.add_typed();
    panel.cancel_create();
    assert_eq!(panel.awaiting, None);
    assert!(panel.staged.is_empty());
    assert_eq!(panel.typed, "winter");
}

#[test]
fn the_confirmation_says_how_many_trips_it_will_change_and_to_what() {
    assert_eq!(
        confirmation(3, ActivityType::SkiTouring),
        "Set the activity of 3 trips to Ski touring? This replaces the activity they have now."
    );
}

#[test]
fn one_trip_is_one_trip() {
    assert!(confirmation(1, ActivityType::Hiking).contains("of 1 trip to"));
}

#[test]
fn clearing_the_activity_is_said_in_words() {
    assert!(
        confirmation(2, ActivityType::Unknown).contains("to unspecified?"),
        "{}",
        confirmation(2, ActivityType::Unknown)
    );
}

#[test]
fn nothing_is_applied_before_something_is_chosen() {
    let mut panel = ActivityPanel::new();
    panel.ask();
    assert!(!panel.confirming);
    assert_eq!(panel.question(2), None);

    panel.pick("cycling");
    assert_eq!(panel.chosen, Some(ActivityType::Cycling));
    panel.ask();
    assert_eq!(
        panel.question(2),
        Some((
            "Set the activity of 2 trips to Cycling? This replaces the activity they have now."
                .to_string(),
            ActivityType::Cycling
        ))
    );

    panel.refused("the archive is unreachable");
    assert!(!panel.confirming);
    assert_eq!(panel.chosen, Some(ActivityType::Cycling));
    assert_eq!(panel.message.as_deref(), Some("the archive is unreachable"));

    panel.pick("");
    assert_eq!(panel.chosen, None);

    panel.pick("hiking");
    panel.ask();
    panel.cancel();
    assert!(!panel.confirming);
    panel.ask();
    panel.applied();
    assert_eq!(panel, ActivityPanel::new());
}

#[test]
fn a_waiting_question_outlasts_an_apply() {
    let mut panel = TagPanel::new(known_tags());
    panel.type_text("winter");
    panel.add_typed();
    assert_eq!(panel.awaiting.as_deref(), Some("winter"));
    panel.applied();
    assert!(panel.staged.is_empty());
    assert_eq!(panel.awaiting.as_deref(), Some("winter"));
}
