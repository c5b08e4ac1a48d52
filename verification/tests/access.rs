use trip_archive_ui::access::{after_refusal, after_session_check, Access, LoginForm};
use trip_archive_ui::api::ApiError;

#[test]
fn a_session_lets_the_owner_in() {
    assert_eq!(after_session_check(Ok(())), Access::SignedIn);
}

#[test]
fn no_session_is_the_login_screen_with_nothing_to_say() {
    let refused = ApiError::from_status(401, "sign in first");
    assert_eq!(
        after_session_check(Err(refused)),
        Access::SignedOut { notice: None }
    );
}

#[test]
fn an_archive_that_could_not_be_asked_says_so_before_anything_is_typed() {
    let down = ApiError::new("http://archive.test/api/session unreachable: refused");
    assert_eq!(
        after_session_check(Err(down)),
        Access::SignedOut {
            notice: Some("http://archive.test/api/session unreachable: refused".to_string())
        }
    );
}

#[test]
fn a_session_that_ends_under_the_owner_says_so() {
    assert_eq!(
        after_refusal(Access::SignedIn),
        Access::SignedOut {
            notice: Some("Your session has ended. Sign in again.".to_string())
        }
    );
    assert_eq!(after_refusal(Access::Resolving), Access::Resolving);
    assert_eq!(
        after_refusal(Access::SignedOut { notice: None }),
        Access::SignedOut { notice: None }
    );
}

#[test]
fn nothing_is_being_signed_in_before_the_owner_asks() {
    let mut form = LoginForm::new(None);
    assert!(!form.signing_in);
    form.password = "hunter2".to_string();
    form.submit();
    assert!(form.signing_in);

    let refused = ApiError::from_status(401, "wrong password");
    assert_eq!(form.answered(Err(refused)), None);
    assert!(!form.signing_in);
    assert_eq!(form.error.as_deref(), Some("wrong password"));
    assert_eq!(form.password, "hunter2");

    form.submit();
    assert_eq!(form.answered(Ok("token".to_string())).as_deref(), Some("token"));
    assert_eq!(form.password, "");
}

#[test]
fn a_notice_is_shown_before_anything_is_typed() {
    let form = LoginForm::new(Some("the archive is unreachable".to_string()));
    assert_eq!(form.error.as_deref(), Some("the archive is unreachable"));
}
