//! Whether the owner is signed in (US-19): what the app decides when it has
//! asked the archive for the session, when the archive refuses a request
//! for want of one, and what the login form does with a sign-in's answer.

use vstd::prelude::*;

use crate::api::ApiError;
use crate::text::owned;

verus! {

/// Where the app stands with the archive.
#[derive(Debug, Clone, PartialEq)]
pub enum Access {
    /// Still asking the archive whether there is a session.
    Resolving,
    /// No session: the login screen, with a notice to show where there is
    /// one.
    SignedOut { notice: Option<String> },
    /// A session: the screens.
    SignedIn,
}

/// What the login screen says when a session ended under the owner.
pub open spec fn session_ended_text() -> Seq<char> {
    "Your session has ended. Sign in again."@
}

/// What asking the archive for the session decides: a session means in; a
/// refusal for want of one (401) means the login screen with nothing to
/// say; any other failure means the login screen saying why, since the
/// archive could not be asked at all.
pub fn after_session_check(answer: Result<(), ApiError>) -> (r: Access)
    ensures
        match answer {
            Ok(()) => r is SignedIn,
            Err(e) => if e.status_view() == Some(401u16) {
                r == Access::SignedOut { notice: None }
            } else {
                r matches Access::SignedOut { notice: Some(n) } && n@ == e.message_view()
            },
        },
{
    match answer {
        Ok(()) => Access::SignedIn,
        Err(err) => {
            if err.is_unauthorized() {
                Access::SignedOut { notice: None }
            } else {
                Access::SignedOut { notice: Some(err.to_string()) }
            }
        },
    }
}

/// The archive refused a request for want of a session (401): a signed-in
/// app goes back to the login screen and says the session ended; an app
/// that was not signed in stays where it is.
pub fn after_refusal(access: Access) -> (r: Access)
    ensures
        access is SignedIn ==> (r matches Access::SignedOut { notice: Some(n) } && n@
            == session_ended_text()),
        !(access is SignedIn) ==> r == access,
{
    match access {
        Access::SignedIn => Access::SignedOut {
            notice: Some(owned("Your session has ended. Sign in again.")),
        },
        other => other,
    }
}

/// The login form: the password typed, whether a sign-in is under way, and
/// the last problem to show.
#[derive(Debug, Clone, PartialEq)]
pub struct LoginForm {
    pub password: String,
    pub signing_in: bool,
    pub error: Option<String>,
}

impl LoginForm {
    /// The form as the login screen opens it, showing `notice` if there is
    /// one.
    pub fn new(notice: Option<String>) -> (r: Self)
        ensures
            r.password@.len() == 0,
            !r.signing_in,
            r.error == notice,
    {
        LoginForm { password: String::new(), signing_in: false, error: notice }
    }

    /// The form was sent: a sign-in is under way.
    pub fn submit(&mut self)
        ensures
            final(self).signing_in,
            final(self).password == old(self).password,
            final(self).error == old(self).error,
    {
        self.signing_in = true;
    }

    /// What the archive answered the sign-in: a session's token is handed
    /// on and the password cleared; a refusal is shown, and the form can be
    /// sent again.
    pub fn answered(&mut self, answer: Result<String, ApiError>) -> (token: Option<String>)
        ensures
            match answer {
                Ok(t) => token == Some(t) && final(self).password@.len() == 0 && final(self).signing_in
                    == old(self).signing_in && final(self).error == old(self).error,
                Err(e) => token is None && !final(self).signing_in && (final(self).error matches Some(
                    m,
                ) && m@ == e.message_view()) && final(self).password == old(self).password,
            },
    {
        match answer {
            Ok(t) => {
                self.password = String::new();
                Some(t)
            },
            Err(e) => {
                self.error = Some(e.to_string());
                self.signing_in = false;
                None
            },
        }
    }
}

} // verus!
