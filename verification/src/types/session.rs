use vstd::prelude::*;

verus! {

/// The `POST /api/session` body (US-19): the one shared password, as typed.
#[derive(Debug, Clone, PartialEq)]
pub struct Login {
    pub password: String,
}

/// What `POST /api/session` answers with (US-19): the token, and when the
/// session stops being accepted as RFC-3339 UTC.
#[derive(Debug, Clone, PartialEq)]
pub struct Session {
    pub token: String,
    pub expires_at: String,
}

/// Who the archive takes a request to be from.
#[derive(Debug, Clone, Copy, PartialEq, Eq, Structural)]
pub enum Principal {
    Owner,
    Anonymous,
}

/// What `GET /api/session` answers with (US-19): who the caller is.
#[derive(Debug, Clone, PartialEq)]
pub struct Identity {
    pub principal: Principal,
}

} // verus!
