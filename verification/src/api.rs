//! What the JSON API client decides (ADR-0008): where each call goes, what a
//! refusal reads as, which content types are worth sending, and what counts
//! as an edit. The requests themselves are sent by the program around this
//! library.

use vstd::prelude::*;

use crate::text::{
    chars_of, contains_char, debug_quoted, debug_string, decimal, find_char, find_char_index,
    owned, push_str, signed_decimal, signed_decimal_string, starts_with, sub_chars, trim_chars,
    trimmed,
};

verus! {

// ── The archive and its addresses ───────────────────────────────────────

/// Where the archive is, and what proves who is asking (US-19): the base URL
/// (the page's own origin on the web, the configured address on Android),
/// and the session token where there is no cookie store to carry it.
#[derive(Clone, Default, PartialEq)]
pub struct ApiClient {
    base_url: String,
    token: Option<String>,
}

impl ApiClient {
    pub closed spec fn base_url_view(&self) -> Seq<char> {
        self.base_url@
    }

    pub closed spec fn token_view(&self) -> Option<Seq<char>> {
        match &self.token {
            Some(t) => Some(t@),
            None => None,
        }
    }

    pub fn new(base_url: &str) -> (r: Self)
        ensures
            r.base_url_view() == base_url@,
            r.token_view() is None,
    {
        ApiClient { base_url: owned(base_url), token: None }
    }

    /// The same archive, reached with a token in hand.
    pub fn with_token(self, token: &str) -> (r: Self)
        ensures
            r.base_url_view() == self.base_url_view(),
            r.token_view() == Some(token@),
    {
        ApiClient { token: Some(owned(token)), ..self }
    }

    /// The archive's origin, for what is handed to the browser as a URL
    /// rather than fetched.
    pub fn base_url(&self) -> (r: &str)
        ensures
            r@ == self.base_url_view(),
    {
        self.base_url.as_str()
    }

    /// The token every request carries as `Authorization: Bearer`, where
    /// this client holds one.
    pub fn token(&self) -> (r: Option<&str>)
        ensures
            match (r, self.token_view()) {
                (Some(a), Some(b)) => a@ == b,
                (None, None) => true,
                _ => false,
            },
    {
        match &self.token {
            Some(t) => Some(t.as_str()),
            None => None,
        }
    }

    /// The token this client carries, for a test that builds a second client
    /// against the same session.
    pub fn token_for_test(&self) -> (r: Option<String>)
        ensures
            match (r, self.token_view()) {
                (Some(a), Some(b)) => a@ == b,
                (None, None) => true,
                _ => false,
            },
    {
        match &self.token {
            Some(t) => Some(owned(t.as_str())),
            None => None,
        }
    }

    /// `path` on this archive.
    pub fn url(&self, path: &str) -> (r: String)
        ensures
            r@ == self.base_url_view() + path@,
    {
        let mut r = owned(self.base_url.as_str());
        push_str(&mut r, path);
        r
    }

    /// The client as a debug line: the token is redacted, whether one is
    /// held is the part worth seeing.
    pub fn debug_string(&self) -> (r: String)
        ensures
            r@ == "ApiClient { base_url: "@ + debug_quoted(self.base_url_view()) + ", signed_in: "@
                + (if self.token_view() is Some {
                "true"@
            } else {
                "false"@
            }) + " }"@,
    {
        let mut r = owned("ApiClient { base_url: ");
        let quoted = debug_string(self.base_url.as_str());
        push_str(&mut r, quoted.as_str());
        push_str(&mut r, ", signed_in: ");
        if self.token.is_some() {
            push_str(&mut r, "true");
        } else {
            push_str(&mut r, "false");
        }
        push_str(&mut r, " }");
        r
    }
}

/// `base` followed by `path` and an id.
fn url_with_id(archive: &ApiClient, path: &str, id: i64, tail: &str) -> (r: String)
    ensures
        r@ == archive.base_url_view() + path@ + signed_decimal(id as int) + tail@,
{
    let mut r = archive.url(path);
    let n = signed_decimal_string(id);
    push_str(&mut r, n.as_str());
    push_str(&mut r, tail);
    r
}

/// `GET /api/trips`, filtered by `query` (`Filters::to_query`'s output,
/// without a leading `?`; empty means the unfiltered list).
pub fn list_trips_url(archive: &ApiClient, query: &str) -> (r: String)
    ensures
        r@ == archive.base_url_view() + "/api/trips"@ + (if query@.len() == 0 {
            Seq::empty()
        } else {
            "?"@
        }) + query@,
{
    let mut r = archive.url("/api/trips");
    let ghost base = r@;
    if !query.is_empty() {
        push_str(&mut r, "?");
    }
    assert(r@ == base + (if query@.len() == 0 {
        Seq::empty()
    } else {
        "?"@
    }));
    push_str(&mut r, query);
    r
}

/// `/api/trips/:id`: one trip, to read, edit or delete.
pub fn trip_url(archive: &ApiClient, id: i64) -> (r: String)
    ensures
        r@ == archive.base_url_view() + "/api/trips/"@ + signed_decimal(id as int) + ""@,
{
    url_with_id(archive, "/api/trips/", id, "")
}

/// `/api/trips/:id/track.geojson`: the track geometry.
pub fn track_url(archive: &ApiClient, id: i64) -> (r: String)
    ensures
        r@ == archive.base_url_view() + "/api/trips/"@ + signed_decimal(id as int)
            + "/track.geojson"@,
{
    url_with_id(archive, "/api/trips/", id, "/track.geojson")
}

/// `/api/trips/:id/photos`: the trip's photos, to list or add to.
pub fn photos_url(archive: &ApiClient, id: i64) -> (r: String)
    ensures
        r@ == archive.base_url_view() + "/api/trips/"@ + signed_decimal(id as int) + "/photos"@,
{
    url_with_id(archive, "/api/trips/", id, "/photos")
}

/// `/api/trips/:id/tags`: the tags on one trip.
pub fn trip_tags_url(archive: &ApiClient, id: i64) -> (r: String)
    ensures
        r@ == archive.base_url_view() + "/api/trips/"@ + signed_decimal(id as int) + "/tags"@,
{
    url_with_id(archive, "/api/trips/", id, "/tags")
}

/// `/api/trips/:id/tags/:tag_id`: one tag on one trip.
pub fn trip_tag_url(archive: &ApiClient, id: i64, tag_id: i64) -> (r: String)
    ensures
        r@ == archive.base_url_view() + "/api/trips/"@ + signed_decimal(id as int) + "/tags/"@
            + signed_decimal(tag_id as int),
{
    let mut r = url_with_id(archive, "/api/trips/", id, "/tags/");
    let n = signed_decimal_string(tag_id);
    push_str(&mut r, n.as_str());
    r
}

/// `/api/import/staged/:id`: a parked parse, to cancel.
pub fn staged_url(archive: &ApiClient, staging_id: i64) -> (r: String)
    ensures
        r@ == archive.base_url_view() + "/api/import/staged/"@ + signed_decimal(staging_id as int)
            + ""@,
{
    url_with_id(archive, "/api/import/staged/", staging_id, "")
}

/// `/api/import/staged/:id/confirm`: a parked parse, to confirm.
pub fn confirm_url(archive: &ApiClient, staging_id: i64) -> (r: String)
    ensures
        r@ == archive.base_url_view() + "/api/import/staged/"@ + signed_decimal(staging_id as int)
            + "/confirm"@,
{
    url_with_id(archive, "/api/import/staged/", staging_id, "/confirm")
}

/// `/api/shares/:id`: one of the owner's shares, to stop.
pub fn share_url(archive: &ApiClient, id: i64) -> (r: String)
    ensures
        r@ == archive.base_url_view() + "/api/shares/"@ + signed_decimal(id as int) + ""@,
{
    url_with_id(archive, "/api/shares/", id, "")
}

/// The address the original uploaded GPX is downloaded from (US-21) — a
/// plain link the browser saves, not a fetch.
pub fn original_gpx_url(archive: &ApiClient, id: i64) -> (r: String)
    ensures
        r@ == archive.base_url_view() + "/api/trips/"@ + signed_decimal(id as int) + "/gpx"@,
{
    url_with_id(archive, "/api/trips/", id, "/gpx")
}

/// The link a share's token opens, on the archive `archive` reaches.
pub fn share_link(archive: &ApiClient, token: &str) -> (r: String)
    ensures
        r@ == archive.base_url_view() + "/app/s/"@ + token@,
{
    let mut r = archive.url("/app/s/");
    push_str(&mut r, token);
    r
}

// ── Failures ────────────────────────────────────────────────────────────

/// Calls `reqwest::StatusCode::NOT_FOUND.as_u16()`, the code 404.
#[verifier::external_body]
fn not_found_code() -> (r: u16)
    ensures
        r == 404,
{
    reqwest::StatusCode::NOT_FOUND.as_u16()
}

/// Calls `reqwest::StatusCode::UNAUTHORIZED.as_u16()`, the code 401.
#[verifier::external_body]
fn unauthorized_code() -> (r: u16)
    ensures
        r == 401,
{
    reqwest::StatusCode::UNAUTHORIZED.as_u16()
}

/// Calls `reqwest::StatusCode::CONFLICT.as_u16()`, the code 409.
#[verifier::external_body]
fn conflict_code() -> (r: u16)
    ensures
        r == 409,
{
    reqwest::StatusCode::CONFLICT.as_u16()
}

/// A failed API call, already reduced to what the UI shows: the message,
/// and the status the archive answered with where it answered at all.
#[derive(Clone, Debug, PartialEq)]
pub struct ApiError {
    message: String,
    status: Option<u16>,
}

impl ApiError {
    pub closed spec fn message_view(&self) -> Seq<char> {
        self.message@
    }

    pub closed spec fn status_view(&self) -> Option<u16> {
        self.status
    }

    /// A failure with no status behind it.
    pub fn new(message: &str) -> (r: Self)
        ensures
            r.message_view() == message@,
            r.status_view() is None,
    {
        ApiError { message: owned(message), status: None }
    }

    /// A failure the archive answered with, keeping the status for the few
    /// screens that read it.
    pub fn from_status(status: u16, message: &str) -> (r: Self)
        ensures
            r.message_view() == message@,
            r.status_view() == Some(status),
    {
        ApiError { message: owned(message), status: Some(status) }
    }

    /// The status, where the archive answered.
    pub fn status(&self) -> (r: Option<u16>)
        ensures
            r == self.status_view(),
    {
        self.status
    }

    /// What the owner reads.
    pub fn to_string(&self) -> (r: String)
        ensures
            r@ == self.message_view(),
    {
        owned(self.message.as_str())
    }

    /// Whether the archive answered "no such thing" (404).
    pub fn is_not_found(&self) -> (r: bool)
        ensures
            r == (self.status_view() == Some(404u16)),
    {
        match self.status {
            Some(code) => code == not_found_code(),
            None => false,
        }
    }

    /// Whether the archive refused for want of a session (401, US-19).
    pub fn is_unauthorized(&self) -> (r: bool)
        ensures
            r == (self.status_view() == Some(401u16)),
    {
        match self.status {
            Some(code) => code == unauthorized_code(),
            None => false,
        }
    }

    /// Whether the archive answered "not now" (409): a sync is already
    /// running (US-26).
    pub fn is_conflict(&self) -> (r: bool)
        ensures
            r == (self.status_view() == Some(409u16)),
    {
        match self.status {
            Some(code) => code == conflict_code(),
            None => false,
        }
    }
}

/// What a refusal's body says to the owner, given the body and — where the
/// trimmed body reads as the archive's JSON `ErrorResponse` — its `error`
/// field: that field trimmed, unless blank; otherwise the trimmed body taken
/// verbatim if it reads like a sentence, i.e. is not empty and does not
/// start with `<` (an HTML error page belongs in no error line).
pub open spec fn readable_text(body: Seq<char>, error_field: Option<Seq<char>>) -> Option<
    Seq<char>,
> {
    match error_field {
        Some(e) => if trimmed(e).len() == 0 {
            None
        } else {
            Some(trimmed(e))
        },
        None => if trimmed(body).len() == 0 || trimmed(body)[0] == '<' {
            None
        } else {
            Some(trimmed(body))
        },
    }
}

/// The archive's own words, where it answered with words. `error_field` is
/// the `error` of the trimmed body read as an `ErrorResponse`, when it reads
/// as one.
pub fn readable_body(body: &str, error_field: Option<&str>) -> (r: Option<String>)
    ensures
        match (r, readable_text(
            body@,
            match error_field {
                Some(e) => Some(e@),
                None => None,
            },
        )) {
            (Some(a), Some(b)) => a@ == b,
            (None, None) => true,
            _ => false,
        },
{
    match error_field {
        Some(e) => {
            let cs = chars_of(e);
            let t = trim_chars(cs.as_slice());
            if t.len() == 0 {
                None
            } else {
                Some(crate::text::string_of(t.as_slice()))
            }
        },
        None => {
            let cs = chars_of(body);
            let t = trim_chars(cs.as_slice());
            if t.len() == 0 || t[0] == '<' {
                None
            } else {
                Some(crate::text::string_of(t.as_slice()))
            }
        },
    }
}

/// The error a refusal becomes: the archive's own words where it wrote any,
/// and otherwise the request named with the status it got, as in
/// "`http://…/api/trips returned 404 Not Found`".
pub fn refusal_error(url: &str, status: u16, status_text: &str, readable: Option<String>) -> (r:
    ApiError)
    ensures
        r.status_view() == Some(status),
        match readable {
            Some(words) => r.message_view() == words@,
            None => r.message_view() == url@ + " returned "@ + status_text@,
        },
{
    match readable {
        Some(words) => ApiError::from_status(status, words.as_str()),
        None => {
            let mut m = owned(url);
            push_str(&mut m, " returned ");
            push_str(&mut m, status_text);
            ApiError::from_status(status, m.as_str())
        },
    }
}

/// The error a request that never got an answer becomes: "`url`
/// unreachable: `reason`".
pub fn unreachable_error(url: &str, reason: &str) -> (r: ApiError)
    ensures
        r.status_view() is None,
        r.message_view() == url@ + " unreachable: "@ + reason@,
{
    let mut m = owned(url);
    push_str(&mut m, " unreachable: ");
    push_str(&mut m, reason);
    ApiError::new(m.as_str())
}

/// The error an answer that could not be read becomes: "`url` returned
/// unreadable JSON: `reason`".
pub fn unreadable_error(url: &str, reason: &str) -> (r: ApiError)
    ensures
        r.status_view() is None,
        r.message_view() == url@ + " returned unreadable JSON: "@ + reason@,
{
    let mut m = owned(url);
    push_str(&mut m, " returned unreadable JSON: ");
    push_str(&mut m, reason);
    ApiError::new(m.as_str())
}

/// Whether an answer means the archive stopped recognising this client, so
/// the lost session is seen by whoever can act on it. Only a refusal (401)
/// counts: a trip that is simply gone (404), or an edit refused while a sync
/// runs (409), are ordinary outcomes and must not send the owner back to
/// the login screen.
pub fn lost_session(status: u16) -> (r: bool)
    ensures
        r == (status == 401),
{
    status == unauthorized_code()
}

/// What a bulk tagging answered 404 means: one or more of the selected
/// trips no longer exists, and since the request is all-or-nothing, nothing
/// was tagged — said in those words rather than as a bare "not found". Any
/// other status is read as usual.
pub fn bulk_tag_refusal(status: u16) -> (r: Option<ApiError>)
    ensures
        status == 404 ==> (r matches Some(e) && e.status_view() == Some(404u16) && e.message_view()
            == "one or more selected trips no longer exist; nothing was tagged"@),
        status != 404 ==> r is None,
{
    if status == not_found_code() {
        Some(
            ApiError::from_status(
                status,
                "one or more selected trips no longer exist; nothing was tagged",
            ),
        )
    } else {
        None
    }
}

// ── Uploads ─────────────────────────────────────────────────────────────

/// One photo on its way to the archive: the name the file was chosen under,
/// the type the picker reported for it, and its bytes.
#[derive(Clone)]
pub struct PhotoUpload {
    pub file_name: String,
    pub content_type: Option<String>,
    pub bytes: Vec<u8>,
}

/// The punctuation RFC 9110 allows in a token.
pub open spec fn token_punctuation(c: char) -> bool {
    "!#$%&'*+-.^_`|~"@.contains(c)
}

/// Whether `c` is an ASCII letter or digit.
pub open spec fn ascii_alphanumeric(c: char) -> bool {
    ('0' <= c <= '9') || ('a' <= c <= 'z') || ('A' <= c <= 'Z')
}

/// Whether `s` is an RFC 9110 token: non-empty, made of letters, digits and
/// the token punctuation.
pub open spec fn is_token(s: Seq<char>) -> bool {
    s.len() > 0 && forall|i: int|
        0 <= i < s.len() ==> ascii_alphanumeric(#[trigger] s[i]) || token_punctuation(s[i])
}

/// Whether a content type is worth attaching: `type/subtype`, split at the
/// first `/`, both halves tokens.
pub open spec fn usable_type(s: Seq<char>) -> bool {
    match find_char(s, '/') {
        Some(i) => is_token(s.take(i)) && is_token(s.skip(i + 1)),
        None => false,
    }
}

fn token_chars(cs: &[char]) -> (r: bool)
    ensures
        r == is_token(cs@),
{
    if cs.len() == 0 {
        return false;
    }
    let punctuation = chars_of("!#$%&'*+-.^_`|~");
    let mut i: usize = 0;
    while i < cs.len()
        invariant
            i <= cs.len(),
            punctuation@ == "!#$%&'*+-.^_`|~"@,
            forall|j: int|
                0 <= j < i ==> ascii_alphanumeric(#[trigger] cs@[j]) || token_punctuation(cs@[j]),
        decreases cs.len() - i,
    {
        let c = cs[i];
        let alnum = ('0' <= c && c <= '9') || ('a' <= c && c <= 'z') || ('A' <= c && c <= 'Z');
        if !alnum && !contains_char(punctuation.as_slice(), c) {
            return false;
        }
        i = i + 1;
    }
    true
}

/// A content type worth attaching to a part: `type/subtype`, both halves
/// present and made of the characters a MIME type is allowed to contain.
/// Anything else is sent without a type rather than not at all.
pub fn usable_content_type(content_type: Option<&str>) -> (r: Option<&str>)
    ensures
        match content_type {
            Some(t) => if usable_type(t@) {
                r == Some(t)
            } else {
                r is None
            },
            None => r is None,
        },
{
    let t = content_type?;
    let cs = chars_of(t);
    match find_char_index(cs.as_slice(), '/') {
        Some(i) => {
            let kind = sub_chars(cs.as_slice(), 0, i);
            let subtype = sub_chars(cs.as_slice(), i + 1, cs.len());
            assert(kind@ =~= t@.take(i as int));
            assert(subtype@ =~= t@.skip(i + 1));
            if token_chars(kind.as_slice()) && token_chars(subtype.as_slice()) {
                Some(t)
            } else {
                None
            }
        },
        None => None,
    }
}

// ── Edits ───────────────────────────────────────────────────────────────

/// The `PATCH /api/trips/:id` body (US-15/US-35). Every field is optional
/// and an omitted one is left unchanged, which is why only what the owner
/// actually changed is sent.
#[derive(Debug, Clone, PartialEq)]
pub struct TripEdit {
    pub name: Option<String>,
    /// The wire value, not the label; empty resets the trip to `Unknown`.
    pub activity_type: Option<String>,
    /// US-35: the linked Komoot tour's privacy.
    pub privacy_status: Option<String>,
}

impl Default for TripEdit {
    /// An edit of nothing: every field left unchanged.
    fn default() -> (r: Self)
        ensures
            r.name is None,
            r.activity_type is None,
            r.privacy_status is None,
    {
        TripEdit { name: None, activity_type: None, privacy_status: None }
    }
}

impl TripEdit {
    /// Whether anything is actually being changed — an edit of nothing is
    /// worth no request.
    pub fn is_empty(&self) -> (r: bool)
        ensures
            r == (self.name is None && self.activity_type is None && self.privacy_status is None),
    {
        self.name.is_none() && self.activity_type.is_none() && self.privacy_status.is_none()
    }
}

} // verus!
