use vstd::prelude::*;

use crate::text::{debug_quoted, debug_string, owned, push_str, str_eq};

verus! {

/// How long a share lasts (US-53). How long each one is lives in the
/// server's configuration.
#[derive(Debug, Clone, Copy, PartialEq, Eq, Structural)]
pub enum ShareExpiry {
    Never,
    OneMonth,
    SixMonths,
}

/// The wire value of each expiry.
pub open spec fn expiry_wire(e: ShareExpiry) -> Seq<char> {
    match e {
        ShareExpiry::Never => "never"@,
        ShareExpiry::OneMonth => "one_month"@,
        ShareExpiry::SixMonths => "six_months"@,
    }
}

/// What the owner reads in the create dialog for each expiry.
pub open spec fn expiry_label(e: ShareExpiry) -> Seq<char> {
    match e {
        ShareExpiry::Never => "Never"@,
        ShareExpiry::OneMonth => "In 1 month"@,
        ShareExpiry::SixMonths => "In 6 months"@,
    }
}

/// The expiry whose wire value is `s`, if any.
pub open spec fn expiry_named(s: Seq<char>) -> Option<ShareExpiry> {
    if s == "never"@ {
        Some(ShareExpiry::Never)
    } else if s == "one_month"@ {
        Some(ShareExpiry::OneMonth)
    } else if s == "six_months"@ {
        Some(ShareExpiry::SixMonths)
    } else {
        None
    }
}

impl Default for ShareExpiry {
    /// A request that names no expiry never expires.
    fn default() -> (r: Self)
        ensures
            r == ShareExpiry::Never,
    {
        ShareExpiry::Never
    }
}

impl ShareExpiry {
    pub const ALL: [ShareExpiry; 3] = [
        ShareExpiry::Never,
        ShareExpiry::OneMonth,
        ShareExpiry::SixMonths,
    ];

    /// The wire value, which the create dialog's `<select>` also uses.
    pub fn as_str(self) -> (r: &'static str)
        ensures
            r@ == expiry_wire(self),
    {
        match self {
            ShareExpiry::Never => "never",
            ShareExpiry::OneMonth => "one_month",
            ShareExpiry::SixMonths => "six_months",
        }
    }

    /// What the owner reads in the create dialog.
    pub fn label(self) -> (r: &'static str)
        ensures
            r@ == expiry_label(self),
    {
        match self {
            ShareExpiry::Never => "Never",
            ShareExpiry::OneMonth => "In 1 month",
            ShareExpiry::SixMonths => "In 6 months",
        }
    }

    /// The first expiry in [`Self::ALL`] whose wire value is `value`.
    pub fn parse(value: &str) -> (r: Option<Self>)
        ensures
            r == expiry_named(value@),
    {
        if str_eq(value, "never") {
            Some(ShareExpiry::Never)
        } else if str_eq(value, "one_month") {
            Some(ShareExpiry::OneMonth)
        } else if str_eq(value, "six_months") {
            Some(ShareExpiry::SixMonths)
        } else {
            None
        }
    }
}

/// Every expiry's wire value reads back as that expiry.
pub proof fn lemma_expiry_round_trip(e: ShareExpiry)
    ensures
        expiry_named(expiry_wire(e)) == Some(e),
{
    reveal_strlit("never");
    reveal_strlit("one_month");
    reveal_strlit("six_months");
    assert("one_month"@[0] != "never"@[0]);
    assert("six_months"@[0] != "never"@[0]);
    assert("six_months"@[0] != "one_month"@[0]);
}

/// Each expiry's label names the duration its wire value does: the
/// expiry sent as "never" is labelled "Never", the one sent as
/// "one_month" is labelled "In 1 month", and the one sent as "six_months"
/// is labelled "In 6 months"; so no two expiries share a label, and only
/// the one that never expires is labelled without a duration.
pub proof fn lemma_label_names_its_duration(e: ShareExpiry, f: ShareExpiry)
    ensures
        expiry_wire(e) == "never"@ <==> expiry_label(e) == "Never"@,
        expiry_wire(e) == "one_month"@ <==> expiry_label(e) == "In 1 month"@,
        expiry_wire(e) == "six_months"@ <==> expiry_label(e) == "In 6 months"@,
        expiry_label(e) == expiry_label(f) ==> e == f,
{
    reveal_strlit("never");
    reveal_strlit("one_month");
    reveal_strlit("six_months");
    reveal_strlit("Never");
    reveal_strlit("In 1 month");
    reveal_strlit("In 6 months");
    assert("one_month"@[0] != "never"@[0]);
    assert("six_months"@[0] != "never"@[0]);
    assert("six_months"@[0] != "one_month"@[0]);
    assert("In 1 month"@[0] != "Never"@[0]);
    assert("In 6 months"@[0] != "Never"@[0]);
    assert("In 6 months"@[3] != "In 1 month"@[3]);
}

/// The `POST /api/shares` body.
#[derive(Debug, Clone, PartialEq)]
pub struct CreateShare {
    pub trip_ids: Vec<i64>,
    /// Who or what the share is for; the recipient sees it as the title.
    pub label: Option<String>,
    pub expiry: ShareExpiry,
}

/// What `POST /api/shares` answers with. The token is the whole of the
/// credential, so this type has no `Debug` that would print it: see
/// [`CreatedShare::debug_string`].
#[derive(Clone, PartialEq)]
pub struct CreatedShare {
    pub token: String,
    /// RFC-3339 UTC; `None` for a share that never expires.
    pub expires_at: Option<String>,
}

/// How `{:?}` writes an optional string.
pub open spec fn debug_option(s: Option<Seq<char>>) -> Seq<char> {
    match s {
        None => "None"@,
        Some(v) => "Some("@ + debug_quoted(v) + ")"@,
    }
}

impl CreatedShare {
    /// The share as a debug line, the token redacted.
    pub fn debug_string(&self) -> (r: String)
        ensures
            r@ == "CreatedShare { token: \"<redacted>\", expires_at: "@ + debug_option(
                match &self.expires_at {
                    None => None,
                    Some(s) => Some(s@),
                },
            ) + " }"@,
    {
        let mut r = owned("CreatedShare { token: \"<redacted>\", expires_at: ");
        match &self.expires_at {
            None => push_str(&mut r, "None"),
            Some(at) => {
                push_str(&mut r, "Some(");
                let quoted = debug_string(at.as_str());
                push_str(&mut r, quoted.as_str());
                push_str(&mut r, ")");
            },
        }
        push_str(&mut r, " }");
        r
    }
}

} // verus!
