use vstd::prelude::*;

use crate::text::{debug_quoted, debug_string, owned, push_str, str_eq};

verus! {

/// A linked Komoot tour's privacy — Komoot's `status` field (US-35).
///
/// `Unknown` is the landing spot for any `status` string Komoot sends that
/// this app doesn't map — displayed, but never pushed back, so an edit of
/// some other field can't overwrite a privacy state the archive doesn't
/// understand. It is deliberately not offered in the UI; see
/// [`Self::SELECTABLE`].
#[derive(Debug, Clone, Copy, PartialEq, Eq, Hash, Structural)]
pub enum KomootPrivacy {
    /// Komoot reported a `status` this app has no mapping for (or none at
    /// all).
    Unknown,
    Private,
    Public,
}

/// The wire/storage value of each privacy.
pub open spec fn privacy_wire(p: KomootPrivacy) -> Seq<char> {
    match p {
        KomootPrivacy::Unknown => "unknown"@,
        KomootPrivacy::Private => "private"@,
        KomootPrivacy::Public => "public"@,
    }
}

/// What the owner reads for each privacy.
pub open spec fn privacy_label(p: KomootPrivacy) -> Seq<char> {
    match p {
        KomootPrivacy::Unknown => "Unknown"@,
        KomootPrivacy::Private => "Private"@,
        KomootPrivacy::Public => "Public"@,
    }
}

/// The privacy whose wire value is `s`, if any.
pub open spec fn privacy_named(s: Seq<char>) -> Option<KomootPrivacy> {
    if s == "unknown"@ {
        Some(KomootPrivacy::Unknown)
    } else if s == "private"@ {
        Some(KomootPrivacy::Private)
    } else if s == "public"@ {
        Some(KomootPrivacy::Public)
    } else {
        None
    }
}

impl Default for KomootPrivacy {
    /// Nothing is known about a link row's privacy until a sync has read it.
    fn default() -> (r: Self)
        ensures
            r == KomootPrivacy::Unknown,
    {
        KomootPrivacy::Unknown
    }
}

impl KomootPrivacy {
    /// Every variant the owner can explicitly choose, i.e. everything except
    /// `Unknown`.
    pub const SELECTABLE: [KomootPrivacy; 2] = [KomootPrivacy::Private, KomootPrivacy::Public];

    /// Every variant, for round-trip tests and exhaustive iteration.
    pub const ALL: [KomootPrivacy; 3] = [
        KomootPrivacy::Unknown,
        KomootPrivacy::Private,
        KomootPrivacy::Public,
    ];

    pub fn as_str(&self) -> (r: &'static str)
        ensures
            r@ == privacy_wire(*self),
    {
        match self {
            KomootPrivacy::Unknown => "unknown",
            KomootPrivacy::Private => "private",
            KomootPrivacy::Public => "public",
        }
    }

    /// A human-readable label for the list page's privacy column and the
    /// detail page's picker, distinct from `as_str()`'s wire/storage value.
    pub fn label(&self) -> (r: &'static str)
        ensures
            r@ == privacy_label(*self),
    {
        match self {
            KomootPrivacy::Unknown => "Unknown",
            KomootPrivacy::Private => "Private",
            KomootPrivacy::Public => "Public",
        }
    }

    /// The wire value as an owned string, what `Display` would write.
    pub fn to_string(&self) -> (r: String)
        ensures
            r@ == privacy_wire(*self),
    {
        owned(self.as_str())
    }

    /// Read a wire value back; anything else is refused in words.
    pub fn parse_str(s: &str) -> (r: Result<KomootPrivacy, String>)
        ensures
            match privacy_named(s@) {
                Some(p) => r == Ok::<KomootPrivacy, String>(p),
                None => (r matches Err(e) && e@ == "unknown komoot privacy: "@ + debug_quoted(s@)),
            },
    {
        if str_eq(s, "unknown") {
            Ok(KomootPrivacy::Unknown)
        } else if str_eq(s, "private") {
            Ok(KomootPrivacy::Private)
        } else if str_eq(s, "public") {
            Ok(KomootPrivacy::Public)
        } else {
            let mut message = owned("unknown komoot privacy: ");
            let quoted = debug_string(s);
            push_str(&mut message, quoted.as_str());
            Err(message)
        }
    }

    /// Map a raw Komoot `status` string onto a variant, falling back to
    /// `Unknown` for anything unrecognized (including an absent field, which
    /// deserializes to the empty string): a pull never fails over a value
    /// Komoot added on its side.
    pub fn from_komoot_status(status: &str) -> (r: Self)
        ensures
            r == (match privacy_named(status@) {
                Some(p) => p,
                None => KomootPrivacy::Unknown,
            }),
    {
        match KomootPrivacy::parse_str(status) {
            Ok(p) => p,
            Err(_) => KomootPrivacy::Unknown,
        }
    }

    /// The string to send as Komoot's `status` on a push, or `None` when
    /// there is nothing safe to send — the push then omits the field
    /// entirely, leaving Komoot's own privacy untouched.
    pub fn komoot_status(&self) -> (r: Option<&'static str>)
        ensures
            *self == KomootPrivacy::Unknown ==> r is None,
            *self != KomootPrivacy::Unknown ==> (r matches Some(s) && s@ == privacy_wire(*self)),
    {
        match self {
            KomootPrivacy::Unknown => None,
            KomootPrivacy::Private | KomootPrivacy::Public => Some(self.as_str()),
        }
    }
}

/// Every privacy's wire value reads back as that privacy: what `Display`
/// writes, `FromStr` parses to the same variant.
pub proof fn lemma_privacy_round_trip(p: KomootPrivacy)
    ensures
        privacy_named(privacy_wire(p)) == Some(p),
{
    reveal_strlit("unknown");
    reveal_strlit("private");
    reveal_strlit("public");
    assert("private"@[0] != "unknown"@[0]);
    assert("public"@.len() != "unknown"@.len());
    assert("public"@[1] != "private"@[1]);
}

/// The selectable privacies are every variant except `Unknown`, each once.
pub proof fn lemma_selectable_is_all_but_unknown()
    ensures
        KomootPrivacy::SELECTABLE@.len() == KomootPrivacy::ALL@.len() - 1,
        forall|p: KomootPrivacy|
            KomootPrivacy::SELECTABLE@.contains(p) <==> p != KomootPrivacy::Unknown,
        KomootPrivacy::SELECTABLE@.no_duplicates(),
{
    assert(KomootPrivacy::SELECTABLE@ =~= seq![KomootPrivacy::Private, KomootPrivacy::Public]);
    assert(KomootPrivacy::ALL@ =~= seq![
        KomootPrivacy::Unknown,
        KomootPrivacy::Private,
        KomootPrivacy::Public,
    ]);
    assert forall|p: KomootPrivacy|
        KomootPrivacy::SELECTABLE@.contains(p) <==> p != KomootPrivacy::Unknown by {
        if p != KomootPrivacy::Unknown {
            if p == KomootPrivacy::Private {
                assert(KomootPrivacy::SELECTABLE@[0] == p);
            } else {
                assert(KomootPrivacy::SELECTABLE@[1] == p);
            }
        }
    }
}

impl std::str::FromStr for KomootPrivacy {
    type Err = String;

    fn from_str(s: &str) -> (r: Result<Self, Self::Err>)
        ensures
            match privacy_named(s@) {
                Some(p) => r == Ok::<KomootPrivacy, String>(p),
                None => (r matches Err(e) && e@ == "unknown komoot privacy: "@ + debug_quoted(s@)),
            },
    {
        KomootPrivacy::parse_str(s)
    }
}

} // verus!
