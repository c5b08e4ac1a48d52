//! Sharing the selected trips with someone who has no account (US-53): what
//! the create form sends, what its button says, and what a made link says
//! about how long it works.

use vstd::prelude::*;

use crate::format::{date, date_text};
use crate::text::{decimal, decimal_string, is_blank, owned, push_str, str_is_blank};
use crate::types::share::{expiry_named, CreateShare, ShareExpiry};

verus! {

/// What the create button says.
pub open spec fn create_label_text(count: nat) -> Seq<char> {
    if count == 1 {
        "Make a link to this trip"@
    } else {
        "Make a link to "@ + decimal(count) + " trips"@
    }
}

/// What the create button says: one trip is "this trip", more are counted.
pub fn create_label(count: usize) -> (r: String)
    ensures
        r@ == create_label_text(count as nat),
{
    if count == 1 {
        owned("Make a link to this trip")
    } else {
        let mut s = owned("Make a link to ");
        let n = decimal_string(count as u64);
        push_str(&mut s, n.as_str());
        push_str(&mut s, " trips");
        s
    }
}

/// The request the create form sends: the selected trips, the title when
/// one was typed — blank means none, and a typed one travels as typed —
/// and the chosen expiry.
pub fn share_request(trip_ids: &[i64], label: &str, expiry: ShareExpiry) -> (r: CreateShare)
    ensures
        r.trip_ids@ == trip_ids@,
        is_blank(label@) ==> r.label is None,
        !is_blank(label@) ==> (r.label matches Some(l) && l@ == label@),
        r.expiry == expiry,
{
    let mut ids: Vec<i64> = Vec::new();
    let mut i: usize = 0;
    while i < trip_ids.len()
        invariant
            i <= trip_ids.len(),
            ids@ == trip_ids@.take(i as int),
        decreases trip_ids.len() - i,
    {
        ids.push(trip_ids[i]);
        i = i + 1;
        assert(ids@ =~= trip_ids@.take(i as int));
    }
    assert(trip_ids@.take(i as int) =~= trip_ids@);
    let label = if str_is_blank(label) {
        None
    } else {
        Some(owned(label))
    };
    CreateShare { trip_ids: ids, label, expiry }
}

/// The expiry picker changed to `value`: the expiry it names, or the one
/// already chosen when it names none.
pub fn pick_expiry(current: ShareExpiry, value: &str) -> (r: ShareExpiry)
    ensures
        r == match expiry_named(value@) {
            Some(e) => e,
            None => current,
        },
{
    match ShareExpiry::parse(value) {
        Some(chosen) => chosen,
        None => current,
    }
}

/// How long a made link works, said under it: until the date it expires,
/// or until the owner stops it.
pub fn link_note(expires_at: Option<&str>) -> (r: String)
    ensures
        match expires_at {
            Some(at) => r@ == "It works until "@ + date_text(at@) + "."@,
            None => r@ == "It works until you stop it."@,
        },
{
    match expires_at {
        Some(at) => {
            let mut s = owned("It works until ");
            let day = date(Some(at));
            push_str(&mut s, day.as_str());
            push_str(&mut s, ".");
            s
        },
        None => owned("It works until you stop it."),
    }
}

/// The title a share goes by: its label, or a plain description.
pub fn title(label: Option<&str>) -> (r: &str)
    ensures
        match label {
            Some(l) => r@ == l@,
            None => r@ == "Shared trips"@,
        },
{
    match label {
        Some(l) => l,
        None => "Shared trips",
    }
}

} // verus!
