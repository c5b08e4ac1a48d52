//! Editing a trip from its detail screen: name and activity type (US-15),
//! and the linked Komoot tour's privacy (US-35). What the form asks the
//! archive for is decided by [`changes`], over the trip as loaded and the
//! form as filled in: only what actually changed is sent.

use vstd::prelude::*;

use crate::api::TripEdit;
use crate::text::{owned, str_eq};
use crate::types::activity_type::{activity_wire, ActivityType};
use crate::types::komoot_link::KomootLink;
use crate::types::komoot_privacy::{privacy_wire, KomootPrivacy};

verus! {

/// What the edit form reads of a trip: its name, its activity, and its
/// Komoot link where it has one.
#[derive(Debug, Clone, PartialEq)]
pub struct EditableTrip {
    pub name: String,
    pub activity_type: ActivityType,
    pub komoot: Option<KomootLink>,
}

/// The form's fields, as strings, exactly as the inputs hold them.
#[derive(Clone, Debug, PartialEq)]
pub struct EditForm {
    pub name: String,
    /// An activity's wire value, or empty for "unspecified" (`Unknown`).
    pub activity: String,
    /// A settable privacy's wire value, or empty — which means "whatever the
    /// archive already has", including a privacy it could not map.
    pub privacy: String,
}

/// An activity's value in the picker: `Unknown` is the blank choice.
pub open spec fn activity_choice(a: ActivityType) -> Seq<char> {
    if a == ActivityType::Unknown {
        Seq::empty()
    } else {
        activity_wire(a)
    }
}

/// A linked tour's privacy in the picker: its wire value where the owner
/// may choose it, blank otherwise (no link, nothing read yet, or a privacy
/// the archive could not map).
pub open spec fn privacy_choice(link: Option<KomootLink>) -> Seq<char> {
    match link {
        Some(l) => match l.privacy {
            Some(p) => if p != KomootPrivacy::Unknown {
                privacy_wire(p)
            } else {
                Seq::empty()
            },
            None => Seq::empty(),
        },
        None => Seq::empty(),
    }
}

/// A field as sent: absent when the owner left it as it opened.
pub open spec fn changed(now: Seq<char>, opened: Seq<char>) -> Option<Seq<char>> {
    if now == opened {
        None
    } else {
        Some(now)
    }
}

/// The text an optional string holds.
pub open spec fn opt_text(o: Option<String>) -> Option<Seq<char>> {
    match o {
        Some(s) => Some(s@),
        None => None,
    }
}

/// An activity's value in the picker: `Unknown` is the blank choice, the
/// same as an import that named no activity.
pub fn activity_value(activity: ActivityType) -> (r: &'static str)
    ensures
        r@ == activity_choice(activity),
{
    if activity == ActivityType::Unknown {
        proof {
            reveal_strlit("");
        }
        ""
    } else {
        activity.as_str()
    }
}

/// A linked tour's privacy in the picker, or blank. Blank for a privacy the
/// owner may not choose: without that placeholder the picker would show its
/// first option and silently claim a privacy the archive does not have.
pub fn privacy_value(link: Option<&KomootLink>) -> (r: &'static str)
    ensures
        r@ == privacy_choice(
            match link {
                Some(l) => Some(*l),
                None => None,
            },
        ),
{
    proof {
        reveal_strlit("");
    }
    match link {
        Some(l) => match l.privacy {
            Some(p) => if p != KomootPrivacy::Unknown {
                p.as_str()
            } else {
                ""
            },
            None => "",
        },
        None => "",
    }
}

impl EditForm {
    /// The form as the trip fills it in when it opens.
    pub fn of(trip: &EditableTrip) -> (r: Self)
        ensures
            r.name@ == trip.name@,
            r.activity@ == activity_choice(trip.activity_type),
            r.privacy@ == privacy_choice(trip.komoot),
    {
        let link = match &trip.komoot {
            Some(l) => Some(l),
            None => None,
        };
        EditForm {
            name: owned(trip.name.as_str()),
            activity: owned(activity_value(trip.activity_type)),
            privacy: owned(privacy_value(link)),
        }
    }
}

/// One field as sent: the form's value when it differs from what the form
/// opened with, nothing otherwise.
fn changed_field(now: &String, opened: &String) -> (r: Option<String>)
    ensures
        opt_text(r) == changed(now@, opened@),
{
    if str_eq(now.as_str(), opened.as_str()) {
        None
    } else {
        Some(owned(now.as_str()))
    }
}

/// What to ask the archive to change: every field the owner actually
/// altered, and nothing else (US-15). A privacy left on its placeholder asks
/// for nothing, which is what keeps an unmappable one from being pushed back
/// to Komoot as a choice (US-35).
pub fn changes(trip: &EditableTrip, form: &EditForm) -> (r: TripEdit)
    ensures
        opt_text(r.name) == changed(form.name@, trip.name@),
        opt_text(r.activity_type) == changed(form.activity@, activity_choice(trip.activity_type)),
        opt_text(r.privacy_status) == changed(form.privacy@, privacy_choice(trip.komoot)),
{
    let opened_with = EditForm::of(trip);
    TripEdit {
        name: changed_field(&form.name, &opened_with.name),
        activity_type: changed_field(&form.activity, &opened_with.activity),
        privacy_status: changed_field(&form.privacy, &opened_with.privacy),
    }
}

/// A form nobody touched asks for no change at all: for every trip, each
/// field of the form as it opens equals what the trip already has, so no
/// field is sent.
pub proof fn lemma_untouched_form_changes_nothing(trip: EditableTrip, form: EditForm)
    requires
        form.name@ == trip.name@,
        form.activity@ == activity_choice(trip.activity_type),
        form.privacy@ == privacy_choice(trip.komoot),
    ensures
        changed(form.name@, trip.name@) is None,
        changed(form.activity@, activity_choice(trip.activity_type)) is None,
        changed(form.privacy@, privacy_choice(trip.komoot)) is None,
{
}

/// A privacy the owner may not choose is never sent back: when the trip's
/// privacy is unknown, unread or absent, the form opens blank on it, and a
/// field left blank asks for nothing.
pub proof fn lemma_unchoosable_privacy_never_sent(trip: EditableTrip, form: EditForm)
    requires
        match trip.komoot {
            Some(l) => l.privacy is None || l.privacy == Some(KomootPrivacy::Unknown),
            None => true,
        },
        form.privacy@.len() == 0,
    ensures
        changed(form.privacy@, privacy_choice(trip.komoot)) is None,
{
    assert(form.privacy@ =~= privacy_choice(trip.komoot));
}

} // verus!
