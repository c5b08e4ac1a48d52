//! Acting on the trips selected on the list screen: tagging them (US-34),
//! names staged first and then applied in one request, and setting one
//! activity on all of them (US-63), which overwrites and so asks first.

use vstd::prelude::*;

use crate::text::{
    decimal, decimal_string, lemma_contains_push, lemma_filter_other_than, list_contains, other_than,
    owned, push_str, set_presence, str_eq, texts,
};
use crate::types::activity_type::{activity_label, activity_named, ActivityType};
use crate::types::tag::{normalize_tag_name, tag_name_outcome, Tag};

verus! {

// ── Staging a tag name ───────────────────────────────────────────────────

/// What typing a tag name into the panel should do.
#[derive(Debug, Clone, PartialEq)]
pub enum Staged {
    /// A tag that already exists — stage it as typed.
    Known(String),
    /// Valid, but no such tag yet: US-33's confirm-before-create step, so a
    /// typo can't quietly become a new tag.
    New(String),
    /// Already staged; nothing to do.
    Duplicate,
    /// Rejected by the shared normalizer, carrying its message.
    Invalid(String),
}

/// The names of the tags that exist.
pub open spec fn tag_names(tags: Seq<Tag>) -> Seq<Seq<char>> {
    tags.map_values(|t: Tag| t.name@)
}

/// What staging `raw` decides, given the existing tags' names and the
/// names already staged: the normalizer's refusal, nothing for a name
/// already staged, and otherwise the normalized name, known or new.
pub open spec fn stage_decides(
    r: Staged,
    raw: Seq<char>,
    known: Seq<Seq<char>>,
    staged: Seq<Seq<char>>,
) -> bool {
    match tag_name_outcome(raw) {
        Err(m) => r matches Staged::Invalid(x) && x@ == m,
        Ok(n) => if staged.contains(n) {
            r is Duplicate
        } else if known.contains(n) {
            r matches Staged::Known(x) && x@ == n
        } else {
            r matches Staged::New(x) && x@ == n
        },
    }
}

/// Whether a tag of `known` has the name `name`.
fn names_a_known_tag(known: &[Tag], name: &str) -> (r: bool)
    ensures
        r == tag_names(known@).contains(name@),
{
    let mut i: usize = 0;
    while i < known.len()
        invariant
            i <= known.len(),
            forall|j: int| 0 <= j < i ==> known@[j].name@ != name@,
        decreases known.len() - i,
    {
        if str_eq(known[i].name.as_str(), name) {
            assert(tag_names(known@)[i as int] == name@);
            return true;
        }
        i = i + 1;
    }
    assert forall|j: int| 0 <= j < tag_names(known@).len() implies tag_names(known@)[j]
        != name@ by {
        assert(tag_names(known@)[j] == known@[j].name@);
    }
    false
}

/// Decide what to do with a typed tag name, given the tags that exist and
/// the names already staged. Normalizes (trim, lowercase) exactly as the
/// server does, so a name this screen accepts is never one it rejects.
pub fn stage(raw: &str, known: &[Tag], staged: &[String]) -> (r: Staged)
    ensures
        stage_decides(r, raw@, tag_names(known@), texts(staged@)),
{
    let name = match normalize_tag_name(raw) {
        Ok(name) => name,
        Err(message) => return Staged::Invalid(message),
    };
    if list_contains(staged, name.as_str()) {
        Staged::Duplicate
    } else if names_a_known_tag(known, name.as_str()) {
        Staged::Known(name)
    } else {
        Staged::New(name)
    }
}

// ── The tag panel ────────────────────────────────────────────────────────

/// The bulk-tag panel's state: what is typed, the names staged as chips,
/// a new name waiting for the owner to confirm creating it, and the last
/// problem to show. `known` is the tags that exist, as the panel was given
/// them.
pub struct TagPanel {
    pub known: Vec<Tag>,
    pub typed: String,
    pub staged: Vec<String>,
    pub awaiting: Option<String>,
    pub message: Option<String>,
}

impl TagPanel {
    /// What every state of the panel keeps: no name is staged twice, and a
    /// name waiting for confirmation is neither staged nor a known tag.
    pub open spec fn wf(&self) -> bool {
        &&& texts(self.staged@).no_duplicates()
        &&& match self.awaiting {
            Some(n) => !texts(self.staged@).contains(n@) && !tag_names(self.known@).contains(n@),
            None => true,
        }
    }

    /// The panel as it opens: nothing typed, staged or waiting.
    pub fn new(known: Vec<Tag>) -> (r: Self)
        ensures
            r.wf(),
            r.known@ == known@,
            r.typed@.len() == 0,
            r.staged@.len() == 0,
            r.awaiting is None,
            r.message is None,
    {
        TagPanel {
            known,
            typed: String::new(),
            staged: Vec::new(),
            awaiting: None,
            message: None,
        }
    }

    /// Whether the apply button is live: something is staged.
    pub fn can_apply(&self) -> (r: bool)
        ensures
            r == (self.staged@.len() > 0),
    {
        self.staged.len() > 0
    }

    /// The owner typed: the field now holds `text`.
    pub fn type_text(&mut self, text: &str)
        requires
            old(self).wf(),
        ensures
            final(self).wf(),
            final(self).typed@ == text@,
            final(self).known == old(self).known,
            final(self).staged == old(self).staged,
            final(self).awaiting == old(self).awaiting,
            final(self).message == old(self).message,
    {
        self.typed = owned(text);
    }

    /// "Add": stage what is typed. A known tag is staged at once and the
    /// field cleared; a new one waits for confirmation; one already staged
    /// just clears the field; an invalid one shows why.
    pub fn add_typed(&mut self)
        requires
            old(self).wf(),
        ensures
            final(self).wf(),
            final(self).known == old(self).known,
            match tag_name_outcome(old(self).typed@) {
                Err(m) => final(self).message matches Some(x) && x@ == m && final(self).typed
                    == old(self).typed && final(self).staged == old(self).staged
                    && final(self).awaiting == old(self).awaiting,
                Ok(n) => if texts(old(self).staged@).contains(n) {
                    final(self).typed@.len() == 0 && final(self).staged == old(self).staged
                        && final(self).awaiting == old(self).awaiting && final(self).message
                        == old(self).message
                } else if tag_names(old(self).known@).contains(n) {
                    texts(final(self).staged@) == texts(old(self).staged@).push(n)
                        && final(self).typed@.len() == 0 && final(self).message is None
                        && final(self).awaiting == old(self).awaiting
                } else {
                    final(self).awaiting matches Some(x) && x@ == n && final(self).typed
                        == old(self).typed && final(self).staged == old(self).staged
                        && final(self).message == old(self).message
                },
            },
    {
        let outcome = stage(self.typed.as_str(), self.known.as_slice(), self.staged.as_slice());
        match outcome {
            Staged::Known(name) => {
                let ghost before = texts(self.staged@);
                proof {
                    assert forall|t: Seq<char>| before.contains(t) implies t != name@ by {}
                }
                self.staged.push(name);
                proof {
                    assert(texts(self.staged@) =~= before.push(name@));
                    assert(texts(self.staged@).no_duplicates()) by {
                        assert forall|i: int, j: int|
                            0 <= i < j < texts(self.staged@).len() implies texts(self.staged@)[i]
                            != texts(self.staged@)[j] by {
                            if j == before.len() {
                                assert(before[i] == texts(self.staged@)[i]);
                            }
                        }
                    }
                    if self.awaiting is Some {
                        lemma_contains_push(before, name@, self.awaiting.unwrap()@);
                    }
                }
                self.typed = String::new();
                self.message = None;
            },
            Staged::New(name) => {
                self.awaiting = Some(name);
            },
            Staged::Duplicate => {
                self.typed = String::new();
            },
            Staged::Invalid(problem) => {
                self.message = Some(problem);
            },
        }
    }

    /// "Create": stage the name that was waiting, and clear the field and
    /// any problem shown. With nothing waiting, nothing changes.
    pub fn confirm_create(&mut self)
        requires
            old(self).wf(),
        ensures
            final(self).wf(),
            final(self).known == old(self).known,
            match old(self).awaiting {
                Some(n) => texts(final(self).staged@) == texts(old(self).staged@).push(n@)
                    && final(self).awaiting is None && final(self).typed@.len() == 0
                    && final(self).message is None,
                None => *final(self) == *old(self),
            },
    {
        match self.awaiting.take() {
            Some(name) => {
                let ghost before = texts(self.staged@);
                self.staged.push(name);
                proof {
                    assert(texts(self.staged@) =~= before.push(name@));
                    assert(texts(self.staged@).no_duplicates()) by {
                        assert forall|i: int, j: int|
                            0 <= i < j < texts(self.staged@).len() implies texts(self.staged@)[i]
                            != texts(self.staged@)[j] by {
                            if j == before.len() {
                                assert(before[i] == texts(self.staged@)[i]);
                            }
                        }
                    }
                }
                self.typed = String::new();
                self.message = None;
            },
            None => {},
        }
    }

    /// "Cancel": the waiting name is dropped, nothing staged.
    pub fn cancel_create(&mut self)
        requires
            old(self).wf(),
        ensures
            final(self).wf(),
            final(self).awaiting is None,
            final(self).known == old(self).known,
            final(self).typed == old(self).typed,
            final(self).staged == old(self).staged,
            final(self).message == old(self).message,
    {
        self.awaiting = None;
    }

    /// "×" on a chip: that name is no longer staged; the others stay, in
    /// their order.
    pub fn remove_chip(&mut self, name: &str)
        requires
            old(self).wf(),
        ensures
            final(self).wf(),
            texts(final(self).staged@) == texts(old(self).staged@).filter(other_than(name@)),
            final(self).known == old(self).known,
            final(self).typed == old(self).typed,
            final(self).awaiting == old(self).awaiting,
            final(self).message == old(self).message,
    {
        let ghost before = texts(self.staged@);
        set_presence(&mut self.staged, name, false);
        proof {
            lemma_filter_keeps_set(before, name@);
            if self.awaiting is Some {
                lemma_filter_other_than(before, name@, self.awaiting.unwrap()@);
            }
        }
    }

    /// The request succeeded: nothing is staged any more and no problem is
    /// shown. A "create this tag?" question still waiting stays asked.
    pub fn applied(&mut self)
        requires
            old(self).wf(),
        ensures
            final(self).wf(),
            final(self).staged@.len() == 0,
            final(self).message is None,
            final(self).known == old(self).known,
            final(self).typed == old(self).typed,
            final(self).awaiting == old(self).awaiting,
    {
        self.staged = Vec::new();
        self.message = None;
        assert(texts(self.staged@) =~= Seq::<Seq<char>>::empty());
    }

    /// The request was refused: its words are shown, the chips stay.
    pub fn refused(&mut self, problem: &str)
        requires
            old(self).wf(),
        ensures
            final(self).wf(),
            final(self).message matches Some(x) && x@ == problem@,
            final(self).known == old(self).known,
            final(self).typed == old(self).typed,
            final(self).staged == old(self).staged,
            final(self).awaiting == old(self).awaiting,
    {
        self.message = Some(owned(problem));
    }
}

/// Filtering a sequence without duplicates leaves one without duplicates.
proof fn lemma_filter_keeps_set(s: Seq<Seq<char>>, name: Seq<char>)
    requires
        s.no_duplicates(),
    ensures
        s.filter(other_than(name)).no_duplicates(),
    decreases s.len(),
{
    if s.len() > 0 {
        let init = s.drop_last();
        assert(s =~= init.push(s.last()));
        assert(init.no_duplicates()) by {
            assert forall|i: int, j: int| 0 <= i < j < init.len() implies init[i] != init[j] by {
                assert(s[i] == init[i] && s[j] == init[j]);
            }
        }
        lemma_filter_keeps_set(init, name);
        init.lemma_filter_push(s.last(), other_than(name));
        let f = init.filter(other_than(name));
        if s.last() != name {
            assert(!init.contains(s.last())) by {
                if init.contains(s.last()) {
                    let k = choose|k: int| 0 <= k < init.len() && init[k] == s.last();
                    assert(s[k] == s[s.len() - 1]);
                }
            }
            if f.contains(s.last()) {
                init.lemma_filter_contains_rev(other_than(name), s.last());
            }
            assert forall|i: int, j: int|
                0 <= i < j < f.push(s.last()).len() implies f.push(s.last())[i] != f.push(
                s.last(),
            )[j] by {
                if j == f.len() {
                    assert(f[i] == f.push(s.last())[i]);
                    assert(f.contains(f[i]));
                }
            }
        }
    }
}

// ── Setting one activity ─────────────────────────────────────────────────

/// How the confirmation names an activity: `Unknown` in the words the owner
/// would use rather than by its picker label, which is a dash.
pub open spec fn activity_words(a: ActivityType) -> Seq<char> {
    if a == ActivityType::Unknown {
        "unspecified"@
    } else {
        activity_label(a)
    }
}

/// What the panel asks before overwriting.
pub open spec fn confirmation_text(count: nat, a: ActivityType) -> Seq<char> {
    "Set the activity of "@ + decimal(count) + " "@ + (if count == 1 {
        "trip"@
    } else {
        "trips"@
    }) + " to "@ + activity_words(a) + "? This replaces the activity they have now."@
}

/// The confirmation names the activity it will set by that activity's own
/// label, right after " to " and just before the question it ends with;
/// the unspecified activity, whose label is a dash, is named
/// "unspecified". So no activity is ever confirmed under another's name.
pub proof fn lemma_confirmation_names_the_activity(count: nat, a: ActivityType)
    ensures
        a != ActivityType::Unknown ==> activity_words(a) == activity_label(a),
        exists|before: Seq<char>|
            confirmation_text(count, a) == before + " to "@ + (if a == ActivityType::Unknown {
                "unspecified"@
            } else {
                activity_label(a)
            }) + "? This replaces the activity they have now."@,
{
    let before = "Set the activity of "@ + decimal(count) + " "@ + (if count == 1 {
        "trip"@
    } else {
        "trips"@
    });
    assert(confirmation_text(count, a) == before + " to "@ + (if a == ActivityType::Unknown {
        "unspecified"@
    } else {
        activity_label(a)
    }) + "? This replaces the activity they have now."@);
}

/// What the panel asks before overwriting: how many trips it will change,
/// and to what. An activity type overwrites, where a tag is added.
pub fn confirmation(count: usize, activity: ActivityType) -> (r: String)
    ensures
        r@ == confirmation_text(count as nat, activity),
{
    let trips = if count == 1 {
        "trip"
    } else {
        "trips"
    };
    let to = if activity == ActivityType::Unknown {
        "unspecified"
    } else {
        activity.label()
    };
    let mut s = String::new();
    push_str(&mut s, "Set the activity of ");
    let n = decimal_string(count as u64);
    push_str(&mut s, n.as_str());
    push_str(&mut s, " ");
    push_str(&mut s, trips);
    push_str(&mut s, " to ");
    push_str(&mut s, to);
    push_str(&mut s, "? This replaces the activity they have now.");
    assert(s@ =~= confirmation_text(count as nat, activity));
    s
}

/// The bulk activity panel's state: the activity chosen in the picker,
/// whether the overwrite question is showing, and the last problem to show.
#[derive(Debug, Clone, PartialEq)]
pub struct ActivityPanel {
    pub chosen: Option<ActivityType>,
    pub confirming: bool,
    pub message: Option<String>,
}

impl ActivityPanel {
    /// The panel as it opens: nothing chosen, nothing asked.
    pub fn new() -> (r: Self)
        ensures
            r.chosen is None,
            !r.confirming,
            r.message is None,
    {
        ActivityPanel { chosen: None, confirming: false, message: None }
    }

    /// The picker changed to `value`: the activity it names, or none for
    /// the "Choose…" placeholder; any question showing is withdrawn.
    pub fn pick(&mut self, value: &str)
        ensures
            final(self).chosen == activity_named(value@),
            !final(self).confirming,
            final(self).message == old(self).message,
    {
        self.chosen = ActivityType::parse(value);
        self.confirming = false;
    }

    /// The set button: asks the question, once something is chosen — the
    /// button is disabled before.
    pub fn ask(&mut self)
        ensures
            final(self).chosen == old(self).chosen,
            final(self).confirming == (old(self).chosen is Some),
            final(self).message == old(self).message,
    {
        self.confirming = self.chosen.is_some();
    }

    /// What the question says and which activity confirming applies, while
    /// it is showing.
    pub fn question(&self, count: usize) -> (r: Option<(String, ActivityType)>)
        ensures
            match r {
                Some((text, a)) => self.confirming && self.chosen == Some(a) && text@
                    == confirmation_text(count as nat, a),
                None => !self.confirming || self.chosen is None,
            },
    {
        match self.chosen {
            Some(a) => if self.confirming {
                Some((confirmation(count, a), a))
            } else {
                None
            },
            None => None,
        }
    }

    /// "Cancel": the question goes, the choice stays.
    pub fn cancel(&mut self)
        ensures
            final(self).chosen == old(self).chosen,
            !final(self).confirming,
            final(self).message == old(self).message,
    {
        self.confirming = false;
    }

    /// The request succeeded: back to nothing chosen, asked or shown.
    pub fn applied(&mut self)
        ensures
            final(self).chosen is None,
            !final(self).confirming,
            final(self).message is None,
    {
        self.chosen = None;
        self.confirming = false;
        self.message = None;
    }

    /// The request was refused: the question goes, its words are shown,
    /// the choice stays.
    pub fn refused(&mut self, problem: &str)
        ensures
            final(self).chosen == old(self).chosen,
            !final(self).confirming,
            final(self).message matches Some(x) && x@ == problem@,
    {
        self.confirming = false;
        self.message = Some(owned(problem));
    }
}

} // verus!
