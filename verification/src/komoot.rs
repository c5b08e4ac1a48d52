//! The Komoot sync screen's rules (US-22): which tours a run asks for, what
//! the ticks become when the owner ticks, what a finished run says, and what
//! the screen notes before the run about the push half of it.

use vstd::prelude::*;

use crate::api::ApiError;
use crate::text::{lemma_contains_push, lemma_filter_other_than, other_than, set_presence, decimal, list_contains, owned, push_str, signed_decimal, signed_decimal_string, decimal_string, texts};
use crate::types::komoot_sync::{
    phase_verb, SelectedTour, SyncCandidate, SyncPhase, SyncRequest, SyncResponse,
};
use crate::types::trip_kind::TripKind;

verus! {

// ── What a selection asks for ────────────────────────────────────────────

/// The tours a run asks for: each candidate still on offer whose id is
/// ticked, with its kind, in the listing's order.
pub open spec fn ticked_tours(cs: Seq<SyncCandidate>, ticked: Seq<Seq<char>>) -> Seq<
    (Seq<char>, TripKind),
>
    decreases cs.len(),
{
    if cs.len() == 0 {
        Seq::empty()
    } else {
        let rest = ticked_tours(cs.drop_last(), ticked);
        if ticked.contains(cs.last().tour_id@) {
            rest.push((cs.last().tour_id@, cs.last().kind))
        } else {
            rest
        }
    }
}

/// A selected tour as the id and kind it carries.
pub open spec fn tour_view(t: SelectedTour) -> (Seq<char>, TripKind) {
    (t.tour_id@, t.kind)
}

/// What a run asks for: the candidates on offer whose ids are ticked, each
/// carrying its kind (US-29). The listing, not the ticks, decides — ids
/// still ticked from before a halted run but no longer on offer are not
/// asked for again.
pub fn selection_request(candidates: &[SyncCandidate], selected: &[String]) -> (r: SyncRequest)
    ensures
        r.tours@.map_values(|t: SelectedTour| tour_view(t)) == ticked_tours(
            candidates@,
            texts(selected@),
        ),
{
    let mut tours: Vec<SelectedTour> = Vec::new();
    let mut i: usize = 0;
    while i < candidates.len()
        invariant
            i <= candidates.len(),
            tours@.map_values(|t: SelectedTour| tour_view(t)) == ticked_tours(
                candidates@.take(i as int),
                texts(selected@),
            ),
        decreases candidates.len() - i,
    {
        let c = &candidates[i];
        assert(candidates@.take(i + 1).drop_last() =~= candidates@.take(i as int));
        assert(candidates@.take(i + 1).last() == candidates@[i as int]);
        if list_contains(selected, c.tour_id.as_str()) {
            tours.push(SelectedTour { tour_id: owned(c.tour_id.as_str()), kind: c.kind });
        }
        i = i + 1;
        assert(tours@.map_values(|t: SelectedTour| tour_view(t)) =~= ticked_tours(
            candidates@.take(i as int),
            texts(selected@),
        ));
    }
    assert(candidates@.take(i as int) =~= candidates@);
    SyncRequest { tours }
}

/// What a selection asks for is exactly the ticked tours on offer: every
/// tour it asks for is ticked and listed with that kind, and every listed
/// tour that is ticked is asked for, with its kind.
pub proof fn lemma_selection_is_the_ticked_tours_on_offer(
    cs: Seq<SyncCandidate>,
    ticked: Seq<Seq<char>>,
)
    ensures
        forall|j: int|
            #![trigger ticked_tours(cs, ticked)[j]]
            0 <= j < ticked_tours(cs, ticked).len() ==> {
                &&& ticked.contains(ticked_tours(cs, ticked)[j].0)
                &&& exists|i: int|
                    0 <= i < cs.len() && (#[trigger] cs[i]).tour_id@ == ticked_tours(
                        cs,
                        ticked,
                    )[j].0 && cs[i].kind == ticked_tours(cs, ticked)[j].1
            },
        forall|i: int|
            0 <= i < cs.len() && ticked.contains((#[trigger] cs[i]).tour_id@) ==> ticked_tours(
                cs,
                ticked,
            ).contains((cs[i].tour_id@, cs[i].kind)),
    decreases cs.len(),
{
    if cs.len() > 0 {
        let init = cs.drop_last();
        lemma_selection_is_the_ticked_tours_on_offer(init, ticked);
        let rest = ticked_tours(init, ticked);
        let all = ticked_tours(cs, ticked);
        let c = cs.last();
        assert forall|j: int| #![trigger all[j]] 0 <= j < all.len() implies {
            &&& ticked.contains(all[j].0)
            &&& exists|i: int|
                0 <= i < cs.len() && (#[trigger] cs[i]).tour_id@ == all[j].0 && cs[i].kind
                    == all[j].1
        } by {
            if j < rest.len() {
                assert(all[j] == rest[j]);
                let i = choose|i: int|
                    0 <= i < init.len() && (#[trigger] init[i]).tour_id@ == rest[j].0
                        && init[i].kind == rest[j].1;
                assert(cs[i] == init[i]);
            } else {
                assert(cs[cs.len() - 1] == c);
            }
        }
        assert forall|i: int|
            0 <= i < cs.len() && ticked.contains((#[trigger] cs[i]).tour_id@) implies all.contains(
            (cs[i].tour_id@, cs[i].kind),
        ) by {
            if i < init.len() {
                assert(cs[i] == init[i]);
                let k = choose|k: int| 0 <= k < rest.len() && rest[k] == (init[i].tour_id@, init[i].kind);
                assert(all[k] == rest[k]);
            } else {
                assert(all[all.len() - 1] == (c.tour_id@, c.kind));
            }
        }
    }
}

// ── What ticking does ────────────────────────────────────────────────────

/// Whether the header's box shows ticked: something is listed, and every
/// listed tour is ticked.
pub open spec fn every_listed_ticked(cs: Seq<SyncCandidate>, ticked: Seq<Seq<char>>) -> bool {
    cs.len() > 0 && forall|i: int| 0 <= i < cs.len() ==> ticked.contains(#[trigger] cs[i].tour_id@)
}

/// Whether the header's box shows ticked.
pub fn all_ticked(candidates: &[SyncCandidate], selected: &[String]) -> (r: bool)
    ensures
        r == every_listed_ticked(candidates@, texts(selected@)),
{
    if candidates.len() == 0 {
        return false;
    }
    let mut i: usize = 0;
    while i < candidates.len()
        invariant
            i <= candidates.len(),
            forall|j: int|
                0 <= j < i ==> texts(selected@).contains(#[trigger] candidates@[j].tour_id@),
        decreases candidates.len() - i,
    {
        if !list_contains(selected, candidates[i].tour_id.as_str()) {
            return false;
        }
        i = i + 1;
    }
    true
}

/// Tick or untick one tour. The ticks are a set: ticking a ticked tour
/// changes nothing, and unticking takes the id out entirely; a new tick goes
/// at the end and the others keep their order.
pub fn set_ticked(selected: &mut Vec<String>, tour_id: &str, checked: bool)
    ensures
        checked ==> texts(final(selected)@) == if texts(old(selected)@).contains(tour_id@) {
            texts(old(selected)@)
        } else {
            texts(old(selected)@).push(tour_id@)
        },
        !checked ==> texts(final(selected)@) == texts(old(selected)@).filter(other_than(tour_id@)),
        forall|t: Seq<char>|
            #![trigger texts(final(selected)@).contains(t)]
            texts(final(selected)@).contains(t) <==> if t == tour_id@ {
                checked
            } else {
                texts(old(selected)@).contains(t)
            },
{
    let ghost before = texts(selected@);
    set_presence(selected, tour_id, checked);
    assert forall|t: Seq<char>| #[trigger]
        texts(selected@).contains(t) <==> if t == tour_id@ {
            checked
        } else {
            before.contains(t)
        } by {
        if checked {
            lemma_contains_push(before, tour_id@, t);
        } else {
            lemma_filter_other_than(before, tour_id@, t);
        }
    }
}

/// Tick or untick every listed tour at once, as the header's box does;
/// ticks on tours not listed stay as they were.
pub fn set_all_ticked(selected: &mut Vec<String>, candidates: &[SyncCandidate], checked: bool)
    ensures
        forall|t: Seq<char>|
            #![trigger texts(final(selected)@).contains(t)]
            texts(final(selected)@).contains(t) <==> if listed_ids(candidates@).contains(t) {
                checked
            } else {
                texts(old(selected)@).contains(t)
            },
{
    let ghost before = texts(selected@);
    let mut i: usize = 0;
    while i < candidates.len()
        invariant
            i <= candidates.len(),
            forall|t: Seq<char>|
                #![trigger texts(selected@).contains(t)]
                texts(selected@).contains(t) <==> if listed_ids(candidates@.take(i as int)).contains(
                    t,
                ) {
                    checked
                } else {
                    before.contains(t)
                },
        decreases candidates.len() - i,
    {
        let ghost done = listed_ids(candidates@.take(i as int));
        set_ticked(selected, candidates[i].tour_id.as_str(), checked);
        assert(listed_ids(candidates@.take(i + 1)) =~= done.push(candidates@[i as int].tour_id@));
        i = i + 1;
        assert forall|t: Seq<char>| #[trigger]
            texts(selected@).contains(t) <==> if listed_ids(candidates@.take(i as int)).contains(
                t,
            ) {
                checked
            } else {
                before.contains(t)
            } by {
            lemma_contains_push(done, candidates@[i - 1].tour_id@, t);
        }
    }
    assert(candidates@.take(i as int) =~= candidates@);
}

/// The ids of the listed tours.
pub open spec fn listed_ids(cs: Seq<SyncCandidate>) -> Seq<Seq<char>> {
    cs.map_values(|c: SyncCandidate| c.tour_id@)
}

// ── What a finished run says ─────────────────────────────────────────────

/// The verb for the phase that failed; a failure with no phase was a pull.
pub open spec fn failed_verb(p: Option<SyncPhase>) -> Seq<char> {
    match p {
        Some(phase) => phase_verb(phase),
        None => "pull"@,
    }
}

/// The failure's words; a failure without any still says something.
pub open spec fn failed_words(m: Option<String>) -> Seq<char> {
    match m {
        Some(w) => w@,
        None => "unknown error"@,
    }
}

/// What a finished run says: the push half where it did anything, the
/// pull's count always, and the tour that halted the run, if one did.
pub open spec fn report_text(r: SyncResponse) -> Seq<char> {
    (if r.pushed > 0 {
        "Pushed "@ + decimal(r.pushed as nat) + " edit(s). "@
    } else {
        Seq::empty()
    }) + (if r.deleted > 0 {
        "Deleted "@ + decimal(r.deleted as nat) + " tour(s) on Komoot. "@
    } else {
        Seq::empty()
    }) + "Synced "@ + decimal(r.imported as nat) + " tour(s)."@ + match r.failed_tour {
        Some(t) => " Failed to "@ + failed_verb(r.failed_phase) + " tour "@ + t@ + ": "@
            + failed_words(r.failed_msg),
        None => Seq::empty(),
    }
}

/// What a finished run says (US-25): a run is not all-or-nothing, so the
/// work done before a halt is reported beside the tour that stopped it.
pub fn run_report(result: &SyncResponse) -> (r: String)
    ensures
        r@ == report_text(*result),
{
    let mut report = String::new();
    if result.pushed > 0 {
        push_str(&mut report, "Pushed ");
        let n = decimal_string(result.pushed as u64);
        push_str(&mut report, n.as_str());
        push_str(&mut report, " edit(s). ");
    }
    if result.deleted > 0 {
        push_str(&mut report, "Deleted ");
        let n = decimal_string(result.deleted as u64);
        push_str(&mut report, n.as_str());
        push_str(&mut report, " tour(s) on Komoot. ");
    }
    push_str(&mut report, "Synced ");
    let n = decimal_string(result.imported as u64);
    push_str(&mut report, n.as_str());
    push_str(&mut report, " tour(s).");
    if let Some(tour_id) = &result.failed_tour {
        push_str(&mut report, " Failed to ");
        let verb = match result.failed_phase {
            Some(phase) => phase.verb(),
            None => "pull",
        };
        push_str(&mut report, verb);
        push_str(&mut report, " tour ");
        push_str(&mut report, tour_id.as_str());
        push_str(&mut report, ": ");
        match &result.failed_msg {
            Some(m) => push_str(&mut report, m.as_str()),
            None => push_str(&mut report, "unknown error"),
        }
    }
    assert(report@ =~= report_text(*result));
    report
}

// ── What the run will also push ──────────────────────────────────────────

/// The note before a run, when the push phases have anything queued: the
/// edits and the deletions, each only when there are some.
pub open spec fn pending_text(edits: int, deletes: int) -> Option<Seq<char>> {
    let e = signed_decimal(edits) + " edit(s)"@;
    let d = signed_decimal(deletes) + " deletion(s)"@;
    let queued = if edits > 0 && deletes > 0 {
        e + " and "@ + d
    } else if edits > 0 {
        e
    } else {
        d
    };
    if edits <= 0 && deletes <= 0 {
        None
    } else {
        Some("This run will also push "@ + queued + " to Komoot."@)
    }
}

/// What the run will also push, named before the run rather than after: the
/// only place US-20's queue is ever visible. Nothing queued, no note.
pub fn pending_note(edits: i64, deletes: i64) -> (r: Option<String>)
    ensures
        match r {
            Some(s) => pending_text(edits as int, deletes as int) == Some(s@),
            None => pending_text(edits as int, deletes as int) is None,
        },
{
    if edits <= 0 && deletes <= 0 {
        return None;
    }
    let mut note = String::new();
    push_str(&mut note, "This run will also push ");
    if edits > 0 {
        let n = signed_decimal_string(edits);
        push_str(&mut note, n.as_str());
        push_str(&mut note, " edit(s)");
    }
    if edits > 0 && deletes > 0 {
        push_str(&mut note, " and ");
    }
    if deletes > 0 {
        let n = signed_decimal_string(deletes);
        push_str(&mut note, n.as_str());
        push_str(&mut note, " deletion(s)");
    }
    push_str(&mut note, " to Komoot.");
    assert(Some(note@) == pending_text(edits as int, deletes as int));
    Some(note)
}

// ── What a refused run says ──────────────────────────────────────────────

/// What a refused run says.
pub open spec fn refusal_text(err: ApiError) -> Seq<char> {
    if err.status_view() == Some(409u16) {
        err.message_view()
    } else {
        "Could not sync with Komoot: "@ + err.message_view()
    }
}

/// A refusal as the screen shows it: a run already going (409) says so in
/// the archive's own words; anything else is framed as a failed sync.
pub fn refusal(err: &ApiError) -> (r: String)
    ensures
        r@ == refusal_text(*err),
{
    if err.is_conflict() {
        err.to_string()
    } else {
        let mut s = String::new();
        push_str(&mut s, "Could not sync with Komoot: ");
        let m = err.to_string();
        push_str(&mut s, m.as_str());
        s
    }
}

// ── One run at a time ────────────────────────────────────────────────────

/// Where the sync screen's run stands: whether one is on its way, what the
/// last finished run did, and the last refusal to show.
#[derive(Debug, Clone, PartialEq)]
pub struct SyncRun {
    pub running: bool,
    pub report: Option<String>,
    pub error: Option<String>,
}

impl SyncRun {
    /// No run yet: nothing on its way, nothing to report.
    pub fn new() -> (r: Self)
        ensures
            !r.running,
            r.report is None,
            r.error is None,
    {
        SyncRun { running: false, report: None, error: None }
    }

    /// "Sync": whether to start a run now. Never while one is on its way —
    /// a second would only be refused (409) against the owner's own first
    /// run. Once started it is on its way, and the last report and refusal
    /// stop showing.
    pub fn begin(&mut self) -> (start: bool)
        ensures
            start == !old(self).running,
            start ==> final(self).running,
            start ==> final(self).report is None,
            start ==> final(self).error is None,
            !start ==> *final(self) == *old(self),
    {
        if self.running {
            return false;
        }
        self.running = true;
        self.report = None;
        self.error = None;
        true
    }

    /// The run finished: what it did is reported, and nothing is on its way.
    pub fn finished(&mut self, result: &SyncResponse)
        ensures
            !final(self).running,
            final(self).report matches Some(r) && r@ == report_text(*result),
            final(self).error == old(self).error,
    {
        self.report = Some(run_report(result));
        self.running = false;
    }

    /// The run was refused: the refusal is shown, and nothing is on its way.
    pub fn refused(&mut self, err: &ApiError)
        ensures
            !final(self).running,
            final(self).error matches Some(m) && m@ == refusal_text(*err),
            final(self).report == old(self).report,
    {
        self.error = Some(refusal(err));
        self.running = false;
    }
}

} // verus!
