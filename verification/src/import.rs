//! Importing a trip (US-43) as the two-step flow US-12 asks for: choose the
//! GPX, then confirm a name the archive has already suggested. What is
//! decided here: what the confirm step's fields start as and what they send,
//! how the photos are split into requests, and what a confirmation does when
//! the archive no longer holds the parse.

use vstd::prelude::*;

use crate::api::{ApiError, PhotoUpload};
use crate::text::{chars_of, decimal, decimal_string, owned, push_str, string_of, trim_chars, trimmed};
use crate::types::staged_import::{ConfirmImport, StagedImport};
use crate::types::trip_kind::{kind_wire, TripKind};

verus! {

/// Photos per request: small enough that the count moves often on a big
/// import, large enough that a hundred photos are not a hundred requests.
pub const MAX_BATCH_FILES: usize = 8;

/// Bytes per request, whichever limit is reached first.
pub const MAX_BATCH_BYTES: usize = 16777216;

/// How many bytes a photo carries.
pub open spec fn photo_size(p: PhotoUpload) -> nat {
    p.bytes@.len()
}

/// How many bytes the photos of a batch carry together.
pub open spec fn total_size(b: Seq<PhotoUpload>) -> nat
    decreases b.len(),
{
    if b.len() == 0 {
        0
    } else {
        total_size(b.drop_last()) + photo_size(b.last())
    }
}

/// The batches so far, the one being filled, and its bytes.
pub struct Batching {
    pub done: Seq<Seq<PhotoUpload>>,
    pub batch: Seq<PhotoUpload>,
    pub bytes: nat,
}

/// One photo added to the batching: the batch being filled is closed first
/// when it already holds as many photos as a request takes, or when this
/// photo would take it over the byte limit — unless it is empty, so a photo
/// bigger than the limit travels alone rather than not at all.
pub open spec fn batch_step(st: Batching, p: PhotoUpload) -> Batching {
    let full = st.batch.len() >= 8 || st.bytes + photo_size(p) > 16777216;
    if full && st.batch.len() > 0 {
        Batching { done: st.done.push(st.batch), batch: seq![p], bytes: photo_size(p) }
    } else {
        Batching { done: st.done, batch: st.batch.push(p), bytes: st.bytes + photo_size(p) }
    }
}

/// The batching after every photo, in order.
pub open spec fn batching(ps: Seq<PhotoUpload>) -> Batching
    decreases ps.len(),
{
    if ps.len() == 0 {
        Batching { done: Seq::empty(), batch: Seq::empty(), bytes: 0 }
    } else {
        batch_step(batching(ps.drop_last()), ps.last())
    }
}

/// The requests `ps` are split into.
pub open spec fn batches_of(ps: Seq<PhotoUpload>) -> Seq<Seq<PhotoUpload>> {
    let st = batching(ps);
    if st.batch.len() > 0 {
        st.done.push(st.batch)
    } else {
        st.done
    }
}

/// All the batches, one after the other.
pub open spec fn concat_all(bs: Seq<Seq<PhotoUpload>>) -> Seq<PhotoUpload>
    decreases bs.len(),
{
    if bs.len() == 0 {
        Seq::empty()
    } else {
        concat_all(bs.drop_last()) + bs.last()
    }
}

/// What every request respects: at least one photo, at most eight, and —
/// unless it carries a single photo — at most the byte limit.
pub open spec fn batch_ok(b: Seq<PhotoUpload>) -> bool {
    &&& 1 <= b.len() <= 8
    &&& b.len() > 1 ==> total_size(b) <= 16777216
}

/// Split the chosen photos into the requests that will carry them.
///
/// A photo bigger than the byte limit travels alone rather than being
/// refused — the limit shapes batches, it does not reject files.
pub fn batches(photos: Vec<PhotoUpload>) -> (r: Vec<Vec<PhotoUpload>>)
    ensures
        r@.map_values(|b: Vec<PhotoUpload>| b@) == batches_of(photos@),
{
    let ghost all = photos@;
    let mut photos = photos;
    assert(all.len() == photos.len());
    let mut batches: Vec<Vec<PhotoUpload>> = Vec::new();
    let mut batch: Vec<PhotoUpload> = Vec::new();
    let mut bytes: usize = 0;
    let mut k: usize = 0;
    while photos.len() > 0
        invariant
            k <= all.len(),
            all.len() <= usize::MAX,
            photos@ == all.skip(k as int),
            batches@.map_values(|b: Vec<PhotoUpload>| b@) == batching(all.take(k as int)).done,
            batch@ == batching(all.take(k as int)).batch,
            bytes == batching(all.take(k as int)).bytes,
            batch@.len() == 0 ==> bytes == 0,
            batch@.len() > 1 ==> bytes <= MAX_BATCH_BYTES,
            batch@.len() <= 8,
        decreases photos.len(),
    {
        let ghost st = batching(all.take(k as int));
        assert(all.take(k + 1).drop_last() =~= all.take(k as int));
        assert(all.take(k + 1).last() == all[k as int]);
        assert(all.skip(k as int)[0] == all[k as int]);
        let photo = photos.remove(0);
        assert(photos@ =~= all.skip(k + 1));
        let size = photo.bytes.len();
        let full = batch.len() >= MAX_BATCH_FILES || bytes > MAX_BATCH_BYTES || size
            > MAX_BATCH_BYTES - bytes;
        assert(full == (st.batch.len() >= 8 || st.bytes + size > 16777216));
        if full && batch.len() > 0 {
            let closed = batch;
            batches.push(closed);
            batch = Vec::new();
            bytes = 0;
        }
        bytes = bytes + size;
        batch.push(photo);
        k = k + 1;
        assert(batches@.map_values(|b: Vec<PhotoUpload>| b@) =~= batching(all.take(k as int)).done);
        assert(batch@ =~= batching(all.take(k as int)).batch);
    }
    assert(all.take(k as int) =~= all) by {
        assert(all.skip(k as int).len() == 0);
    }
    if batch.len() > 0 {
        batches.push(batch);
    }
    assert(batches@.map_values(|b: Vec<PhotoUpload>| b@) =~= batches_of(all));
    batches
}

proof fn lemma_total_push(b: Seq<PhotoUpload>, p: PhotoUpload)
    ensures
        total_size(b.push(p)) == total_size(b) + photo_size(p),
{
    assert(b.push(p).drop_last() =~= b);
}

proof fn lemma_batching_invariant(ps: Seq<PhotoUpload>)
    ensures
        ({
            let st = batching(ps);
            &&& concat_all(st.done) + st.batch == ps
            &&& forall|i: int| 0 <= i < st.done.len() ==> batch_ok(#[trigger] st.done[i])
            &&& st.batch.len() <= 8
            &&& st.bytes == total_size(st.batch)
            &&& st.batch.len() > 1 ==> st.bytes <= 16777216
            &&& ps.len() > 0 ==> st.batch.len() >= 1
        }),
    decreases ps.len(),
{
    if ps.len() == 0 {
        assert(concat_all(Seq::<Seq<PhotoUpload>>::empty()) + Seq::<PhotoUpload>::empty() =~= ps);
    } else {
        let prev = batching(ps.drop_last());
        lemma_batching_invariant(ps.drop_last());
        let p = ps.last();
        let st = batching(ps);
        let full = prev.batch.len() >= 8 || prev.bytes + photo_size(p) > 16777216;
        if full && prev.batch.len() > 0 {
            assert(st.done == prev.done.push(prev.batch));
            assert(st.done.drop_last() =~= prev.done);
            assert(concat_all(st.done) == concat_all(prev.done) + prev.batch);
            assert forall|i: int| 0 <= i < st.done.len() implies batch_ok(#[trigger] st.done[i]) by {
                if i < prev.done.len() {
                    assert(st.done[i] == prev.done[i]);
                }
            }
            assert(seq![p] =~= Seq::<PhotoUpload>::empty().push(p));
            lemma_total_push(Seq::<PhotoUpload>::empty(), p);
            assert(ps =~= ps.drop_last().push(p));
            assert(concat_all(st.done) + st.batch =~= ps);
        } else {
            lemma_total_push(prev.batch, p);
            assert(ps =~= ps.drop_last().push(p));
            assert(concat_all(st.done) + st.batch =~= (concat_all(prev.done) + prev.batch).push(p));
        }
    }
}

/// Batching loses no photo, duplicates none and keeps their order, and
/// every request it makes respects the limits: between one and eight
/// photos, and within the byte limit unless it carries a single photo.
pub proof fn lemma_batches(ps: Seq<PhotoUpload>)
    ensures
        concat_all(batches_of(ps)) == ps,
        forall|i: int|
            0 <= i < batches_of(ps).len() ==> batch_ok(#[trigger] batches_of(ps)[i]),
        ps.len() == 0 <==> batches_of(ps).len() == 0,
{
    lemma_batching_invariant(ps);
    let st = batching(ps);
    if st.batch.len() > 0 {
        let bs = st.done.push(st.batch);
        assert(bs.drop_last() =~= st.done);
        assert forall|i: int| 0 <= i < bs.len() implies batch_ok(#[trigger] bs[i]) by {
            if i < st.done.len() {
                assert(bs[i] == st.done[i]);
            }
        }
    } else {
        assert(concat_all(st.done) + st.batch =~= concat_all(st.done));
        if ps.len() == 0 {
            assert(st.done =~= Seq::<Seq<PhotoUpload>>::empty());
        }
    }
}

// ── The confirm step ────────────────────────────────────────────────────

/// The confirm step's fields, as strings, exactly as the inputs hold them.
#[derive(Clone, Debug, PartialEq)]
pub struct ConfirmForm {
    pub name: String,
    /// An activity's wire value, or empty for "unspecified".
    pub activity: String,
    /// A kind's wire value; never empty, the radios always have one chosen.
    pub kind: String,
    /// An IANA name, or empty to accept whatever the archive guessed.
    pub timezone: String,
}

impl ConfirmForm {
    /// The form as the archive's suggestion fills it in: the suggested name
    /// (with the track's date already in it), no activity, Recorded, and the
    /// guessed timezone.
    pub fn of(staged: &StagedImport) -> (r: Self)
        ensures
            r.name@ == staged.suggested_name@,
            r.activity@.len() == 0,
            r.kind@ == kind_wire(TripKind::Recorded),
            r.timezone@ == staged.timezone@,
    {
        ConfirmForm {
            name: owned(staged.suggested_name.as_str()),
            activity: String::new(),
            kind: owned(TripKind::Recorded.as_str()),
            timezone: owned(staged.timezone.as_str()),
        }
    }

    /// What to send. A name left blank — or left as nothing but the
    /// suggested prefix's trailing space — asks the archive for its own
    /// fallback rather than storing whitespace; every other field is sent
    /// as it is, blank included.
    pub fn to_confirm(&self) -> (r: ConfirmImport)
        ensures
            trimmed(self.name@).len() == 0 ==> r.name is None,
            trimmed(self.name@).len() > 0 ==> (r.name matches Some(n) && n@ == trimmed(
                self.name@,
            )),
            r.activity_type matches Some(a) && a@ == self.activity@,
            r.kind matches Some(k) && k@ == self.kind@,
            r.timezone matches Some(t) && t@ == self.timezone@,
    {
        let cs = chars_of(self.name.as_str());
        let t = trim_chars(cs.as_slice());
        let name = if t.len() == 0 {
            None
        } else {
            Some(string_of(t.as_slice()))
        };
        ConfirmImport {
            name,
            activity_type: Some(owned(self.activity.as_str())),
            kind: Some(owned(self.kind.as_str())),
            timezone: Some(owned(self.timezone.as_str())),
        }
    }
}

// ── Confirming against a parse that may have gone ───────────────────────

/// What a confirmation left behind: the new trip, or why there isn't one,
/// and which parked parse the screen should be holding afterwards.
#[derive(Debug, PartialEq)]
pub struct Confirmation {
    pub result: Result<i64, ApiError>,
    pub parked: Option<StagedImport>,
}

/// What to do after the archive answered the first confirmation.
#[derive(Debug, PartialEq)]
pub enum ConfirmStep {
    /// Send the chosen file again, then confirm against the parse that makes.
    Restage,
    /// Done.
    Finish(Confirmation),
}

/// The message for a parse that expired with no file left to send again.
pub open spec fn expired_text() -> Seq<char> {
    "that upload has expired — choose the file again"@
}

/// What the archive answered the first confirmation: the new trip means
/// done, with nothing parked; a refusal on its merits (anything but 404)
/// keeps the parse to retry once the owner has fixed the field; a 404 — the
/// parse swept after a long pause or lost to a restart — sends the file
/// again when the screen still holds it, and reports it expired otherwise.
pub fn after_confirm(staged: StagedImport, answer: Result<i64, ApiError>, has_file: bool) -> (r:
    ConfirmStep)
    ensures
        match answer {
            Ok(id) => r == ConfirmStep::Finish(Confirmation { result: Ok(id), parked: None }),
            Err(e) => if e.status_view() != Some(404u16) {
                r == ConfirmStep::Finish(Confirmation { result: Err(e), parked: Some(staged) })
            } else if has_file {
                r == ConfirmStep::Restage
            } else {
                r matches ConfirmStep::Finish(Confirmation { result: Err(x), parked: None })
                    && x.message_view() == expired_text() && x.status_view() is None
            },
        },
{
    match answer {
        Ok(id) => ConfirmStep::Finish(Confirmation { result: Ok(id), parked: None }),
        Err(e) => {
            if !e.is_not_found() {
                ConfirmStep::Finish(Confirmation { result: Err(e), parked: Some(staged) })
            } else if has_file {
                ConfirmStep::Restage
            } else {
                let err = ApiError::new("that upload has expired — choose the file again");
                ConfirmStep::Finish(Confirmation { result: Err(err), parked: None })
            }
        },
    }
}

/// What the archive answered sending the file again, when that was refused:
/// the attempt ends with nothing parked.
pub fn after_failed_restage(refusal: ApiError) -> (r: Confirmation)
    ensures
        r == (Confirmation { result: Err(refusal), parked: None }),
{
    Confirmation { result: Err(refusal), parked: None }
}

/// What the archive answered confirming the new parse: the trip, or the
/// refusal with the new parse kept — it is the live one now.
pub fn after_restaged_confirm(restaged: StagedImport, answer: Result<i64, ApiError>) -> (r:
    Confirmation)
    ensures
        match answer {
            Ok(id) => r == (Confirmation { result: Ok(id), parked: None }),
            Err(e) => r == (Confirmation { result: Err(e), parked: Some(restaged) }),
        },
{
    match answer {
        Ok(id) => Confirmation { result: Ok(id), parked: None },
        Err(e) => Confirmation { result: Err(e), parked: Some(restaged) },
    }
}

// ── What the photo upload says ──────────────────────────────────────────

/// How far the photos have got, once the trip itself exists.
pub open spec fn progress_text(done: nat, total: nat) -> Seq<char> {
    decimal(done) + " of "@ + decimal(total) + " photos uploaded."@
}

/// How far the photos have got: "6 of 12 photos uploaded."
pub fn progress_line(done: usize, total: usize) -> (r: String)
    ensures
        r@ == progress_text(done as nat, total as nat),
{
    let mut s = decimal_string(done as u64);
    push_str(&mut s, " of ");
    let t = decimal_string(total as u64);
    push_str(&mut s, t.as_str());
    push_str(&mut s, " photos uploaded.");
    s
}

/// A trip that was created, whose photos did not all follow it there:
/// reported as such, never as a failed import, since the trip is real.
pub open spec fn partial_text(uploaded: nat, total: nat, error: Seq<char>) -> Seq<char> {
    "The trip was created, but only "@ + decimal(uploaded) + " of "@ + decimal(total)
        + " photos were uploaded: "@ + error
}

/// What a partly uploaded import says about the photos that did not arrive.
pub fn partial_line(uploaded: usize, total: usize, error: &str) -> (r: String)
    ensures
        r@ == partial_text(uploaded as nat, total as nat, error@),
{
    let mut s = owned("The trip was created, but only ");
    let u = decimal_string(uploaded as u64);
    push_str(&mut s, u.as_str());
    push_str(&mut s, " of ");
    let t = decimal_string(total as u64);
    push_str(&mut s, t.as_str());
    push_str(&mut s, " photos were uploaded: ");
    push_str(&mut s, error);
    s
}

// ── One confirmation at a time, and the photos after it ─────────────────

/// How far the photos have got, once the trip itself exists.
#[derive(Debug, Clone, Copy, PartialEq, Eq, Structural)]
pub struct Progress {
    pub done: usize,
    pub total: usize,
}

/// A trip that was created, whose photos did not all follow it there:
/// reported rather than swallowed, and never as a failed import.
#[derive(Debug, Clone, PartialEq)]
pub struct PartialImport {
    pub trip_id: i64,
    pub uploaded: usize,
    pub total: usize,
    pub error: String,
}

/// What a refused confirmation says.
pub open spec fn import_failed_text(message: Seq<char>) -> Seq<char> {
    "Could not import this trip: "@ + message
}

/// What a file that could not be read says.
pub open spec fn unreadable_text(name: Seq<char>, problem: Seq<char>) -> Seq<char> {
    "Could not read "@ + name + ": "@ + problem
}

/// What a GPX file the archive would not take says.
pub open spec fn refused_gpx_text(message: Seq<char>) -> Seq<char> {
    "Could not read that GPX file: "@ + message
}

/// Where the import screen stands: whether a chosen file is being read and
/// sent; the chosen file, kept after staging (the archive's copy expires,
/// and sending these bytes again beats asking the owner to find the file
/// again); the parse parked with the archive, if any; whether a
/// confirmation is in flight; the last problem to show; how far the photos
/// have got; and a trip whose photos did not all arrive.
#[derive(Debug)]
pub struct ImportScreen {
    pub reading: bool,
    pub gpx: Option<(String, Vec<u8>)>,
    pub staged: Option<StagedImport>,
    pub submitting: bool,
    pub error: Option<String>,
    pub progress: Option<Progress>,
    pub partial: Option<PartialImport>,
}

impl ImportScreen {
    /// Photos go up only while the confirmation that made their trip is
    /// still in flight, and never more of them than were chosen.
    pub open spec fn wf(&self) -> bool {
        match self.progress {
            Some(p) => self.submitting && p.done <= p.total,
            None => true,
        }
    }

    /// The screen as it opens: nothing chosen, parked or in flight.
    pub fn new() -> (r: Self)
        ensures
            r.wf(),
            !r.reading,
            r.gpx is None,
            r.staged is None,
            !r.submitting,
            r.error is None,
            r.progress is None,
            r.partial is None,
    {
        ImportScreen {
            reading: false,
            gpx: None,
            staged: None,
            submitting: false,
            error: None,
            progress: None,
            partial: None,
        }
    }

    /// A file was chosen: it is being read and sent, and the last problem
    /// and any partly uploaded trip stop showing.
    pub fn file_chosen(&mut self)
        requires
            old(self).wf(),
        ensures
            final(self).wf(),
            final(self).reading,
            final(self).error is None,
            final(self).partial is None,
            final(self).gpx == old(self).gpx,
            final(self).staged == old(self).staged,
            final(self).submitting == old(self).submitting,
            final(self).progress == old(self).progress,
    {
        self.reading = true;
        self.error = None;
        self.partial = None;
    }

    /// The chosen file `name` could not be read: the problem is shown, and
    /// the owner stays on the picker.
    pub fn file_unreadable(&mut self, name: &str, problem: &str)
        requires
            old(self).wf(),
        ensures
            final(self).wf(),
            !final(self).reading,
            final(self).error matches Some(m) && m@ == unreadable_text(name@, problem@),
            final(self).gpx == old(self).gpx,
            final(self).staged == old(self).staged,
            final(self).submitting == old(self).submitting,
            final(self).progress == old(self).progress,
            final(self).partial == old(self).partial,
    {
        let mut m = owned("Could not read ");
        push_str(&mut m, name);
        push_str(&mut m, ": ");
        push_str(&mut m, problem);
        self.error = Some(m);
        self.reading = false;
    }

    /// What the archive answered the file `name` with `bytes`: its parse,
    /// now parked, with the file kept to send again; or its refusal, in its
    /// own words, with no file kept and the owner still on the picker.
    pub fn stage_answered(
        &mut self,
        name: String,
        bytes: Vec<u8>,
        answer: Result<StagedImport, ApiError>,
    )
        requires
            old(self).wf(),
        ensures
            final(self).wf(),
            !final(self).reading,
            final(self).submitting == old(self).submitting,
            final(self).progress == old(self).progress,
            final(self).partial == old(self).partial,
            match answer {
                Ok(suggestion) => {
                    &&& final(self).gpx == Some((name, bytes))
                    &&& final(self).staged == Some(suggestion)
                    &&& final(self).error == old(self).error
                },
                Err(e) => {
                    &&& final(self).gpx is None
                    &&& final(self).staged == old(self).staged
                    &&& final(self).error matches Some(m) && m@ == refused_gpx_text(
                        e.message_view(),
                    )
                },
            },
    {
        match answer {
            Ok(suggestion) => {
                self.gpx = Some((name, bytes));
                self.staged = Some(suggestion);
            },
            Err(e) => {
                self.gpx = None;
                let mut m = owned("Could not read that GPX file: ");
                let words = e.to_string();
                push_str(&mut m, words.as_str());
                self.error = Some(m);
            },
        }
        self.reading = false;
    }

    /// "Start over": the parked parse is let go — the answer is its handle,
    /// for the archive to be told — and the kept file and the last problem
    /// go with it.
    pub fn start_over(&mut self) -> (cancel: Option<i64>)
        requires
            old(self).wf(),
        ensures
            final(self).wf(),
            cancel == match old(self).staged {
                Some(s) => Some(s.staging_id),
                None => None::<i64>,
            },
            final(self).staged is None,
            final(self).gpx is None,
            final(self).error is None,
            final(self).reading == old(self).reading,
            final(self).submitting == old(self).submitting,
            final(self).progress == old(self).progress,
            final(self).partial == old(self).partial,
    {
        let cancel = match &self.staged {
            Some(s) => Some(s.staging_id),
            None => None,
        };
        self.staged = None;
        self.gpx = None;
        self.error = None;
        cancel
    }

    /// Whether the chosen file is still in hand, to send again should the
    /// archive have lost its parse.
    pub fn has_file(&self) -> (r: bool)
        ensures
            r == self.gpx is Some,
    {
        self.gpx.is_some()
    }

    /// The confirm button: whether to send the confirmation now. Only with
    /// a parse parked, and never while one is in flight: both would post the
    /// same parse, and the second, answered 404 because the first spent it,
    /// would be taken for an expired upload and imported as a second trip.
    /// Once sent it is in flight, and the last problem and any partly
    /// uploaded trip stop showing.
    pub fn begin_confirm(&mut self) -> (send: bool)
        requires
            old(self).wf(),
        ensures
            final(self).wf(),
            send == (!old(self).submitting && old(self).staged is Some),
            send ==> {
                &&& final(self).submitting
                &&& final(self).error is None
                &&& final(self).partial is None
                &&& final(self).staged == old(self).staged
                &&& final(self).progress == old(self).progress
            },
            !send ==> *final(self) == *old(self),
    {
        if self.submitting || self.staged.is_none() {
            return false;
        }
        self.submitting = true;
        self.error = None;
        self.partial = None;
        true
    }

    /// What the confirmation left behind: the parse still parked is what
    /// the screen holds from here. A new trip is where the `photos` chosen
    /// go, and the upload starts with none of them sent; the answer is that
    /// trip. A refusal is shown in its own words, ends the attempt, and
    /// sends no photo anywhere.
    pub fn confirmation_ended(&mut self, outcome: Confirmation, photos: usize) -> (upload_to:
        Option<i64>)
        requires
            old(self).wf(),
            old(self).submitting,
            old(self).progress is None,
        ensures
            final(self).wf(),
            final(self).staged == outcome.parked,
            final(self).partial == old(self).partial,
            match outcome.result {
                Ok(id) => {
                    &&& upload_to == Some(id)
                    &&& final(self).submitting
                    &&& final(self).progress == Some(Progress { done: 0, total: photos })
                    &&& final(self).error == old(self).error
                },
                Err(e) => {
                    &&& upload_to is None
                    &&& !final(self).submitting
                    &&& final(self).progress is None
                    &&& final(self).error matches Some(m) && m@ == import_failed_text(
                        e.message_view(),
                    )
                },
            },
    {
        self.staged = outcome.parked;
        match outcome.result {
            Ok(id) => {
                self.progress = Some(Progress { done: 0, total: photos });
                Some(id)
            },
            Err(e) => {
                let mut m = owned("Could not import this trip: ");
                let words = e.to_string();
                push_str(&mut m, words.as_str());
                self.error = Some(m);
                self.submitting = false;
                None
            },
        }
    }

    /// A batch of `sent` photos arrived: the count moves on.
    pub fn batch_uploaded(&mut self, sent: usize)
        requires
            old(self).wf(),
            old(self).progress matches Some(p) && sent <= p.total - p.done,
        ensures
            final(self).wf(),
            final(self).progress == Some(
                Progress {
                    done: (old(self).progress.unwrap().done + sent) as usize,
                    total: old(self).progress.unwrap().total,
                },
            ),
            final(self).submitting == old(self).submitting,
            final(self).staged == old(self).staged,
            final(self).error == old(self).error,
            final(self).partial == old(self).partial,
    {
        let p = self.progress.unwrap();
        self.progress = Some(Progress { done: p.done + sent, total: p.total });
    }

    /// A batch was refused: the trip is real, so what arrived is reported
    /// with the refusal's words, and the attempt ends.
    pub fn upload_failed(&mut self, trip_id: i64, refusal: &ApiError)
        requires
            old(self).wf(),
            old(self).progress is Some,
        ensures
            final(self).wf(),
            final(self).progress is None,
            !final(self).submitting,
            final(self).partial matches Some(x) && x.trip_id == trip_id && x.uploaded
                == old(self).progress.unwrap().done && x.total == old(self).progress.unwrap().total
                && x.error@ == refusal.message_view(),
            final(self).staged == old(self).staged,
            final(self).error == old(self).error,
    {
        let p = self.progress.unwrap();
        self.partial = Some(
            PartialImport { trip_id, uploaded: p.done, total: p.total, error: refusal.to_string() },
        );
        self.progress = None;
        self.submitting = false;
    }

    /// Every batch arrived: nothing is in flight any more, and the screen
    /// moves on to the trip.
    pub fn upload_finished(&mut self)
        requires
            old(self).wf(),
            old(self).progress is Some,
        ensures
            final(self).wf(),
            final(self).progress is None,
            !final(self).submitting,
            final(self).staged == old(self).staged,
            final(self).error == old(self).error,
            final(self).partial == old(self).partial,
    {
        self.progress = None;
        self.submitting = false;
    }
}

} // verus!
