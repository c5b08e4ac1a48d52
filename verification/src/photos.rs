//! A trip's photos as the screens use them: where each one's image is, and
//! how photos go up to the archive — a batch at a time, so none sends them
//! all at once (US-54), and so an upload that stops part-way knows exactly
//! which photos arrived.

use vstd::prelude::*;

use crate::api::PhotoUpload;
use crate::import::{batches, batches_of, concat_all, lemma_batches};
use crate::format::{
    clock, clock_text, instant, local_reading, offset_from_seconds, readable, reading_in,
    rfc3339_instant, text_of, time_readable,
};
use crate::text::{chars_of, owned, push_str, starts_with};
use crate::track::{first_some, lemma_first_some_push, LocalDate};

verus! {

/// Whether `s` begins with `prefix`.
pub open spec fn begins(s: Seq<char>, prefix: Seq<char>) -> bool {
    prefix.len() <= s.len() && s.subrange(0, prefix.len() as int) == prefix
}

/// A photo's URL as the screens load it: one that is already absolute as
/// it is, a path against the archive it came from.
pub open spec fn absolute_url(base_url: Seq<char>, url: Seq<char>) -> Seq<char> {
    if begins(url, "http://"@) || begins(url, "https://"@) {
        url
    } else {
        base_url + url
    }
}

/// A photo's URL, resolved against the archive it came from. On Android the
/// app is not served from the archive at all, so a bare path would resolve
/// against the webview; and a URL a blob store handed back already absolute
/// is kept, since resolving it again would corrupt it.
pub fn absolute(base_url: &str, url: &str) -> (r: String)
    ensures
        r@ == absolute_url(base_url@, url@),
{
    let cs = chars_of(url);
    let http = chars_of("http://");
    let https = chars_of("https://");
    if starts_with(cs.as_slice(), http.as_slice()) || starts_with(cs.as_slice(), https.as_slice()) {
        return owned(url);
    }
    let mut s = owned(base_url);
    push_str(&mut s, url);
    s
}

/// Resolving a URL twice against an archive with an absolute address
/// changes nothing the second time: once resolved, a URL is absolute, and an
/// absolute URL is kept as it is.
pub proof fn lemma_resolving_twice_is_resolving_once(base_url: Seq<char>, url: Seq<char>)
    requires
        begins(base_url, "http://"@) || begins(base_url, "https://"@),
    ensures
        absolute_url(base_url, absolute_url(base_url, url)) == absolute_url(base_url, url),
{
    let once = absolute_url(base_url, url);
    if !(begins(url, "http://"@) || begins(url, "https://"@)) {
        assert(once == base_url + url);
        if begins(base_url, "http://"@) {
            assert(once.subrange(0, "http://"@.len() as int) =~= base_url.subrange(
                0,
                "http://"@.len() as int,
            ));
        } else {
            assert(once.subrange(0, "https://"@.len() as int) =~= base_url.subrange(
                0,
                "https://"@.len() as int,
            ));
        }
    }
}

// ── A tap in a marker's popup (US-62) ────────────────────────────────────

/// A photo tapped in a marker's popup, as the map reports it: which marker,
/// and where in its group.
#[derive(Clone, Copy, Debug, PartialEq, Eq)]
pub struct PopupTap {
    pub marker: usize,
    pub photo: usize,
}

/// The set a popup tap opens the viewer on — that marker's group of photos,
/// in the popup's order — and where in it to start. `None` for a tap that
/// names a marker or a photo the map no longer has: the tap and the markers
/// arrive on different paths, and a popup drawn for the previous photos can
/// answer after they have changed.
pub fn tapped<'a, T>(groups: &'a [Vec<T>], tap: PopupTap) -> (r: Option<(&'a Vec<T>, usize)>)
    ensures
        (tap.marker < groups@.len() && tap.photo < groups@[tap.marker as int]@.len()) ==> r == Some(
            (&groups@[tap.marker as int], tap.photo),
        ),
        !(tap.marker < groups@.len() && tap.photo < groups@[tap.marker as int]@.len()) ==> r is None,
{
    if tap.marker >= groups.len() {
        return None;
    }
    let group = &groups[tap.marker];
    if tap.photo < group.len() {
        Some((group, tap.photo))
    } else {
        None
    }
}

// ── Uploading a batch at a time ──────────────────────────────────────────

/// The batches' contents.
pub open spec fn batch_views(bs: Seq<Vec<PhotoUpload>>) -> Seq<Seq<PhotoUpload>> {
    bs.map_values(|b: Vec<PhotoUpload>| b@)
}

/// An upload under way: the batches the photos were split into, how many
/// of them the archive has taken, and how many photos that is.
pub struct Upload {
    batches: Vec<Vec<PhotoUpload>>,
    sent: usize,
    uploaded: usize,
}

impl Upload {
    /// The batches, in the order they go up.
    pub closed spec fn batches_view(&self) -> Seq<Seq<PhotoUpload>> {
        batch_views(self.batches@)
    }

    /// How many batches the archive has taken.
    pub closed spec fn sent_view(&self) -> nat {
        self.sent as nat
    }

    /// How many photos the archive has taken.
    pub closed spec fn uploaded_view(&self) -> nat {
        self.uploaded as nat
    }

    /// What every state keeps: no more batches sent than there are, and the
    /// photo count is exactly the photos of the batches sent.
    pub closed spec fn wf(&self) -> bool {
        &&& self.sent <= self.batches@.len()
        &&& self.uploaded == concat_all(self.batches_view().take(self.sent as int)).len()
        &&& concat_all(self.batches_view()).len() <= usize::MAX
    }

    /// An upload of `photos`, split as [`batches`] splits them, nothing sent.
    pub fn start(photos: Vec<PhotoUpload>) -> (r: Self)
        ensures
            r.wf(),
            r.batches_view() == batches_of(photos@),
            r.sent_view() == 0,
            r.uploaded_view() == 0,
    {
        let ghost all = photos@;
        assert(all.len() == photos.len());
        let bs = batches(photos);
        proof {
            lemma_batches(all);
            assert(batch_views(bs@) == batches_of(all));
            assert(batch_views(bs@).take(0) =~= Seq::<Seq<PhotoUpload>>::empty());
            assert(concat_all(Seq::<Seq<PhotoUpload>>::empty()) =~= Seq::<PhotoUpload>::empty());
        }
        Upload { batches: bs, sent: 0, uploaded: 0 }
    }

    /// The next batch to send, or none when every batch has gone.
    pub fn next_batch(&self) -> (r: Option<&Vec<PhotoUpload>>)
        requires
            self.wf(),
        ensures
            match r {
                Some(b) => self.sent_view() < self.batches_view().len() && b@
                    == self.batches_view()[self.sent_view() as int],
                None => self.sent_view() == self.batches_view().len(),
            },
    {
        if self.sent < self.batches.len() {
            Some(&self.batches[self.sent])
        } else {
            None
        }
    }

    /// The archive took the next batch: it counts as sent, and its photos
    /// as uploaded.
    pub fn batch_sent(&mut self)
        requires
            old(self).wf(),
            old(self).sent_view() < old(self).batches_view().len(),
        ensures
            final(self).wf(),
            final(self).batches_view() == old(self).batches_view(),
            final(self).sent_view() == old(self).sent_view() + 1,
            final(self).uploaded_view() == old(self).uploaded_view() + old(
                self,
            ).batches_view()[old(self).sent_view() as int].len(),
    {
        let ghost bs = self.batches_view();
        let ghost k = self.sent as int;
        proof {
            assert(bs.take(k + 1).drop_last() =~= bs.take(k));
            assert(bs.take(k + 1).last() == bs[k]);
            lemma_concat_split(bs, k + 1);
        }
        assert(self.sent < self.batches.len());
        let size = self.batches[self.sent].len();
        self.uploaded = self.uploaded + size;
        self.sent = self.sent + 1;
    }

    /// A batch was refused: the upload stops there, and what it leaves is
    /// how many photos the archive took and, in order, the photos of the
    /// batches that did not go.
    pub fn refused(self) -> (r: (usize, Vec<PhotoUpload>))
        requires
            self.wf(),
        ensures
            r.0 == self.uploaded_view(),
            r.1@ == concat_all(self.batches_view().skip(self.sent_view() as int)),
    {
        let Upload { batches, sent, uploaded } = self;
        let mut bs = batches;
        let ghost all = batch_views(bs@);
        let count: usize = bs.len();
        assert(all.len() == count);
        assert(all.skip(0) =~= all);
        let mut rest: Vec<PhotoUpload> = Vec::new();
        let mut i: usize = 0;
        while bs.len() > 0
            invariant
                i <= all.len(),
                sent <= all.len(),
                all.len() <= usize::MAX,
                batch_views(bs@) == all.skip(i as int),
                i <= sent ==> rest@.len() == 0,
                i > sent ==> rest@ == concat_all(all.subrange(sent as int, i as int)),
            decreases bs.len(),
        {
            let ghost before = bs@;
            let mut b = bs.remove(0);
            proof {
                assert(batch_views(before).len() == before.len());
                assert(before.len() == all.len() - i);
                assert(b@ == all[i as int]) by {
                    assert(batch_views(before)[0] == all.skip(i as int)[0]);
                }
                assert(bs@.len() == before.len() - 1);
                assert forall|k: int| 0 <= k < bs@.len() implies #[trigger] batch_views(bs@)[k]
                    == all.skip(i + 1)[k] by {
                    assert(bs@[k] == before[k + 1]);
                    assert(batch_views(before)[k + 1] == all.skip(i as int)[k + 1]);
                }
                assert(batch_views(bs@) =~= all.skip(i + 1));
            }
            if i >= sent {
                let ghost prior = rest@;
                rest.append(&mut b);
                proof {
                    let sub = all.subrange(sent as int, i + 1);
                    assert(sub.drop_last() =~= all.subrange(sent as int, i as int));
                    assert(sub.last() == all[i as int]);
                    if i == sent {
                        assert(all.subrange(sent as int, i as int) =~= Seq::<Seq<PhotoUpload>>::empty());
                        assert(prior =~= Seq::<PhotoUpload>::empty());
                    }
                    assert(concat_all(sub) == concat_all(sub.drop_last()) + sub.last());
                    assert(rest@ =~= concat_all(sub));
                }
            }
            i = i + 1;
        }
        proof {
            assert(i == all.len());
            if sent as int == all.len() {
                assert(all.skip(sent as int) =~= Seq::<Seq<PhotoUpload>>::empty());
            } else {
                assert(all.subrange(sent as int, i as int) =~= all.skip(sent as int));
            }
        }
        (uploaded, rest)
    }

    /// How many photos the archive has taken so far.
    pub fn uploaded(&self) -> (r: usize)
        ensures
            r == self.uploaded_view(),
    {
        self.uploaded
    }
}

/// Concatenating the first `k` batches and then the rest gives all of them.
pub proof fn lemma_concat_split(bs: Seq<Seq<PhotoUpload>>, k: int)
    requires
        0 <= k <= bs.len(),
    ensures
        concat_all(bs) == concat_all(bs.take(k)) + concat_all(bs.skip(k)),
    decreases bs.len(),
{
    if k == bs.len() {
        assert(bs.take(k) =~= bs);
        assert(bs.skip(k) =~= Seq::<Seq<PhotoUpload>>::empty());
        assert(concat_all(bs) + Seq::<PhotoUpload>::empty() =~= concat_all(bs));
    } else {
        let init = bs.drop_last();
        lemma_concat_split(init, k);
        assert(init.take(k) =~= bs.take(k));
        assert(bs.skip(k).drop_last() =~= init.skip(k));
        assert(bs.skip(k).last() == bs.last());
        assert(concat_all(bs.take(k)) + concat_all(bs.skip(k)) =~= concat_all(init.take(k))
            + concat_all(init.skip(k)) + bs.last());
    }
}

/// The photos still chosen after a stopped upload: those the archive did
/// not take. What did not arrive stays chosen, so the owner presses the
/// button again rather than picking every file a second time — and what
/// did arrive does not go up twice.
pub fn unsent(chosen: Vec<PhotoUpload>, uploaded: usize) -> (r: Vec<PhotoUpload>)
    requires
        uploaded <= chosen.len(),
    ensures
        r@ == chosen@.skip(uploaded as int),
{
    let mut chosen = chosen;
    let mut rest: Vec<PhotoUpload> = Vec::new();
    let ghost all = chosen@;
    assert(all.len() == chosen.len());
    let mut i: usize = 0;
    while chosen.len() > 0
        invariant
            i <= all.len(),
            chosen@ == all.skip(i as int),
            i <= uploaded ==> rest@.len() == 0,
            i > uploaded ==> rest@ == all.subrange(uploaded as int, i as int),
            uploaded <= all.len(),
            all.len() <= usize::MAX,
        decreases chosen.len(),
    {
        let photo = chosen.remove(0);
        assert(chosen@ =~= all.skip(i + 1));
        if i >= uploaded {
            rest.push(photo);
            assert(rest@ =~= all.subrange(uploaded as int, i + 1));
        }
        i = i + 1;
    }
    assert(all.skip(i as int).len() == 0);
    if i == uploaded {
        assert(all.skip(uploaded as int) =~= Seq::<PhotoUpload>::empty());
    } else {
        assert(all.subrange(uploaded as int, i as int) =~= all.skip(uploaded as int));
    }
    rest
}

/// An upload that stopped after `k` batches leaves exactly the photos of
/// the remaining batches unsent: the photo count it reports is the length
/// of a prefix of the chosen photos, and what follows that prefix is the
/// rest of the batches, in order.
pub proof fn lemma_stopped_upload_leaves_the_rest(ps: Seq<PhotoUpload>, k: int)
    requires
        0 <= k <= batches_of(ps).len(),
    ensures
        concat_all(batches_of(ps).take(k)).len() <= ps.len(),
        ps.take(concat_all(batches_of(ps).take(k)).len() as int) == concat_all(
            batches_of(ps).take(k),
        ),
        ps.skip(concat_all(batches_of(ps).take(k)).len() as int) == concat_all(
            batches_of(ps).skip(k),
        ),
{
    lemma_batches(ps);
    let bs = batches_of(ps);
    lemma_concat_split(bs, k);
    let a = concat_all(bs.take(k));
    let b = concat_all(bs.skip(k));
    assert(ps == a + b);
    assert(ps.take(a.len() as int) =~= a);
    assert(ps.skip(a.len() as int) =~= b);
}

// ── When a photo was taken (US-62) ──────────────────────────────────────

/// A photo's own offset, where the clock can be set to it.
pub open spec fn photo_offset(seconds: Option<i32>) -> Option<i32> {
    match seconds {
        Some(s) => if -93599 <= s <= 93599 {
            Some(s)
        } else {
            None
        },
        None => None,
    }
}

/// A photo's own offset, where `time` can hold it; none reads as UTC.
fn offset_of(seconds: Option<i32>) -> (r: Option<i32>)
    ensures
        r == photo_offset(seconds),
{
    match seconds {
        Some(s) => match offset_from_seconds(s) {
            Some(_) => Some(s),
            None => None,
        },
        None => None,
    }
}

/// Whether a photo's time, read in its own offset (in UTC where it has
/// none), falls within the years `time` holds; one with no time has none
/// to read.
pub open spec fn photo_readable(photo: (Option<String>, Option<i32>)) -> bool {
    match photo.0 {
        Some(t) => time_readable(t@, photo_offset(photo.1)),
        None => true,
    }
}

/// What a photo's caption says: when it was taken, in its own offset (in
/// UTC where it has none), and none for a photo with no time.
pub open spec fn caption_text(taken_at: Option<Seq<char>>, taken_offset_secs: Option<i32>, with_date: bool) -> Option<Seq<char>> {
    match taken_at {
        Some(t) => match rfc3339_instant(t) {
            Some(at) => Some(clock_text(at as int, photo_offset(taken_offset_secs), with_date)),
            None => None,
        },
        None => None,
    }
}

/// A text kept an `Option`, as its view.
pub open spec fn opt_view(t: Option<&str>) -> Option<Seq<char>> {
    match t {
        Some(t) => Some(t@),
        None => None,
    }
}

/// When a photo was taken, in the zone it was taken in, through the same
/// rendering as the readout under the chart (US-62). `None` for a photo
/// whose EXIF named no time: no caption, rather than a dash that claims a
/// missing value.
pub fn caption(taken_at: Option<&str>, taken_offset_secs: Option<i32>, with_date: bool) -> (r:
    Option<String>)
    requires
        taken_at matches Some(t) ==> time_readable(t@, photo_offset(taken_offset_secs)),
    ensures
        text_of(r) == caption_text(opt_view(taken_at), taken_offset_secs, with_date),
        (taken_at matches Some(t) && t@.len() == 0) ==> r is None,
{
    let text = match taken_at {
        Some(t) => t,
        None => return None,
    };
    let at = match instant(text) {
        Some(at) => at,
        None => return None,
    };
    Some(clock(at, offset_of(taken_offset_secs), with_date))
}

/// Whether some date that exists differs from the first one that does.
pub open spec fn any_differs_from_first(dates: Seq<Option<LocalDate>>) -> bool {
    match first_some(dates) {
        Some(f) => exists|i: int| 0 <= i < dates.len() && (#[trigger] dates[i]) is Some && dates[i]
            != Some(f),
        None => false,
    }
}

/// Whether some date differs from the first one — the rule the captions
/// follow: only photos spanning more than one local date say which.
pub fn some_date_differs(dates: &[Option<LocalDate>]) -> (r: bool)
    ensures
        r == any_differs_from_first(dates@),
{
    let mut i: usize = 0;
    let mut first: Option<LocalDate> = None;
    while i < dates.len()
        invariant
            i <= dates.len(),
            first == first_some(dates@.take(i as int)),
            forall|j: int| 0 <= j < i && dates@[j] is Some ==> first is Some,
            forall|j: int|
                #![trigger dates@[j]]
                0 <= j < i && dates@[j] is Some ==> dates@[j] == first,
        decreases dates.len() - i,
    {
        proof {
            assert(dates@.take(i + 1) =~= dates@.take(i as int).push(dates@[i as int]));
            lemma_first_some_push(dates@.take(i as int), dates@[i as int]);
        }
        match dates[i] {
            Some(d) => match first {
                Some(f) => {
                    if !(d.0 == f.0 && d.1 == f.1 && d.2 == f.2) {
                        proof {
                            lemma_first_some_prefix(dates@, i as int);
                        }
                        assert(dates@[i as int] != Some(f));
                        return true;
                    }
                },
                None => {
                    first = Some(d);
                },
            },
            None => {},
        }
        i = i + 1;
    }
    proof {
        assert(dates@.take(i as int) =~= dates@);
    }
    false
}

/// The first date of a whole sequence is the first date of any prefix
/// that already holds one.
proof fn lemma_first_some_prefix(s: Seq<Option<LocalDate>>, i: int)
    requires
        0 <= i <= s.len(),
        first_some(s.take(i)) is Some,
    ensures
        first_some(s) == first_some(s.take(i)),
    decreases i,
{
    if i > 0 && s.len() > 0 {
        if s[0] is Some {
            assert(s.take(i)[0] == s[0]);
        } else {
            assert(s.take(i)[0] == s[0]);
            assert(s.take(i).drop_first() =~= s.drop_first().take(i - 1));
            lemma_first_some_prefix(s.drop_first(), i - 1);
        }
    }
}

/// A photo's local date, read in its own offset (in UTC where it has
/// none): none for one with no time.
pub open spec fn taken_date_spec(photo: (Option<String>, Option<i32>)) -> Option<LocalDate> {
    match photo.0 {
        Some(t) => match rfc3339_instant(t@) {
            Some(at) => {
                let x = reading_in(at as int, photo_offset(photo.1));
                Some((x.year, x.month, x.day))
            },
            None => None,
        },
        None => None,
    }
}

/// A photo's local date: read in its own offset, or in UTC.
fn taken_date(taken_at: &Option<String>, taken_offset_secs: Option<i32>) -> (r: Option<LocalDate>)
    requires
        photo_readable((*taken_at, taken_offset_secs)),
    ensures
        r == taken_date_spec((*taken_at, taken_offset_secs)),
{
    let text = match taken_at {
        Some(t) => t,
        None => return None,
    };
    let at = match instant(text.as_str()) {
        Some(at) => at,
        None => return None,
    };
    let x = local_reading(at, offset_of(taken_offset_secs));
    Some((x.year, x.month, x.day))
}

/// Whether every photo's time can be read in its own offset.
pub open spec fn photos_readable(photos: Seq<(Option<String>, Option<i32>)>) -> bool {
    forall|i: int| 0 <= i < photos.len() ==> photo_readable(#[trigger] photos[i])
}

/// The local date of each photo.
pub open spec fn taken_dates(photos: Seq<(Option<String>, Option<i32>)>) -> Seq<Option<LocalDate>> {
    photos.map_values(|p: (Option<String>, Option<i32>)| taken_date_spec(p))
}

/// Whether the photos were taken on more than one local date — then every
/// caption says which, and otherwise none repeats it (US-62). Each photo is
/// its capture time and its offset; one with no time has no date.
pub fn captions_need_dates(photos: &[(Option<String>, Option<i32>)]) -> (r: bool)
    requires
        photos_readable(photos@),
    ensures
        r == any_differs_from_first(taken_dates(photos@)),
{
    let mut dates: Vec<Option<LocalDate>> = Vec::new();
    let mut i: usize = 0;
    while i < photos.len()
        invariant
            i <= photos.len(),
            photos_readable(photos@),
            dates@ =~= taken_dates(photos@).take(i as int),
        decreases photos.len() - i,
    {
        assert(photo_readable(photos@[i as int]));
        let d = taken_date(&photos[i].0, photos[i].1);
        dates.push(d);
        i = i + 1;
    }
    assert(dates@ =~= taken_dates(photos@));
    some_date_differs(dates.as_slice())
}

/// Whether a photo's time can be read in its own offset.
fn photo_is_readable(taken_at: &Option<String>, taken_offset_secs: Option<i32>) -> (r: bool)
    ensures
        r == photo_readable((*taken_at, taken_offset_secs)),
{
    match taken_at {
        Some(t) => readable(t.as_str(), offset_of(taken_offset_secs)),
        None => true,
    }
}

/// The captions of a trip's photos, in order: each says when its photo was
/// taken, in its own zone, dated when the photos span more than one local
/// date ([`captions_need_dates`]). None where a photo's time falls, in its
/// own offset, outside the years `time` holds.
pub fn captions(photos: &[(Option<String>, Option<i32>)]) -> (r: Option<Vec<Option<String>>>)
    ensures
        r is None <==> !photos_readable(photos@),
        r matches Some(cs) ==> {
            &&& cs@.len() == photos@.len()
            &&& forall|i: int|
                0 <= i < photos@.len() ==> text_of(#[trigger] cs@[i]) == caption_text(
                    match photos@[i].0 {
                        Some(t) => Some(t@),
                        None => None,
                    },
                    photos@[i].1,
                    any_differs_from_first(taken_dates(photos@)),
                )
        },
{
    let mut i: usize = 0;
    while i < photos.len()
        invariant
            i <= photos.len(),
            forall|j: int| 0 <= j < i ==> photo_readable(#[trigger] photos@[j]),
        decreases photos.len() - i,
    {
        if !photo_is_readable(&photos[i].0, photos[i].1) {
            return None;
        }
        i = i + 1;
    }
    let with_date = captions_need_dates(photos);
    let mut cs: Vec<Option<String>> = Vec::new();
    let mut k: usize = 0;
    while k < photos.len()
        invariant
            k <= photos.len(),
            photos_readable(photos@),
            with_date == any_differs_from_first(taken_dates(photos@)),
            cs@.len() == k,
            forall|j: int|
                0 <= j < k ==> text_of(#[trigger] cs@[j]) == caption_text(
                    match photos@[j].0 {
                        Some(t) => Some(t@),
                        None => None,
                    },
                    photos@[j].1,
                    with_date,
                ),
        decreases photos.len() - k,
    {
        assert(photo_readable(photos@[k as int]));
        let c = match &photos[k].0 {
            Some(t) => caption(Some(t.as_str()), photos[k].1, with_date),
            None => None,
        };
        cs.push(c);
        k = k + 1;
    }
    Some(cs)
}

} // verus!
