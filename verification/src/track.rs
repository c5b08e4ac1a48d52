//! The stored track's times, as the chart's readout tells them (US-62):
//! which UTC offset is in force at a point, whether the track crosses a
//! local date, and each point's time in the offset it was in.

use vstd::prelude::*;

use crate::format::{
    clock, clock_text, instant, local_reading, offset_from_seconds, readable, reading_in,
    rfc3339_instant, text_of, time_readable,
};

verus! {

/// How many of the offset changes, from the first, start at or before
/// point `index`: the changes are read in order, and the first that starts
/// after the point ends the reading.
pub open spec fn changes_before(changes: Seq<(usize, Option<i32>)>, index: int) -> nat
    decreases changes.len(),
{
    if changes.len() == 0 || changes[0].0 > index {
        0
    } else {
        1 + changes_before(changes.drop_first(), index)
    }
}

/// The offset in force at point `index`: the last change at or before it,
/// where that change names an offset at all.
pub open spec fn offset_in_force(changes: Seq<(usize, Option<i32>)>, index: int) -> Option<i32> {
    let k = changes_before(changes, index);
    if k == 0 {
        None
    } else {
        changes[k - 1].1
    }
}

/// Whether `seconds` is an offset `time` can hold: within ±25:59:59.
pub open spec fn offset_ok(seconds: i32) -> bool {
    -93599 <= seconds <= 93599
}

/// The offset in force at point `index`, in seconds east of UTC: the last
/// change at or before it. `None` — read as UTC, and labelled so — where
/// the archive could not resolve the zone, said nothing about offsets at
/// all, or named one no clock can be set to.
pub fn offset_at(changes: &[(usize, Option<i32>)], index: usize) -> (r: Option<i32>)
    ensures
        r == match offset_in_force(changes@, index as int) {
            Some(s) => if offset_ok(s) {
                Some(s)
            } else {
                None
            },
            None => None,
        },
{
    let mut k: usize = 0;
    assert(changes@.skip(0) =~= changes@);
    while k < changes.len() && changes[k].0 <= index
        invariant
            k <= changes.len(),
            forall|j: int| 0 <= j < k ==> changes@[j].0 <= index,
            changes_before(changes@, index as int) == k + changes_before(
                changes@.skip(k as int),
                index as int,
            ),
        decreases changes.len() - k,
    {
        assert(changes@.skip(k as int).drop_first() =~= changes@.skip(k + 1));
        k = k + 1;
    }
    proof {
        assert(changes@.skip(0) =~= changes@);
        if k < changes.len() {
            assert(changes@.skip(k as int)[0] == changes@[k as int]);
        }
    }
    if k == 0 {
        return None;
    }
    match changes[k - 1].1 {
        Some(seconds) => match offset_from_seconds(seconds) {
            Some(_) => Some(seconds),
            None => None,
        },
        None => None,
    }
}

/// The first of the readings that exist, if any.
pub open spec fn first_some<A>(s: Seq<Option<A>>) -> Option<A>
    decreases s.len(),
{
    if s.len() == 0 {
        None
    } else if s[0] is Some {
        s[0]
    } else {
        first_some(s.drop_first())
    }
}

/// The last of the readings that exist, if any.
pub open spec fn last_some<A>(s: Seq<Option<A>>) -> Option<A>
    decreases s.len(),
{
    if s.len() == 0 {
        None
    } else if s.last() is Some {
        s.last()
    } else {
        last_some(s.drop_last())
    }
}

/// A local date: year, month, day.
pub type LocalDate = (i32, u8, u8);

/// Whether the first and the last of the dates that exist differ.
pub open spec fn ends_differ(dates: Seq<Option<LocalDate>>) -> bool {
    match (first_some(dates), last_some(dates)) {
        (Some(a), Some(b)) => !(a.0 == b.0 && a.1 == b.1 && a.2 == b.2),
        _ => false,
    }
}

pub proof fn lemma_first_some_push<A>(s: Seq<Option<A>>, x: Option<A>)
    ensures
        first_some(s.push(x)) == if first_some(s) is Some {
            first_some(s)
        } else {
            x
        },
    decreases s.len(),
{
    if s.len() > 0 {
        assert(s.push(x).drop_first() =~= s.drop_first().push(x));
        assert(s.push(x)[0] == s[0]);
        lemma_first_some_push(s.drop_first(), x);
    } else {
        assert(s.push(x).drop_first() =~= Seq::<Option<A>>::empty());
        assert(s.push(x)[0] == x);
        assert(first_some(Seq::<Option<A>>::empty()) is None);
    }
}

/// Whether the first and last local dates that exist differ — the rule the
/// readout follows: a track that never crossed midnight is read out as a
/// clock time alone, rather than repeating its date on every reading.
pub fn first_and_last_differ(dates: &[Option<LocalDate>]) -> (r: bool)
    ensures
        r == ends_differ(dates@),
{
    let mut first: Option<LocalDate> = None;
    let mut last: Option<LocalDate> = None;
    let mut i: usize = 0;
    while i < dates.len()
        invariant
            i <= dates.len(),
            first == first_some(dates@.take(i as int)),
            last == last_some(dates@.take(i as int)),
        decreases dates.len() - i,
    {
        proof {
            assert(dates@.take(i + 1) =~= dates@.take(i as int).push(dates@[i as int]));
            lemma_first_some_push(dates@.take(i as int), dates@[i as int]);
            assert(dates@.take(i + 1).drop_last() =~= dates@.take(i as int));
        }
        if dates[i].is_some() {
            if first.is_none() {
                first = dates[i];
            }
            last = dates[i];
        }
        i = i + 1;
    }
    assert(dates@.take(i as int) =~= dates@);
    match (first, last) {
        (Some(a), Some(b)) => !(a.0 == b.0 && a.1 == b.1 && a.2 == b.2),
        _ => false,
    }
}

/// The local date a stored timestamp reads as, in the offset given (UTC
/// where there is none): none for one that is not a timestamp.
pub open spec fn local_date_in(timestamp: Seq<char>, offset: Option<i32>) -> Option<LocalDate> {
    match rfc3339_instant(timestamp) {
        Some(at) => {
            let x = reading_in(at as int, offset);
            Some((x.year, x.month, x.day))
        },
        None => None,
    }
}

/// The local date of each point's time, in the offset in force there.
pub open spec fn local_dates(timestamps: Seq<String>, changes: Seq<(usize, Option<i32>)>) -> Seq<
    Option<LocalDate>,
> {
    Seq::new(
        timestamps.len(),
        |i: int| local_date_in(timestamps[i]@, offset_at_spec(changes, i)),
    )
}

/// Whether every point's time can be read in the offset in force there:
/// each falls within the years `time` holds.
pub open spec fn track_readable(timestamps: Seq<String>, changes: Seq<(usize, Option<i32>)>) -> bool {
    forall|i: int|
        0 <= i < timestamps.len() ==> time_readable(
            (#[trigger] timestamps[i])@,
            offset_at_spec(changes, i),
        )
}

/// The local date a timestamp reads as at point `index`: in the offset in
/// force there, or in UTC.
fn local_date_at(timestamp: &str, changes: &[(usize, Option<i32>)], index: usize) -> (r: Option<
    LocalDate,
>)
    requires
        time_readable(timestamp@, offset_at_spec(changes@, index as int)),
    ensures
        r == local_date_in(timestamp@, offset_at_spec(changes@, index as int)),
{
    let at = match instant(timestamp) {
        Some(at) => at,
        None => return None,
    };
    let x = local_reading(at, offset_at(changes, index));
    Some((x.year, x.month, x.day))
}

/// Whether the track's first and last recorded times fall on different
/// local dates (US-62), each read in the offset in force at its point. A
/// track with no recorded time crosses none.
pub fn crosses_a_date(timestamps: &[String], changes: &[(usize, Option<i32>)]) -> (r: bool)
    requires
        track_readable(timestamps@, changes@),
    ensures
        r == ends_differ(local_dates(timestamps@, changes@)),
{
    let mut dates: Vec<Option<LocalDate>> = Vec::new();
    let mut i: usize = 0;
    while i < timestamps.len()
        invariant
            i <= timestamps.len(),
            track_readable(timestamps@, changes@),
            dates@ =~= local_dates(timestamps@, changes@).take(i as int),
        decreases timestamps.len() - i,
    {
        assert(time_readable(timestamps@[i as int]@, offset_at_spec(changes@, i as int)));
        let d = local_date_at(timestamps[i].as_str(), changes, i);
        dates.push(d);
        i = i + 1;
    }
    assert(dates@ =~= local_dates(timestamps@, changes@));
    first_and_last_differ(dates.as_slice())
}

/// What the readout shows of point `index`'s time: none for a point past
/// the end, or one the GPX gave no time.
pub open spec fn point_text(
    timestamps: Seq<String>,
    changes: Seq<(usize, Option<i32>)>,
    index: int,
    with_date: bool,
) -> Option<Seq<char>> {
    if 0 <= index < timestamps.len() {
        match rfc3339_instant(timestamps[index]@) {
            Some(at) => Some(clock_text(at as int, offset_at_spec(changes, index), with_date)),
            None => None,
        }
    } else {
        None
    }
}

/// When point `index` was recorded, read in the offset in force there
/// (US-62): none for a point the GPX gave no time.
pub fn point_time(
    timestamps: &[String],
    changes: &[(usize, Option<i32>)],
    index: usize,
    with_date: bool,
) -> (r: Option<String>)
    requires
        index < timestamps@.len() ==> time_readable(
            timestamps@[index as int]@,
            offset_at_spec(changes@, index as int),
        ),
    ensures
        text_of(r) == point_text(timestamps@, changes@, index as int, with_date),
        index < timestamps@.len() && timestamps@[index as int]@.len() == 0 ==> r is None,
{
    if index >= timestamps.len() {
        return None;
    }
    let at = match instant(timestamps[index].as_str()) {
        Some(at) => at,
        None => return None,
    };
    Some(clock(at, offset_at(changes, index), with_date))
}

/// The offset in force at a point, where it is one a clock can be set to.
pub open spec fn offset_at_spec(changes: Seq<(usize, Option<i32>)>, index: int) -> Option<i32> {
    match offset_in_force(changes, index) {
        Some(s) => if offset_ok(s) {
            Some(s)
        } else {
            None
        },
        None => None,
    }
}

/// When each of the chart's `samples` points was recorded, as the readout
/// tells it (US-62): each in the offset in force at its point, dated when
/// `with_date` (the track crosses a local date, [`crosses_a_date`]), and
/// none for a point the GPX gave no time.
pub fn readout_times(
    timestamps: &[String],
    changes: &[(usize, Option<i32>)],
    samples: usize,
    with_date: bool,
) -> (r: Vec<Option<String>>)
    requires
        track_readable(timestamps@, changes@),
    ensures
        r@.len() == samples,
        forall|i: int|
            0 <= i < samples ==> text_of(#[trigger] r@[i]) == point_text(
                timestamps@,
                changes@,
                i,
                with_date,
            ),
{
    let mut times: Vec<Option<String>> = Vec::new();
    let mut i: usize = 0;
    while i < samples
        invariant
            i <= samples,
            track_readable(timestamps@, changes@),
            times@.len() == i,
            forall|j: int|
                0 <= j < i ==> text_of(#[trigger] times@[j]) == point_text(
                    timestamps@,
                    changes@,
                    j,
                    with_date,
                ),
        decreases samples - i,
    {
        if i < timestamps.len() {
            assert(time_readable(timestamps@[i as int]@, offset_at_spec(changes@, i as int)));
        }
        let t = point_time(timestamps, changes, i, with_date);
        times.push(t);
        i = i + 1;
    }
    times
}

/// Whether every point's time can be read in the offset in force there.
pub fn track_is_readable(timestamps: &[String], changes: &[(usize, Option<i32>)]) -> (r: bool)
    ensures
        r == track_readable(timestamps@, changes@),
{
    let mut i: usize = 0;
    while i < timestamps.len()
        invariant
            i <= timestamps.len(),
            forall|j: int|
                0 <= j < i ==> time_readable(
                    (#[trigger] timestamps@[j])@,
                    offset_at_spec(changes@, j),
                ),
        decreases timestamps.len() - i,
    {
        if !readable(timestamps[i].as_str(), offset_at(changes, i)) {
            return false;
        }
        i = i + 1;
    }
    true
}

/// The times the readout under the chart tells for its `samples` points:
/// whether they carry their dates (the track crosses a local date), and
/// each point's time. None for a track with a time that falls, in the
/// offset in force at its point, outside the years `time` holds.
pub fn readout(timestamps: &[String], changes: &[(usize, Option<i32>)], samples: usize) -> (r:
    Option<(bool, Vec<Option<String>>)>)
    ensures
        r is None <==> !track_readable(timestamps@, changes@),
        r matches Some((with_date, times)) ==> {
            &&& with_date == ends_differ(local_dates(timestamps@, changes@))
            &&& times@.len() == samples
            &&& forall|i: int|
                0 <= i < samples ==> text_of(#[trigger] times@[i]) == point_text(
                    timestamps@,
                    changes@,
                    i,
                    with_date,
                )
        },
{
    if !track_is_readable(timestamps, changes) {
        return None;
    }
    let with_date = crosses_a_date(timestamps, changes);
    Some((with_date, readout_times(timestamps, changes, samples, with_date)))
}

/// Whether any sample has a time to read out (US-62). A track with none
/// drops the readout's time rather than show a dash that can never fill.
pub fn has_times(times: &[Option<String>]) -> (r: bool)
    ensures
        r == exists|i: int| 0 <= i < times@.len() && (#[trigger] times@[i]) is Some,
{
    let mut i: usize = 0;
    while i < times.len()
        invariant
            i <= times.len(),
            forall|j: int| 0 <= j < i ==> (#[trigger] times@[j]) is None,
        decreases times.len() - i,
    {
        if times[i].is_some() {
            return true;
        }
        i = i + 1;
    }
    false
}

} // verus!
