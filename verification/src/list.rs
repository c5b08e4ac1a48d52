//! The list screen's words about itself (US-61/US-63/US-13): the counts
//! line over the table, and what an empty list says.

use vstd::prelude::*;

use crate::filters::{narrows, Filters};
use crate::format::{page_place, page_place_text, trip_counts, trip_counts_text};
use crate::pager::{page_count, page_end, page_range, page_start, pages};
use crate::text::push_str;
use crate::types::trip_kind::TripKind;

verus! {

/// The counts line: how many trips show and how many the tab holds, and —
/// once the list is longer than a page — which rows this page shows. An
/// empty tab has none; the empty state says it better.
pub open spec fn counts_line_text(shown: nat, total: nat, kind: TripKind, page: nat) -> Option<
    Seq<char>,
> {
    if total == 0 {
        None
    } else if pages(shown) > 1 {
        Some(trip_counts_text(shown, total, kind) + " · "@ + page_place_text(
            page_start(page, shown),
            page_end(page, shown),
        ))
    } else {
        Some(trip_counts_text(shown, total, kind))
    }
}

/// How many trips the list shows, how many the tab holds in all (US-61),
/// and — once the list is longer than a page — which of them this page
/// shows (US-63).
pub fn counts_line(shown: usize, total: usize, kind: TripKind, page: usize) -> (r: Option<String>)
    ensures
        match r {
            Some(s) => counts_line_text(shown as nat, total as nat, kind, page as nat) == Some(s@),
            None => counts_line_text(shown as nat, total as nat, kind, page as nat) is None,
        },
{
    if total == 0 {
        return None;
    }
    let mut line = trip_counts(shown, total, kind);
    if page_count(shown) > 1 {
        let rows = page_range(page, shown);
        proof {
            crate::pager::lemma_pages_tile(shown as nat);
        }
        assert(page_start(page as nat, shown as nat) < page_end(page as nat, shown as nat));
        let place = page_place(rows);
        push_str(&mut line, " · ");
        push_str(&mut line, place.as_str());
    }
    Some(line)
}

/// What an empty list says.
pub open spec fn empty_text(narrowed: bool, kind: TripKind) -> Seq<char> {
    if narrowed {
        "No trips match your filters."@
    } else if kind == TripKind::Planned {
        "No planned trips yet."@
    } else {
        "No trips yet. Import your first trip."@
    }
}

/// What an empty list says: nothing matches the filters, or nothing has
/// been imported (or planned) yet (US-13).
pub fn empty_message(filters: &Filters) -> (r: &'static str)
    ensures
        r@ == empty_text(narrows(filters@), filters.kind),
{
    if filters.any_set() {
        "No trips match your filters."
    } else if filters.kind == TripKind::Planned {
        "No planned trips yet."
    } else {
        "No trips yet. Import your first trip."
    }
}

/// The query that counts the whole tab (US-61): every filter but the tab
/// dropped.
pub fn tab_total_query(kind: TripKind) -> (r: String)
    ensures
        r@ == crate::filters::query_of(crate::filters::FiltersView { kind, ..crate::filters::default_view() }),
{
    let mut all_of_this_tab = Filters::default();
    all_of_this_tab.kind = kind;
    assert(all_of_this_tab@ == (crate::filters::FiltersView { kind, ..crate::filters::default_view() }));
    all_of_this_tab.to_query()
}

} // verus!
