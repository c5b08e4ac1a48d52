# trip_archive_ui

The rules of the Trip Archive front end, verified with Verus: what each
screen decides, said in `requires`/`ensures` contracts and proved.

- `src/types/` — the shapes the archive's JSON API speaks (tags, Komoot
  privacy and sync, shares, staged imports, sessions) and the closed sets of
  words on the wire, each with its reading back proved.
- `src/filters.rs` — the trip list's filters as a query string and back,
  with the round trip proved for every filter that can make it.
- `src/pager.rs`, `src/list.rs` — pages of fifty rows, the counts line and
  the empty list's words.
- `src/import.rs`, `src/photos.rs` — the two-step import (one confirmation
  in flight at a time, photos sent only to the trip it made), photo
  batching (nothing lost, duplicated or reordered; every request within its
  limits), and uploads that stop part-way.
- `src/komoot.rs` (one sync run at a time), `src/bulk.rs`, `src/edit.rs`, `src/share.rs`,
  `src/settings.rs`, `src/access.rs`, `src/confirm.rs`, `src/placing.rs`,
  `src/stats.rs`, `src/gallery.rs` — each screen's decisions, as functions or small state
  machines.
- `src/format.rs`, `src/track.rs` — durations, dates, and times read in the
  offset they were recorded in: an instant's reading in an offset is its
  UTC reading moved on by the offset, with the calendar date and the RFC-3339
  parse left to the `time` crate.
- `src/api.rs` — the API's URLs and how a failed request reads.
- `app/` — the HTTP calls (reqwest), the serde shapes, the map and chart
  geometry (floating point), and a console front end that drives the
  library: sign-in, the list, import, Komoot sync and bulk tagging.
