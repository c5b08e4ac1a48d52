//! The shapes the archive's JSON API speaks, one per file: what a screen
//! sends, what it reads back, and the closed sets of words on the wire.

pub mod activity_type;
pub mod app_version;
pub mod error_response;
pub mod komoot_link;
pub mod komoot_privacy;
pub mod komoot_sync;
pub mod location_source;
pub mod session;
pub mod share;
pub mod staged_import;
pub mod tag;
pub mod trip_kind;
