use vstd::prelude::*;

pub mod text;
pub mod types;
pub mod filters;
pub mod format;
pub mod pager;
pub mod api;
pub mod import;
pub mod komoot;
pub mod edit;
pub mod bulk;
pub mod settings;
pub mod share;
pub mod stats;
pub mod placing;
pub mod photos;
pub mod list;
pub mod track;
pub mod access;
pub mod confirm;
pub mod gallery;
