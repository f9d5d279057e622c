//! Assembly of diagnostic event records from command-line values.
//!
//! The crate derives every field of an [`event::Event`] from optional
//! textual inputs, merges `key:value` metadata, turns the tail of a log
//! file into breadcrumbs and steers the replay of stored event files.
//! All of it is verified; the contracts speak of the views of the types.

pub mod breadcrumb;
pub mod dict;
pub mod error;
pub mod event;
pub mod level;
pub mod meta;
pub mod pair;
pub mod replay;
pub mod text;
pub mod timestamp;
pub mod user;
