//! Changelog derivation from version tags and commit summaries.
//!
//! The crate turns the tags of a repository and the commit summaries between
//! them into a changelog, in six steps:
//!
//! - [`source`] finds the versions: one for each tag that names a semantic
//!   version, one for the initial commit, and one for the branch tip on
//!   request;
//! - [`date`] gives each version the day of its commit;
//! - [`sequencer`] sorts the versions from the newest to the oldest, pairs
//!   each with the nearest older one, and narrows the pairs to selected
//!   versions or to the newest;
//! - [`extractor`] makes the changelog of each pair from the summaries of its
//!   commits, with [`message`] turning a summary into an entry;
//! - [`render`] writes the changelog as a Markdown document.
//!
//! Reading a repository is left to the caller, who hands over what was read
//! as plain values. Every function states what it returns in its contract,
//! over the views of the values in [`record`] and the orders in [`version`]
//! and [`identifier`].

pub mod date;
pub mod decimal;
pub mod error;
pub mod extractor;
pub mod identifier;
pub mod logging;
pub mod message;
pub mod model;
pub mod precedence;
pub mod record;
pub mod render;
pub mod sequencer;
pub mod signature;
pub mod source;
pub mod text;
pub mod version;
