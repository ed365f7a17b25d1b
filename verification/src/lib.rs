//! Reconstructs a two-row event schedule into entries and picks, for a given
//! instant, the entry that is running and the one that follows it.

pub mod block;
pub mod entry;
pub mod instant;
pub mod rows;
pub mod timeline;
