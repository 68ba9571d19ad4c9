//! Where flakes come from: a closed set of source kinds, their locator
//! strings, the record form in which lists of them are stored, and the
//! decisions around resolving a nixpkgs channel to a commit.

pub mod attrs;
pub mod source;
pub mod record;
pub mod format;
pub mod channel;
pub mod sources_file;
