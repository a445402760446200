//! Verified core of a small project-cleaning toolkit: the cleaners that
//! recognise and tidy build trees, the decisions behind running their
//! commands and deletions, and the content-hashed directory trees of a git
//! folder.

pub mod text;
pub mod hex;
pub mod digest;
pub mod branches;
pub mod listing;
pub mod tree;
pub mod keys;
pub mod cleaner;
