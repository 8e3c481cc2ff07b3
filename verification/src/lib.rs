//! A directory-bookmarking library: a persistent mapping from short,
//! case-insensitive names ("marks") to filesystem paths.
//!
//! The store itself, its four operations (mark, recall, clear, list) and the
//! translation to and from its serialized on-disk form are verified; reading
//! and writing the actual file is left to the caller, which hands the file's
//! contents in and takes the new contents back out.

pub mod codec;
pub mod error;
pub mod laws;
pub mod location;
pub mod store;
