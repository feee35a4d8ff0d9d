//! Core of a game-pack recompression tool: a ZIP-format archive of images,
//! audio, video and an XML manifest is rewritten into a smaller archive by
//! replacing each media entry with a recompressed version, while the
//! manifest's cross-references are kept consistent with renamed assets.
//!
//! This crate holds the verified logic of that pipeline — entry
//! classification, per-kind compression dispatch with its accept/reject
//! policy, rename tracking, the manifest reference rewriter, and the run
//! statistics. The codecs themselves and all archive I/O live outside and
//! are seen here only through their reported sizes and outcomes.

pub mod classify;
pub mod errors;
pub mod pipeline;
pub mod policy;
pub mod rename;
pub mod rewrite;
pub mod stats;
pub mod text;
pub mod textenc;
