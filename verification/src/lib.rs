//! Incremental archive of tagged feed posts.
//!
//! The library holds the verified core of a sync tool: the data model of the
//! archive, the classifier that picks qualifying posts, the transformer that
//! turns a feed post into an archive record, the store decisions around the
//! archive file, and the pagination engine with its stop conditions and
//! merge step.

pub mod archive;
pub mod feed;
pub mod laws;
pub mod store;
pub mod sync;
