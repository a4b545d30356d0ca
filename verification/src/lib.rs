//! Client-side orchestration over a remote hierarchical file-storage service.
//!
//! The library holds the verified core of the tool: building listing queries,
//! draining paginated listings, classifying a file's sharing state from its
//! permission identifiers (flagging deprecated grants for revocation), walking
//! a folder tree depth-first, and building the public-read sharing request.
//! All remote calls are performed by an unverified driver that feeds results
//! back into the state machines defined here.

pub mod classify;
pub mod entry;
pub mod model;
pub mod pager;
pub mod query;
pub mod share;
pub mod walker;

pub use entry::Entry;
pub use entry::EntryV;
pub use entry::FileInfo;
pub use entry::FileInfoV;
