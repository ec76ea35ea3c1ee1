//! Editing one commit of a content-addressed commit graph and carrying the
//! edit forward to every descendant reachable from a chosen set of references.
//!
//! The object store, the reachability walk and the reference store are
//! collaborators outside this crate: the library decides, its caller performs
//! the reads and writes and reports their results back.
pub mod commit;
pub mod edit;
pub mod error;
pub mod laws;
pub mod oid;
pub mod refs;
pub mod regraph;
pub mod remap;

pub use crate::commit::{Commit, NewCommit, Signature};
pub use crate::edit::CommitEdit;
pub use crate::error::RegraphError;
pub use crate::oid::Oid;
pub use crate::refs::{RefArg, Reference};
pub use crate::regraph::{RefUpdate, Regraph};
pub use crate::remap::RemapTable;
