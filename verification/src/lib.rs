//! An in-memory hierarchical namespace: a tree of named files and
//! directories with creation, lookup, mutation, deletion, renaming, copying
//! and search by tag or MIME type.
//!
//! Every operation is stated over a mathematical view of the tree
//! ([`model::DirectoryView`]) and proved against it.

pub mod error;
pub mod fs;
pub mod info;
pub mod laws;
pub mod lemmas;
pub mod metadata;
pub mod model;
pub mod node;
pub mod path;
pub mod search;

pub use error::FsError;
pub use fs::FileSystem;
pub use metadata::{Metadata, MetadataView, Permissions};
pub use model::{DirectoryView, FileView, NodeView};
