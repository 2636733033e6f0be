//! Local synchronization and versioning core for n8n workflow definitions.
//!
//! The library owns the decision logic of the tool: turning workflow names
//! into directory slugs, resolving target paths, filtering documents down to
//! the fields the remote update API accepts, and driving the overwrite /
//! commit state machine of a sync operation. All I/O (HTTP, git, terminal)
//! is performed by the surrounding binary, which feeds plain values in and
//! carries actions out.

pub mod nodes;
pub mod remote;
pub mod resolve;
pub mod sanitize;
pub mod slug;
pub mod sync;
pub mod text;

pub use slug::slugify;
