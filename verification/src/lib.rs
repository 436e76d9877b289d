//! A catalogue of instances: named working directories, each known by a
//! 128-bit identifier and listed in one index file.
//!
//! The library decides; it never touches the disk. Lookups take what a read
//! of the index file gave. Mutations are small state machines: each hands out
//! the next [`manager::Action`] to perform and takes back the
//! [`manager::Event`] that reports how it went.
//!
//! - [`ident`]: identifiers and their canonical text.
//! - [`model`]: an entry, the index, and what appending, removing and
//!   looking up do to it.
//! - [`layout`]: the names of the files and directories.
//! - [`error`]: what can go wrong.
//! - [`manager`]: creating, deleting and looking up instances.
//! - [`state`]: the configuration and the cached index.
//! - [`protocol`]: what the operations do to a disk and to the cache, proved
//!   over a model of both.

pub mod error;
pub mod ident;
pub mod layout;
pub mod manager;
pub mod model;
pub mod protocol;
pub mod state;
