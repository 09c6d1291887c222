//! Reconciliation core of a cloud-drive filesystem.
//!
//! The crate holds the state that sits between the kernel's request stream,
//! the local cache files and the remote object graph: the entry table, the
//! parent/child graph, the open-file handles, the inode aliases, and the
//! decision that every request, remote change and upload takes. Reading and
//! writing cache files, talking to the remote and answering the kernel are
//! left to the caller, which hands in plain values and carries out the plans
//! it gets back.

pub mod attr;
pub mod change;
pub mod checksum;
pub mod common;
pub mod drive_id;
pub mod entry;
pub mod errno;
pub mod filesystem;
pub mod graph;
pub mod handle_flags;
pub mod id_map;
pub mod inode;
pub mod laws;
pub mod lists;
pub mod metadata;
pub mod provider;
pub mod query;
pub mod request;
pub mod settings;
pub mod text;
pub mod uploader;
