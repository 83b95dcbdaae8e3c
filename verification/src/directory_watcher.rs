//! The directory watcher: paths inside watched mounts, what is told about a
//! file, and what is done when a file changes.

pub mod events;
pub mod file_status_store;
pub mod filesystem_events;
pub mod mount;
pub mod mount_relative_path;
pub mod rpc_server;
pub mod scan;
