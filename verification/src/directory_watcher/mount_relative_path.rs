//! Paths relative to a watchable mount.

use vstd::prelude::*;
use vstd::string::*;
use crate::paths::{diff_paths, relative_path};

verus! {

/// A directory that can be watched and its identifier.
pub struct WatchableMount {
    pub path: String,
    pub mount_id: String,
}

/// A path relative to the directory of the mount with the given identifier.
pub struct MountRelativePath<'a> {
    mount_id: &'a str,
    path: String,
}

/// Why a path is not relative to a mount.
#[derive(Debug, Clone, Copy, PartialEq, Eq, Structural)]
pub enum Error {
    PathNotInMount,
}

impl<'a> MountRelativePath<'a> {
    pub closed spec fn spec_mount_id(&self) -> Seq<char> {
        self.mount_id@
    }

    pub closed spec fn spec_path(&self) -> Seq<char> {
        self.path@
    }

    /// Writes an absolute path relative to the mount. An error where there
    /// is no such relative path.
    pub fn from_absolute(mount: &'a WatchableMount, absolute_path: &str) -> (found: Result<
        Self,
        Error,
    >)
        ensures
            match found {
                Ok(relative) => relative.spec_mount_id() == mount.mount_id@ && relative_path(
                    absolute_path@,
                    mount.path@,
                ) == Some(relative.spec_path()),
                Err(error) => relative_path(absolute_path@, mount.path@) is None,
            },
    {
        match diff_paths(absolute_path, mount.path.as_str()) {
            None => Err(Error::PathNotInMount),
            Some(path) => Ok(MountRelativePath { mount_id: mount.mount_id.as_str(), path }),
        }
    }

    pub fn path(&'a self) -> (path: &'a str)
        ensures
            path@ == self.spec_path(),
    {
        self.path.as_str()
    }

    pub fn mount_id(&self) -> (id: &'a str)
        ensures
            id@ == self.spec_mount_id(),
    {
        self.mount_id
    }
}

} // verus!
