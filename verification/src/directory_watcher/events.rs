//! What the watcher tells about a file: that it was created, changed,
//! deleted or moved.

use vstd::prelude::*;
use vstd::string::*;
use crate::directory_watcher::mount::PathInside;
use crate::events::{FileOnMountPath, FileOnMountPathModel};

verus! {

pub ghost struct FileEventModel {
    pub id: u128,
    pub created_timestamp: i64,
    pub event_type: Seq<char>,
    pub path: Seq<char>,
    pub mount_id: Seq<char>,
}

/// A file was created.
#[derive(Copy, Clone, Debug)]
pub struct FileCreated<'a> {
    id: u128,
    created_timestamp: i64,
    event_type: &'a str,
    path: &'a str,
    mount_id: &'a str,
}

impl<'a> View for FileCreated<'a> {
    type V = FileEventModel;

    closed spec fn view(&self) -> FileEventModel {
        FileEventModel {
            id: self.id,
            created_timestamp: self.created_timestamp,
            event_type: self.event_type@,
            path: self.path@,
            mount_id: self.mount_id@,
        }
    }
}

impl<'a> FileCreated<'a> {
    /// The event with the given identifier, made at the given time, for
    /// the file at `path`.
    pub fn new(path: &'a PathInside, id: u128, created_timestamp: i64) -> (event: Self)
        ensures
            event@ == (FileEventModel {
                id,
                created_timestamp,
                event_type: "file.status.created"@,
                path: path@.path,
                mount_id: path@.mount.id,
            }),
    {
        Self {
            id,
            created_timestamp,
            event_type: "file.status.created",
            path: path.path(),
            mount_id: path.mount_id(),
        }
    }

    pub fn event_type(&self) -> (event_type: &'a str)
        ensures
            event_type@ == self@.event_type,
    {
        self.event_type
    }

    pub fn path(&self) -> (path: &'a str)
        ensures
            path@ == self@.path,
    {
        self.path
    }

    pub fn mount_id(&self) -> (mount_id: &'a str)
        ensures
            mount_id@ == self@.mount_id,
    {
        self.mount_id
    }
}

/// A file was changed.
#[derive(Copy, Clone, Debug)]
pub struct FileChanged<'a> {
    id: u128,
    created_timestamp: i64,
    event_type: &'a str,
    path: &'a str,
    mount_id: &'a str,
}

impl<'a> View for FileChanged<'a> {
    type V = FileEventModel;

    closed spec fn view(&self) -> FileEventModel {
        FileEventModel {
            id: self.id,
            created_timestamp: self.created_timestamp,
            event_type: self.event_type@,
            path: self.path@,
            mount_id: self.mount_id@,
        }
    }
}

impl<'a> FileChanged<'a> {
    /// The event with the given identifier, made at the given time, for
    /// the file at `path`.
    pub fn new(path: &'a PathInside, id: u128, created_timestamp: i64) -> (event: Self)
        ensures
            event@ == (FileEventModel {
                id,
                created_timestamp,
                event_type: "file.status.changed"@,
                path: path@.path,
                mount_id: path@.mount.id,
            }),
    {
        Self {
            id,
            created_timestamp,
            event_type: "file.status.changed",
            path: path.path(),
            mount_id: path.mount_id(),
        }
    }

    pub fn event_type(&self) -> (event_type: &'a str)
        ensures
            event_type@ == self@.event_type,
    {
        self.event_type
    }

    pub fn path(&self) -> (path: &'a str)
        ensures
            path@ == self@.path,
    {
        self.path
    }

    pub fn mount_id(&self) -> (mount_id: &'a str)
        ensures
            mount_id@ == self@.mount_id,
    {
        self.mount_id
    }
}

/// A file was deleted.
#[derive(Copy, Clone, Debug)]
pub struct FileDeleted<'a> {
    id: u128,
    created_timestamp: i64,
    event_type: &'a str,
    path: &'a str,
    mount_id: &'a str,
}

impl<'a> View for FileDeleted<'a> {
    type V = FileEventModel;

    closed spec fn view(&self) -> FileEventModel {
        FileEventModel {
            id: self.id,
            created_timestamp: self.created_timestamp,
            event_type: self.event_type@,
            path: self.path@,
            mount_id: self.mount_id@,
        }
    }
}

impl<'a> FileDeleted<'a> {
    /// The event with the given identifier, made at the given time, for
    /// the file at `path`.
    pub fn new(path: &'a PathInside, id: u128, created_timestamp: i64) -> (event: Self)
        ensures
            event@ == (FileEventModel {
                id,
                created_timestamp,
                event_type: "file.status.deleted"@,
                path: path@.path,
                mount_id: path@.mount.id,
            }),
    {
        Self {
            id,
            created_timestamp,
            event_type: "file.status.deleted",
            path: path.path(),
            mount_id: path.mount_id(),
        }
    }

    pub fn event_type(&self) -> (event_type: &'a str)
        ensures
            event_type@ == self@.event_type,
    {
        self.event_type
    }

    pub fn path(&self) -> (path: &'a str)
        ensures
            path@ == self@.path,
    {
        self.path
    }

    pub fn mount_id(&self) -> (mount_id: &'a str)
        ensures
            mount_id@ == self@.mount_id,
    {
        self.mount_id
    }
}

pub ghost struct FileMovedModel {
    pub id: u128,
    pub created_timestamp: i64,
    pub event_type: Seq<char>,
    pub from: Seq<char>,
    pub to: Seq<char>,
    pub mount_id: Seq<char>,
}

/// A file was moved inside its mount.
#[derive(Copy, Clone, Debug)]
pub struct FileMoved<'a> {
    id: u128,
    created_timestamp: i64,
    event_type: &'a str,
    from: &'a str,
    to: &'a str,
    mount_id: &'a str,
}

impl<'a> View for FileMoved<'a> {
    type V = FileMovedModel;

    closed spec fn view(&self) -> FileMovedModel {
        FileMovedModel {
            id: self.id,
            created_timestamp: self.created_timestamp,
            event_type: self.event_type@,
            from: self.from@,
            to: self.to@,
            mount_id: self.mount_id@,
        }
    }
}

impl<'a> FileMoved<'a> {
    /// The event with the given identifier, made at the given time, for the
    /// file that went from `from` to `to`. Both lie in one mount.
    pub fn new(from: &'a PathInside, to: &'a PathInside, id: u128, created_timestamp: i64) -> (event:
        Self)
        requires
            from@.mount.id == to@.mount.id,
        ensures
            event@ == (FileMovedModel {
                id,
                created_timestamp,
                event_type: "file.status.moved"@,
                from: from@.path,
                to: to@.path,
                mount_id: from@.mount.id,
            }),
    {
        Self {
            id,
            created_timestamp,
            event_type: "file.status.moved",
            from: from.path(),
            to: to.path(),
            mount_id: from.mount_id(),
        }
    }

    pub fn event_type(&self) -> (event_type: &'a str)
        ensures
            event_type@ == self@.event_type,
    {
        self.event_type
    }

    pub fn from(&self) -> (from: &'a str)
        ensures
            from@ == self@.from,
    {
        self.from
    }

    pub fn to(&self) -> (to: &'a str)
        ensures
            to@ == self@.to,
    {
        self.to
    }

    pub fn mount_id(&self) -> (mount_id: &'a str)
        ensures
            mount_id@ == self@.mount_id,
    {
        self.mount_id
    }
}

/// The file that a path inside a mount names.
pub fn file_on_mount(path: &PathInside) -> (file: FileOnMountPath)
    ensures
        file@ == (FileOnMountPathModel { mount_id: path@.mount.id, path: path@.path }),
{
    FileOnMountPath { path: path.path().to_owned(), mount_id: path.mount_id().to_owned() }
}

} // verus!
