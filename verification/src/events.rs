//! The events that the event service stores and hands to its subscribers.
//!
//! Identifiers are 128-bit numbers; points in time are whole seconds since
//! the epoch.

use vstd::prelude::*;
use vstd::string::*;

verus! {

/// Who sent a message.
#[derive(Debug, Clone, PartialEq, Eq)]
pub struct Metadata {
    pub source: String,
}

/// A subscription: its identifier, and the point in time after which events
/// are wanted, if not all of them are.
#[derive(Debug, Clone, PartialEq, Eq)]
pub struct SubscribeRequest {
    pub id: u128,
    pub from: Option<u64>,
}

pub ghost struct FileOnMountPathModel {
    pub mount_id: Seq<char>,
    pub path: Seq<char>,
}

/// A file: the identifier of its mount and its path inside the mount.
#[derive(Debug, Clone, PartialEq, Eq)]
pub struct FileOnMountPath {
    pub mount_id: String,
    pub path: String,
}

impl View for FileOnMountPath {
    type V = FileOnMountPathModel;

    open spec fn view(&self) -> FileOnMountPathModel {
        FileOnMountPathModel { mount_id: self.mount_id@, path: self.path@ }
    }
}

pub ghost enum EventKindModel {
    FileChanged { path: FileOnMountPathModel },
    FileDeleted { path: FileOnMountPathModel },
    FileCreated { path: FileOnMountPathModel },
    FileMoved { from: FileOnMountPathModel, to: FileOnMountPathModel },
}

/// What happened to a file.
#[derive(Debug, Clone, PartialEq, Eq)]
pub enum EventKind {
    FileChanged { path: FileOnMountPath },
    FileDeleted { path: FileOnMountPath },
    FileCreated { path: FileOnMountPath },
    FileMoved { from: FileOnMountPath, to: FileOnMountPath },
}

impl View for EventKind {
    type V = EventKindModel;

    open spec fn view(&self) -> EventKindModel {
        match self {
            EventKind::FileChanged { path } => EventKindModel::FileChanged { path: path@ },
            EventKind::FileDeleted { path } => EventKindModel::FileDeleted { path: path@ },
            EventKind::FileCreated { path } => EventKindModel::FileCreated { path: path@ },
            EventKind::FileMoved { from, to } => EventKindModel::FileMoved { from: from@, to: to@ },
        }
    }
}

/// An event: what happened, the identifier of the event, and when it was
/// made.
#[derive(Debug, Clone, PartialEq, Eq)]
pub struct Event {
    pub data: EventKind,
    pub id: u128,
    pub created_time: u64,
}

} // verus!
