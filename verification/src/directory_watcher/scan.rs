//! What the first scan of a mount tells about the files it finds.

use vstd::prelude::*;
use vstd::string::*;
use crate::directory_watcher::file_status_store::FileStatusSyncResult;
use crate::events::{EventKind, EventKindModel, FileOnMountPath, FileOnMountPathModel};
use crate::platform::mounts::PathInside;

verus! {

/// The event that a scanned file gives rise to: a file that the store did
/// not know was created, one that it knew otherwise was changed, and one
/// that it knew as it is gives none.
pub open spec fn scan_event(status: FileStatusSyncResult, file: FileOnMountPathModel) -> Option<
    EventKindModel,
> {
    match status {
        FileStatusSyncResult::Created => Some(EventKindModel::FileCreated { path: file }),
        FileStatusSyncResult::Modified => Some(EventKindModel::FileChanged { path: file }),
        FileStatusSyncResult::NotModified => None,
    }
}

/// Decides what to tell about a scanned file once the store has answered.
pub fn sync_file(status: FileStatusSyncResult, path: &PathInside) -> (event: Option<EventKind>)
    ensures
        match event {
            Some(kind) => scan_event(
                status,
                FileOnMountPathModel { mount_id: path@.mount_id, path: path@.path },
            ) == Some(kind@),
            None => status is NotModified,
        },
{
    match status {
        FileStatusSyncResult::Created => Some(
            EventKind::FileCreated {
                path: FileOnMountPath {
                    path: path.path().to_owned(),
                    mount_id: path.mount_id().to_owned(),
                },
            },
        ),
        FileStatusSyncResult::Modified => Some(
            EventKind::FileChanged {
                path: FileOnMountPath {
                    path: path.path().to_owned(),
                    mount_id: path.mount_id().to_owned(),
                },
            },
        ),
        FileStatusSyncResult::NotModified => None,
    }
}

} // verus!
