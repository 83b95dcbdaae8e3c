//! What the watcher does with a change that the file system reports.

use vstd::prelude::*;

verus! {

/// What the file system reports of a change, as far as the watcher tells
/// the kinds apart.
#[derive(Debug, Clone, Copy, PartialEq, Eq, Structural)]
pub enum ChangeKind {
    /// A change of an unknown kind.
    Any,
    /// A change of a kind without a name.
    Other,
    /// Something was created.
    Create,
    /// Something was removed.
    Remove,
    /// A rename of which both names are known.
    RenameBoth,
    /// A rename of which the old name is known.
    RenameFrom,
    /// Any other modification.
    Modify,
    /// Something was read.
    Access,
}

/// What the watcher does with a change. Paths are named by their place
/// among the paths of the change.
#[derive(Debug, Clone, Copy, PartialEq, Eq, Structural)]
pub enum Handling {
    /// The change is of no interest.
    Ignored,
    FileCreated { path: usize },
    FileModified { path: usize },
    FileDeleted { path: usize },
    FileRenamed { from: usize, to: usize },
    /// A rename came without both of its paths.
    MissingPath,
}

/// What is done with a change of the given kind that names `paths` paths.
/// A rename with both names needs both paths; every other kind goes by the
/// first path and is ignored without one.
pub open spec fn handling(kind: ChangeKind, paths: nat) -> Handling {
    match kind {
        ChangeKind::Access => Handling::Ignored,
        ChangeKind::RenameBoth => if paths >= 2 {
            Handling::FileRenamed { from: 0, to: 1 }
        } else {
            Handling::MissingPath
        },
        _ => if paths == 0 {
            Handling::Ignored
        } else {
            match kind {
                ChangeKind::Create => Handling::FileCreated { path: 0 },
                ChangeKind::Remove => Handling::FileDeleted { path: 0 },
                ChangeKind::RenameFrom => Handling::FileDeleted { path: 0 },
                _ => Handling::FileModified { path: 0 },
            }
        },
    }
}

/// Decides what to do with one change.
pub fn handle_event(kind: ChangeKind, paths: usize) -> (decision: Handling)
    ensures
        decision == handling(kind, paths as nat),
{
    match kind {
        ChangeKind::Any | ChangeKind::Other => {
            if paths > 0 {
                Handling::FileModified { path: 0 }
            } else {
                Handling::Ignored
            }
        },
        ChangeKind::Create => {
            if paths > 0 {
                Handling::FileCreated { path: 0 }
            } else {
                Handling::Ignored
            }
        },
        ChangeKind::Remove => {
            if paths > 0 {
                Handling::FileDeleted { path: 0 }
            } else {
                Handling::Ignored
            }
        },
        ChangeKind::RenameBoth => {
            if paths >= 2 {
                Handling::FileRenamed { from: 0, to: 1 }
            } else {
                Handling::MissingPath
            }
        },
        ChangeKind::RenameFrom => {
            if paths > 0 {
                Handling::FileDeleted { path: 0 }
            } else {
                Handling::Ignored
            }
        },
        ChangeKind::Modify => {
            if paths > 0 {
                Handling::FileModified { path: 0 }
            } else {
                Handling::Ignored
            }
        },
        ChangeKind::Access => Handling::Ignored,
    }
}

/// Whether a change to what lies at a path is told to anyone: changes to
/// directories are not.
pub fn is_reported(is_directory: bool) -> (yes: bool)
    ensures
        yes == !is_directory,
{
    !is_directory
}

} // verus!
