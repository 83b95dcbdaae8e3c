//! What the file system agent reports to the directory watcher.

use vstd::prelude::*;

verus! {

/// What the file system tells of a change, as far as the agent tells the
/// kinds apart.
#[derive(Debug, Clone, Copy, PartialEq, Eq, Structural)]
pub enum WatchedKind {
    /// A file was created.
    CreateFile,
    /// Something was renamed and the new name is known.
    RenameTo,
    /// A file was removed.
    RemoveFile,
    /// Something was renamed and the old name is known.
    RenameFrom,
    /// Something was renamed and both names are known.
    RenameBoth,
    /// Any other modification.
    Modify,
    /// Anything else.
    Other,
}

/// What the agent reports. Paths are named by their place among the paths
/// of the change.
#[derive(Debug, Clone, Copy, PartialEq, Eq, Structural)]
pub enum Report {
    Created { path: usize },
    Deleted { path: usize },
    Moved { from: usize, to: usize },
    Modified { path: usize },
}

/// The report for the path at place `path` of a change that is reported
/// path by path.
pub open spec fn report_for(kind: WatchedKind, path: usize) -> Report {
    match kind {
        WatchedKind::CreateFile => Report::Created { path },
        WatchedKind::RenameTo => Report::Created { path },
        WatchedKind::RemoveFile => Report::Deleted { path },
        WatchedKind::RenameFrom => Report::Deleted { path },
        _ => Report::Modified { path },
    }
}

/// The reports for a change: one move for a rename with both names, nothing
/// for what is no change to a file, and one report for each path otherwise.
pub open spec fn reports_for(kind: WatchedKind, paths: nat) -> Seq<Report> {
    match kind {
        WatchedKind::Other => Seq::empty(),
        WatchedKind::RenameBoth => seq![Report::Moved { from: 0, to: 1 }],
        _ => Seq::new(paths, |i: int| report_for(kind, i as usize)),
    }
}

/// Decides what to report for a change with `paths` paths. A rename with
/// both names has both paths.
pub fn reports(kind: WatchedKind, paths: usize) -> (reports: Vec<Report>)
    requires
        kind is RenameBoth ==> paths >= 2,
    ensures
        reports@ == reports_for(kind, paths as nat),
{
    let mut reports: Vec<Report> = Vec::new();
    match kind {
        WatchedKind::Other => {},
        WatchedKind::RenameBoth => {
            reports.push(Report::Moved { from: 0, to: 1 });
        },
        _ => {
            let mut i: usize = 0;
            while i < paths
                invariant
                    i <= paths,
                    !(kind is Other) && !(kind is RenameBoth),
                    reports.len() == i,
                    forall|j: int| 0 <= j < i ==> reports[j] == report_for(kind, j as usize),
                decreases paths - i,
            {
                let report = match kind {
                    WatchedKind::CreateFile | WatchedKind::RenameTo => Report::Created { path: i },
                    WatchedKind::RemoveFile | WatchedKind::RenameFrom => Report::Deleted { path: i },
                    _ => Report::Modified { path: i },
                };
                reports.push(report);
                i += 1;
            }
        },
    }
    assert(reports@ =~= reports_for(kind, paths as nat));
    reports
}

} // verus!
