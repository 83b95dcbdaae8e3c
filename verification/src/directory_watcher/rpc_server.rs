//! The handler of the watcher for a change that an agent reports.
//!
//! The handler works in steps. After each step the program tells how far
//! the handler has come, and the handler says what to do next: read the file
//! back from the agent, bring the store up to date, send the event, or
//! finish. It finishes with the answer to the agent, which holds the
//! contents of the file that the handler has read.

use vstd::prelude::*;
use vstd::string::*;
use crate::directory_watcher::file_status_store::FileStatusSyncResult;
use crate::events::{EventKind, EventKindModel, FileOnMountPath, FileOnMountPathModel};
use crate::platform::mounts::{PathInside, PathInsideModel};

verus! {

/// The side of the watcher that answers calls of the event service: there
/// are none.
pub struct EventsReverseRpc {}

pub ghost enum FilesystemEventKindModel {
    Created,
    Modified,
    Moved { to: Seq<char> },
    Deleted,
}

/// What an agent saw happen to a file.
#[derive(Debug, Clone, PartialEq, Eq)]
pub enum FilesystemEventKind {
    Created,
    Modified,
    Moved { to: String },
    Deleted,
}

impl View for FilesystemEventKind {
    type V = FilesystemEventKindModel;

    open spec fn view(&self) -> FilesystemEventKindModel {
        match self {
            FilesystemEventKind::Created => FilesystemEventKindModel::Created,
            FilesystemEventKind::Modified => FilesystemEventKindModel::Modified,
            FilesystemEventKind::Moved { to } => FilesystemEventKindModel::Moved { to: to@ },
            FilesystemEventKind::Deleted => FilesystemEventKindModel::Deleted,
        }
    }
}

pub ghost struct FilesystemEventModel {
    pub kind: FilesystemEventKindModel,
    pub mount_id: Seq<char>,
    pub path: Seq<char>,
    pub timestamp: u64,
}

/// A change that an agent reports: what happened, to which file of which
/// mount, and when, in seconds since the epoch.
#[derive(Debug, Clone, PartialEq, Eq)]
pub struct FilesystemEvent {
    pub kind: FilesystemEventKind,
    pub mount_id: String,
    pub path: String,
    pub timestamp: u64,
}

impl View for FilesystemEvent {
    type V = FilesystemEventModel;

    open spec fn view(&self) -> FilesystemEventModel {
        FilesystemEventModel {
            kind: self.kind@,
            mount_id: self.mount_id@,
            path: self.path@,
            timestamp: self.timestamp,
        }
    }
}

/// The error of the handler. It says nothing of its cause.
#[derive(Debug, Clone, Copy, PartialEq, Eq, Structural)]
pub struct Error {}

pub ghost enum ProgressModel {
    Received,
    FileRead(Seq<u8>),
    Synced(FileStatusSyncResult, Seq<u8>),
    Renamed,
    Deleted,
    EventSent(Seq<u8>),
    Failed,
}

/// How far the handler has come. The contents of the file, once the agent
/// has handed them back, go along with every later state.
#[derive(Debug, Clone, PartialEq, Eq)]
pub enum Progress {
    /// The change has been received and nothing has been done yet.
    Received,
    /// The agent has handed back the contents of the file.
    FileRead(Vec<u8>),
    /// The store has been brought up to date and has answered.
    Synced(FileStatusSyncResult, Vec<u8>),
    /// The store has renamed the file.
    Renamed,
    /// The store has deleted the file.
    Deleted,
    /// The event service has taken the event.
    EventSent(Vec<u8>),
    /// The last step has failed.
    Failed,
}

impl View for Progress {
    type V = ProgressModel;

    open spec fn view(&self) -> ProgressModel {
        match self {
            Progress::Received => ProgressModel::Received,
            Progress::FileRead(contents) => ProgressModel::FileRead(contents@),
            Progress::Synced(status, contents) => ProgressModel::Synced(*status, contents@),
            Progress::Renamed => ProgressModel::Renamed,
            Progress::Deleted => ProgressModel::Deleted,
            Progress::EventSent(contents) => ProgressModel::EventSent(contents@),
            Progress::Failed => ProgressModel::Failed,
        }
    }
}

pub ghost enum StepModel {
    ReadFile { path: Seq<char> },
    Sync { path: PathInsideModel, modified_at: i64, contents: Seq<u8> },
    Rename { from: PathInsideModel, to: PathInsideModel },
    Delete { path: PathInsideModel },
    SendEvent { data: EventKindModel, created_time: u64, contents: Seq<u8> },
    Finished(Result<Seq<u8>, Error>),
}

/// What the handler does next. A step that follows the reading of the file
/// carries its contents, which come back with the progress that the step
/// leads to.
#[derive(Debug, PartialEq, Eq)]
pub enum Step {
    /// Ask the agent for the file at `path`.
    ReadFile { path: String },
    /// Tell the store that the file was modified at `modified_at`.
    Sync { path: PathInside, modified_at: i64, contents: Vec<u8> },
    /// Tell the store that the file has another name.
    Rename { from: PathInside, to: PathInside },
    /// Tell the store that the file is gone.
    Delete { path: PathInside },
    /// Send the event to the event service.
    SendEvent { data: EventKind, created_time: u64, contents: Vec<u8> },
    /// Answer the agent: with the contents of the file that was read, with
    /// nothing where none was read, or with the error.
    Finished(Result<Vec<u8>, Error>),
}

pub open spec fn answer_view(answer: Result<Vec<u8>, Error>) -> Result<Seq<u8>, Error> {
    match answer {
        Ok(contents) => Ok(contents@),
        Err(error) => Err(error),
    }
}

impl View for Step {
    type V = StepModel;

    open spec fn view(&self) -> StepModel {
        match self {
            Step::ReadFile { path } => StepModel::ReadFile { path: path@ },
            Step::Sync { path, modified_at, contents } => StepModel::Sync {
                path: path@,
                modified_at: *modified_at,
                contents: contents@,
            },
            Step::Rename { from, to } => StepModel::Rename { from: from@, to: to@ },
            Step::Delete { path } => StepModel::Delete { path: path@ },
            Step::SendEvent { data, created_time, contents } => StepModel::SendEvent {
                data: data@,
                created_time: *created_time,
                contents: contents@,
            },
            Step::Finished(answer) => StepModel::Finished(answer_view(*answer)),
        }
    }
}

/// The first second that `time::OffsetDateTime` holds: the start of the
/// year -9999.
pub open spec fn first_unix_timestamp() -> int {
    -377_705_116_800
}

/// The last second that `time::OffsetDateTime` holds: the end of the year
/// 9999.
pub open spec fn last_unix_timestamp() -> int {
    253_402_300_799
}

/// Whether the number of seconds is a point in time that the date library
/// holds.
pub open spec fn is_unix_timestamp(seconds: i64) -> bool {
    first_unix_timestamp() <= seconds <= last_unix_timestamp()
}

/// Calls `time::OffsetDateTime::from_unix_timestamp` and tells whether it
/// succeeded. The function takes the seconds from the first second of its
/// smallest date to the last second of its largest one; built as it is
/// here, without the feature `large-dates`, these are the years -9999 and
/// 9999.
#[verifier::external_body]
fn valid_unix_timestamp(seconds: i64) -> (valid: bool)
    ensures
        valid == is_unix_timestamp(seconds),
{
    time::OffsetDateTime::from_unix_timestamp(seconds).is_ok()
}

/// Whether the file of a change is read back from the agent.
pub open spec fn reads_file(event: FilesystemEventModel) -> bool {
    event.kind is Created || event.kind is Modified
}

/// The file of the change.
pub open spec fn changed_file(event: FilesystemEventModel) -> FileOnMountPathModel {
    FileOnMountPathModel { mount_id: event.mount_id, path: event.path }
}

/// The place of the file of the change in its mount.
pub open spec fn changed_path(event: FilesystemEventModel) -> PathInsideModel {
    PathInsideModel { mount_id: event.mount_id, path: event.path }
}

/// The next step of the handler.
///
/// A created or modified file is read back from the agent, then brought to
/// the store, then told to the event service: as created where the store
/// did not know it, as changed otherwise. A moved file is renamed in the
/// store and told as moved; a deleted file is deleted in the store and told
/// as deleted. When the event is sent the handler answers the agent with
/// the contents of the file that it read, and with nothing where it read
/// none. It answers with an error when a step has failed, when the time of
/// a created or modified file is no point in time, and when the progress
/// does not belong to the change.
pub open spec fn next_step(event: FilesystemEventModel, progress: ProgressModel) -> StepModel {
    match progress {
        ProgressModel::Received => match event.kind {
            FilesystemEventKindModel::Created => StepModel::ReadFile { path: event.path },
            FilesystemEventKindModel::Modified => StepModel::ReadFile { path: event.path },
            FilesystemEventKindModel::Moved { to } => StepModel::Rename {
                from: changed_path(event),
                to: PathInsideModel { mount_id: event.mount_id, path: to },
            },
            FilesystemEventKindModel::Deleted => StepModel::Delete { path: changed_path(event) },
        },
        ProgressModel::FileRead(contents) => if reads_file(event) && event.timestamp <= i64::MAX
            && is_unix_timestamp(event.timestamp as i64) {
            StepModel::Sync {
                path: changed_path(event),
                modified_at: event.timestamp as i64,
                contents,
            }
        } else {
            StepModel::Finished(Err(Error {  }))
        },
        ProgressModel::Synced(status, contents) => if reads_file(event) {
            StepModel::SendEvent {
                data: if status is Created {
                    EventKindModel::FileCreated { path: changed_file(event) }
                } else {
                    EventKindModel::FileChanged { path: changed_file(event) }
                },
                created_time: event.timestamp,
                contents,
            }
        } else {
            StepModel::Finished(Err(Error {  }))
        },
        ProgressModel::Renamed => match event.kind {
            FilesystemEventKindModel::Moved { to } => StepModel::SendEvent {
                data: EventKindModel::FileMoved {
                    from: changed_file(event),
                    to: FileOnMountPathModel { mount_id: event.mount_id, path: to },
                },
                created_time: event.timestamp,
                contents: Seq::empty(),
            },
            _ => StepModel::Finished(Err(Error {  })),
        },
        ProgressModel::Deleted => if event.kind is Deleted {
            StepModel::SendEvent {
                data: EventKindModel::FileDeleted { path: changed_file(event) },
                created_time: event.timestamp,
                contents: Seq::empty(),
            }
        } else {
            StepModel::Finished(Err(Error {  }))
        },
        ProgressModel::EventSent(contents) => StepModel::Finished(
            Ok(
                if reads_file(event) {
                    contents
                } else {
                    Seq::empty()
                },
            ),
        ),
        ProgressModel::Failed => StepModel::Finished(Err(Error {  })),
    }
}

fn path_of(event: &FilesystemEvent) -> (path: PathInside)
    ensures
        path@ == changed_path(event@),
{
    PathInside::new(event.mount_id.clone(), event.path.clone())
}

fn file_of(event: &FilesystemEvent) -> (file: FileOnMountPath)
    ensures
        file@ == changed_file(event@),
{
    FileOnMountPath { mount_id: event.mount_id.clone(), path: event.path.clone() }
}

fn is_read(event: &FilesystemEvent) -> (yes: bool)
    ensures
        yes == reads_file(event@),
{
    match &event.kind {
        FilesystemEventKind::Created => true,
        FilesystemEventKind::Modified => true,
        _ => false,
    }
}

/// Says what the handler of a reported change does next.
pub fn file_changed(event: &FilesystemEvent, progress: Progress) -> (step: Step)
    ensures
        step@ == next_step(event@, progress@),
{
    match progress {
        Progress::Received => match &event.kind {
            FilesystemEventKind::Created => Step::ReadFile { path: event.path.clone() },
            FilesystemEventKind::Modified => Step::ReadFile { path: event.path.clone() },
            FilesystemEventKind::Moved { to } => Step::Rename {
                from: path_of(event),
                to: PathInside::new(event.mount_id.clone(), to.clone()),
            },
            FilesystemEventKind::Deleted => Step::Delete { path: path_of(event) },
        },
        Progress::FileRead(contents) => {
            if is_read(event) && event.timestamp <= 0x7fff_ffff_ffff_ffffu64 {
                let modified_at = event.timestamp as i64;
                if valid_unix_timestamp(modified_at) {
                    return Step::Sync { path: path_of(event), modified_at, contents };
                }
            }
            Step::Finished(Err(Error {  }))
        },
        Progress::Synced(status, contents) => {
            if is_read(event) {
                let data = match status {
                    FileStatusSyncResult::Created => EventKind::FileCreated { path: file_of(event) },
                    _ => EventKind::FileChanged { path: file_of(event) },
                };
                Step::SendEvent { data, created_time: event.timestamp, contents }
            } else {
                Step::Finished(Err(Error {  }))
            }
        },
        Progress::Renamed => match &event.kind {
            FilesystemEventKind::Moved { to } => Step::SendEvent {
                data: EventKind::FileMoved {
                    from: file_of(event),
                    to: FileOnMountPath { mount_id: event.mount_id.clone(), path: to.clone() },
                },
                created_time: event.timestamp,
                contents: Vec::new(),
            },
            _ => Step::Finished(Err(Error {  })),
        },
        Progress::Deleted => match &event.kind {
            FilesystemEventKind::Deleted => Step::SendEvent {
                data: EventKind::FileDeleted { path: file_of(event) },
                created_time: event.timestamp,
                contents: Vec::new(),
            },
            _ => Step::Finished(Err(Error {  })),
        },
        Progress::EventSent(contents) => {
            if is_read(event) {
                Step::Finished(Ok(contents))
            } else {
                Step::Finished(Ok(Vec::new()))
            }
        },
        Progress::Failed => Step::Finished(Err(Error {  })),
    }
}

/// The handler reads the file once, and answers with what it read: for a
/// created or modified file whose time is a point in time, the first step
/// asks the agent for the file at the path of the change, no later step
/// asks again, and when the agent has handed back `contents`, the store has
/// answered and the event is sent, the answer to the agent is `contents`.
pub proof fn lemma_answer_holds_the_file(
    event: FilesystemEventModel,
    contents: Seq<u8>,
    status: FileStatusSyncResult,
    progress: ProgressModel,
)
    requires
        reads_file(event),
        event.timestamp <= last_unix_timestamp(),
    ensures
        next_step(event, ProgressModel::Received) == (StepModel::ReadFile { path: event.path }),
        next_step(event, progress) is ReadFile <==> progress is Received,
        next_step(event, ProgressModel::FileRead(contents)) == (StepModel::Sync {
            path: changed_path(event),
            modified_at: event.timestamp as i64,
            contents,
        }),
        next_step(event, ProgressModel::Synced(status, contents)) matches StepModel::SendEvent {
            contents: sent,
            ..
        } && sent == contents,
        next_step(event, ProgressModel::EventSent(contents)) == StepModel::Finished(
            Ok::<Seq<u8>, Error>(contents),
        ),
{
}

/// A moved or deleted file is not read: no step asks the agent for it, no
/// step carries contents, and an answer that is no error holds nothing,
/// whatever the progress holds.
pub proof fn lemma_no_file_is_read_without_need(
    event: FilesystemEventModel,
    progress: ProgressModel,
)
    requires
        !reads_file(event),
    ensures
        !(next_step(event, progress) is ReadFile),
        !(next_step(event, progress) is Sync),
        next_step(event, progress) matches StepModel::SendEvent { contents, .. } ==> contents
            == Seq::<u8>::empty(),
        next_step(event, progress) matches StepModel::Finished(Ok(contents)) ==> contents
            == Seq::<u8>::empty(),
        next_step(event, progress) matches StepModel::Finished(Ok(_)) <==> progress is EventSent,
{
}

} // verus!
