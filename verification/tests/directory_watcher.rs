use rpc_fabric::directory_watcher::events::{
    file_on_mount, FileChanged, FileCreated, FileDeleted, FileMoved,
};
use rpc_fabric::directory_watcher::file_status_store::{sync, FileStatusSyncResult};
use rpc_fabric::directory_watcher::filesystem_events::{
    handle_event, is_reported, ChangeKind, Handling,
};
use rpc_fabric::directory_watcher::mount::{Error, Mount, PathInside};
use rpc_fabric::directory_watcher::mount_relative_path::{MountRelativePath, WatchableMount};
use rpc_fabric::directory_watcher::rpc_server::{
    file_changed, Error as HandlerError, FilesystemEvent, FilesystemEventKind, Progress, Step,
};
use rpc_fabric::directory_watcher::scan::sync_file;
use rpc_fabric::events::{EventKind, FileOnMountPath};
use rpc_fabric::platform::mounts::PathInside as PlatformPathInside;

#[test]
pub fn mount_can_create_mount_relative_path_from_absolute() {
    let mount = Mount::new("some_id".into(), "/tmp/a/".to_string());
    let result = PathInside::from_absolute(&mount, "/tmp/a/b/c/").unwrap();

    assert_eq!(
        std::path::Path::new(result.path()),
        std::path::Path::new("b/c/")
    );
}

#[test]
pub fn mount_can_find_the_matching_mount_from_absolute_path() {
    let mount_a = Mount::new("mount_a".into(), "/tmp/a/".to_string());
    let mount_b = Mount::new("mount_b".into(), "/tmp/b/".to_string());

    let mounts = &[mount_a, mount_b];
    let result = PathInside::from_mount_list(mounts, "/tmp/b/c").unwrap();

    assert_eq!(result.mount_id(), "mount_b");
}

#[test]
pub fn mount_will_error_if_path_is_in_none_of_the_mounts() {
    let mount_a = Mount::new("mount_a".into(), "/tmp/a/".to_string());
    let mount_b = Mount::new("mount_b".into(), "/tmp/b/".to_string());

    let mounts = &[mount_a, mount_b];
    let result = PathInside::from_mount_list(mounts, "/tmp/c/d");

    assert_eq!(result.unwrap_err(), Error::PathNotInMount);
}

#[test]
pub fn can_create_file_created() {
    let mount = Mount::new("id1".into(), "/tmp/a/".to_string());
    let path_inside = PathInside::from_absolute(&mount, "/tmp/a/file1").unwrap();
    let event = FileCreated::new(&path_inside, 1, 2);

    assert_eq!(event.event_type(), "file.status.created");
    assert_eq!(event.path(), "file1");
    assert_eq!(event.mount_id(), "id1");
}

#[test]
pub fn can_create_file_changed() {
    let mount = Mount::new("id1".into(), "/tmp/a/".to_string());
    let path_inside = PathInside::from_absolute(&mount, "/tmp/a/file1").unwrap();
    let event = FileChanged::new(&path_inside, 1, 2);

    assert_eq!(event.event_type(), "file.status.changed");
    assert_eq!(event.path(), "file1");
    assert_eq!(event.mount_id(), "id1");
}

#[test]
pub fn can_create_file_deleted() {
    let mount = Mount::new("id1".into(), "/tmp/a/".to_string());
    let path_inside = PathInside::from_absolute(&mount, "/tmp/a/file1").unwrap();
    let event = FileDeleted::new(&path_inside, 1, 2);

    assert_eq!(event.event_type(), "file.status.deleted");
    assert_eq!(event.path(), "file1");
    assert_eq!(event.mount_id(), "id1");
}

#[test]
pub fn can_create_file_moved() {
    let mount = Mount::new("id1".into(), "/tmp/a/".to_string());
    let from = PathInside::from_absolute(&mount, "/tmp/a/file1").unwrap();
    let to = PathInside::from_absolute(&mount, "/tmp/a/dir1/file2").unwrap();
    let event = FileMoved::new(&from, &to, 1, 2);

    assert_eq!(event.event_type(), "file.status.moved");
    assert_eq!(event.from(), "file1");
    assert_eq!(
        std::path::PathBuf::from(event.to()),
        std::path::PathBuf::from("dir1/file2")
    );
    assert_eq!(event.mount_id(), "id1");
}

#[test]
pub fn errors_of_paths_have_messages() {
    assert_eq!(
        Error::PathNotInMount.to_string(),
        "The given absolute path is not within the mount"
    );
    assert_eq!(
        Error::UnableToMakeRelative.to_string(),
        "Failed to make the path relative"
    );
    let mount = Mount::new("id1".into(), "/tmp/a".to_string());
    assert_eq!(
        PathInside::from_absolute(&mount, "relative/path").unwrap_err(),
        Error::UnableToMakeRelative
    );
    assert_eq!(mount.path(), "/tmp/a");
    assert_eq!(mount.id(), "id1");
}

#[test]
pub fn paths_relative_to_a_watchable_mount() {
    let mount = WatchableMount {
        path: "/srv/data".to_string(),
        mount_id: "data".to_string(),
    };
    let inside = MountRelativePath::from_absolute(&mount, "/srv/data/x/y").unwrap();
    assert_eq!(inside.path(), "x/y");
    assert_eq!(inside.mount_id(), "data");
    let outside = MountRelativePath::from_absolute(&mount, "/srv/other").unwrap();
    assert_eq!(outside.path(), "../other");
    assert!(MountRelativePath::from_absolute(&mount, "x").is_err());
}

#[test]
pub fn a_path_inside_names_a_file_on_a_mount() {
    let mount = Mount::new("id1".into(), "/tmp/a".to_string());
    let inside = PathInside::from_absolute(&mount, "/tmp/a/f").unwrap();
    assert_eq!(
        file_on_mount(&inside),
        FileOnMountPath { mount_id: "id1".to_string(), path: "f".to_string() }
    );
}

#[test]
pub fn the_store_tolerates_five_seconds() {
    let second: i128 = 1_000_000_000;
    assert_eq!(sync(None, 0), FileStatusSyncResult::Created);
    assert_eq!(sync(Some(100 * second), 100 * second), FileStatusSyncResult::NotModified);
    assert_eq!(sync(Some(100 * second), 105 * second), FileStatusSyncResult::NotModified);
    assert_eq!(sync(Some(105 * second), 100 * second), FileStatusSyncResult::NotModified);
    assert_eq!(sync(Some(100 * second), 105 * second + 1), FileStatusSyncResult::Modified);
    assert_eq!(sync(Some(105 * second + 1), 100 * second), FileStatusSyncResult::Modified);
    assert_eq!(sync(Some(-3 * second), 2 * second), FileStatusSyncResult::NotModified);
    assert_eq!(sync(Some(-3 * second), 2 * second + 1), FileStatusSyncResult::Modified);
    assert_eq!(sync(Some(i128::MIN), i128::MAX), FileStatusSyncResult::Modified);
}

#[test]
pub fn changes_are_handled_by_kind() {
    assert_eq!(handle_event(ChangeKind::Create, 1), Handling::FileCreated { path: 0 });
    assert_eq!(handle_event(ChangeKind::Create, 0), Handling::Ignored);
    assert_eq!(handle_event(ChangeKind::Remove, 2), Handling::FileDeleted { path: 0 });
    assert_eq!(handle_event(ChangeKind::RenameFrom, 1), Handling::FileDeleted { path: 0 });
    assert_eq!(
        handle_event(ChangeKind::RenameBoth, 2),
        Handling::FileRenamed { from: 0, to: 1 }
    );
    assert_eq!(handle_event(ChangeKind::RenameBoth, 1), Handling::MissingPath);
    assert_eq!(handle_event(ChangeKind::RenameBoth, 0), Handling::MissingPath);
    assert_eq!(handle_event(ChangeKind::Modify, 1), Handling::FileModified { path: 0 });
    assert_eq!(handle_event(ChangeKind::Any, 1), Handling::FileModified { path: 0 });
    assert_eq!(handle_event(ChangeKind::Other, 0), Handling::Ignored);
    assert_eq!(handle_event(ChangeKind::Access, 3), Handling::Ignored);
    assert!(is_reported(false));
    assert!(!is_reported(true));
}

#[test]
pub fn a_scan_tells_of_new_and_changed_files_only() {
    let path = PlatformPathInside::new("mount_a".to_string(), "a/b".to_string());
    let file = FileOnMountPath { mount_id: "mount_a".to_string(), path: "a/b".to_string() };
    assert_eq!(
        sync_file(FileStatusSyncResult::Created, &path),
        Some(EventKind::FileCreated { path: file.clone() })
    );
    assert_eq!(
        sync_file(FileStatusSyncResult::Modified, &path),
        Some(EventKind::FileChanged { path: file })
    );
    assert_eq!(sync_file(FileStatusSyncResult::NotModified, &path), None);
}

fn change(kind: FilesystemEventKind) -> FilesystemEvent {
    FilesystemEvent {
        kind,
        mount_id: "mount_id".to_string(),
        path: "path".to_string(),
        timestamp: 1_234,
    }
}

fn inside(path: &str) -> PlatformPathInside {
    PlatformPathInside::new("mount_id".to_string(), path.to_string())
}

fn file(path: &str) -> FileOnMountPath {
    FileOnMountPath { mount_id: "mount_id".to_string(), path: path.to_string() }
}

#[test]
pub fn a_created_file_is_read_synchronised_and_told() {
    let event = change(FilesystemEventKind::Created);
    assert_eq!(
        file_changed(&event, Progress::Received),
        Step::ReadFile { path: "path".to_string() }
    );
    assert_eq!(
        file_changed(&event, Progress::FileRead(b"text".to_vec())),
        Step::Sync { path: inside("path"), modified_at: 1_234, contents: b"text".to_vec() }
    );
    assert_eq!(
        file_changed(&event, Progress::Synced(FileStatusSyncResult::Created, b"text".to_vec())),
        Step::SendEvent {
            data: EventKind::FileCreated { path: file("path") },
            created_time: 1_234,
            contents: b"text".to_vec(),
        }
    );
    assert_eq!(
        file_changed(
            &event,
            Progress::Synced(FileStatusSyncResult::NotModified, b"text".to_vec())
        ),
        Step::SendEvent {
            data: EventKind::FileChanged { path: file("path") },
            created_time: 1_234,
            contents: b"text".to_vec(),
        }
    );
    assert_eq!(
        file_changed(&event, Progress::EventSent(b"text".to_vec())),
        Step::Finished(Ok(b"text".to_vec()))
    );
}

#[test]
pub fn a_modified_file_is_told_as_changed() {
    let event = change(FilesystemEventKind::Modified);
    assert_eq!(
        file_changed(&event, Progress::Received),
        Step::ReadFile { path: "path".to_string() }
    );
    assert_eq!(
        file_changed(&event, Progress::Synced(FileStatusSyncResult::Modified, vec![7, 8])),
        Step::SendEvent {
            data: EventKind::FileChanged { path: file("path") },
            created_time: 1_234,
            contents: vec![7, 8],
        }
    );
    assert_eq!(
        file_changed(&event, Progress::EventSent(vec![7, 8])),
        Step::Finished(Ok(vec![7, 8]))
    );
}

#[test]
pub fn a_moved_file_is_renamed_and_told() {
    let event = change(FilesystemEventKind::Moved { to: "elsewhere".to_string() });
    assert_eq!(
        file_changed(&event, Progress::Received),
        Step::Rename { from: inside("path"), to: inside("elsewhere") }
    );
    assert_eq!(
        file_changed(&event, Progress::Renamed),
        Step::SendEvent {
            data: EventKind::FileMoved { from: file("path"), to: file("elsewhere") },
            created_time: 1_234,
            contents: vec![],
        }
    );
    assert_eq!(file_changed(&event, Progress::EventSent(vec![])), Step::Finished(Ok(vec![])));
    assert_eq!(file_changed(&event, Progress::EventSent(vec![9])), Step::Finished(Ok(vec![])));
}

#[test]
pub fn a_deleted_file_is_deleted_and_told() {
    let event = change(FilesystemEventKind::Deleted);
    assert_eq!(
        file_changed(&event, Progress::Received),
        Step::Delete { path: inside("path") }
    );
    assert_eq!(
        file_changed(&event, Progress::Deleted),
        Step::SendEvent {
            data: EventKind::FileDeleted { path: file("path") },
            created_time: 1_234,
            contents: vec![],
        }
    );
}

#[test]
pub fn the_handler_fails_on_failed_steps_and_on_times_out_of_range() {
    let event = change(FilesystemEventKind::Created);
    assert!(matches!(file_changed(&event, Progress::Failed), Step::Finished(Err(_))));
    assert!(matches!(file_changed(&event, Progress::Renamed), Step::Finished(Err(_))));
    assert!(matches!(file_changed(&event, Progress::Deleted), Step::Finished(Err(_))));
    let mut late = change(FilesystemEventKind::Modified);
    late.timestamp = u64::MAX;
    assert!(matches!(file_changed(&late, Progress::FileRead(vec![1])), Step::Finished(Err(_))));
    late.timestamp = i64::MAX as u64;
    assert!(matches!(file_changed(&late, Progress::FileRead(vec![1])), Step::Finished(Err(_))));
    let moved = change(FilesystemEventKind::Moved { to: "x".to_string() });
    assert!(matches!(file_changed(&moved, Progress::FileRead(vec![1])), Step::Finished(Err(_))));
    assert!(matches!(
        file_changed(&moved, Progress::Synced(FileStatusSyncResult::Created, vec![1])),
        Step::Finished(Err(_))
    ));
}

#[test]
pub fn the_last_second_of_the_year_9999_is_the_last_time_of_a_change() {
    let mut event = change(FilesystemEventKind::Modified);
    event.timestamp = 253_402_300_799;
    assert_eq!(
        file_changed(&event, Progress::FileRead(vec![1])),
        Step::Sync { path: inside("path"), modified_at: 253_402_300_799, contents: vec![1] }
    );
    event.timestamp = 253_402_300_800;
    assert_eq!(
        file_changed(&event, Progress::FileRead(vec![1])),
        Step::Finished(Err(HandlerError {}))
    );
    event.timestamp = 0;
    assert_eq!(
        file_changed(&event, Progress::FileRead(vec![1])),
        Step::Sync { path: inside("path"), modified_at: 0, contents: vec![1] }
    );
}

/// What came of one run of the handler: what was asked of the agent and of
/// the store, what was sent to the event service, and the answer.
struct Handled {
    read: Vec<String>,
    store: Vec<String>,
    sent: Vec<EventKind>,
    answer: Result<Vec<u8>, HandlerError>,
}

/// Runs the handler of a reported change against an agent that hands back
/// `contents` for every file and a store that answers every synchronisation
/// with `sync_result`.
fn run_handler(
    event: FilesystemEvent,
    contents: &[u8],
    sync_result: FileStatusSyncResult,
) -> Handled {
    let mut read = Vec::new();
    let mut store = Vec::new();
    let mut sent = Vec::new();
    let mut progress = Progress::Received;
    loop {
        match file_changed(&event, progress) {
            Step::ReadFile { path } => {
                read.push(path);
                progress = Progress::FileRead(contents.to_vec());
            }
            Step::Sync { path, modified_at, contents } => {
                store.push(format!(
                    "sync {}:{} at {}",
                    path.mount_id(),
                    path.path(),
                    modified_at
                ));
                progress = Progress::Synced(sync_result, contents);
            }
            Step::Rename { from, to } => {
                store.push(format!(
                    "rename {}:{} to {}:{}",
                    from.mount_id(),
                    from.path(),
                    to.mount_id(),
                    to.path()
                ));
                progress = Progress::Renamed;
            }
            Step::Delete { path } => {
                store.push(format!("delete {}:{}", path.mount_id(), path.path()));
                progress = Progress::Deleted;
            }
            Step::SendEvent { data, created_time, contents } => {
                assert_eq!(created_time, event.timestamp);
                sent.push(data);
                progress = Progress::EventSent(contents);
            }
            Step::Finished(answer) => return Handled { read, store, sent, answer },
        }
    }
}

fn reported(kind: FilesystemEventKind) -> FilesystemEvent {
    FilesystemEvent {
        kind,
        path: "/test".to_string(),
        mount_id: "test".to_string(),
        timestamp: 1024,
    }
}

fn on_test_mount(path: &str) -> FileOnMountPath {
    FileOnMountPath { mount_id: "test".to_string(), path: path.to_string() }
}

#[test]
fn test_file_created() {
    let handled = run_handler(
        reported(FilesystemEventKind::Created),
        b"created",
        FileStatusSyncResult::Created,
    );
    assert_eq!(handled.answer, Ok(b"created".to_vec()));
    assert_eq!(handled.read, vec!["/test"]);
    assert_eq!(handled.store, vec!["sync test:/test at 1024"]);
    assert_eq!(handled.sent, vec![EventKind::FileCreated { path: on_test_mount("/test") }]);
}

#[test]
fn test_file_moved() {
    let handled = run_handler(
        reported(FilesystemEventKind::Moved { to: "/test2".to_string() }),
        b"never read",
        FileStatusSyncResult::Created,
    );
    assert_eq!(handled.answer, Ok(vec![]));
    assert!(handled.read.is_empty());
    assert_eq!(handled.store, vec!["rename test:/test to test:/test2"]);
    assert_eq!(
        handled.sent,
        vec![EventKind::FileMoved { from: on_test_mount("/test"), to: on_test_mount("/test2") }]
    );
}

#[test]
fn test_file_deleted() {
    let handled = run_handler(
        reported(FilesystemEventKind::Deleted),
        b"never read",
        FileStatusSyncResult::Created,
    );
    assert_eq!(handled.answer, Ok(vec![]));
    assert!(handled.read.is_empty());
    assert_eq!(handled.store, vec!["delete test:/test"]);
    assert_eq!(handled.sent, vec![EventKind::FileDeleted { path: on_test_mount("/test") }]);
}

#[test]
fn test_file_modified() {
    let handled = run_handler(
        reported(FilesystemEventKind::Modified),
        b"modified",
        FileStatusSyncResult::Modified,
    );
    assert_eq!(handled.answer, Ok(b"modified".to_vec()));
    assert_eq!(handled.read, vec!["/test"]);
    assert_eq!(handled.store, vec!["sync test:/test at 1024"]);
    assert_eq!(handled.sent, vec![EventKind::FileChanged { path: on_test_mount("/test") }]);
}

#[test]
fn an_empty_file_is_answered_with_no_bytes() {
    let handled =
        run_handler(reported(FilesystemEventKind::Created), b"", FileStatusSyncResult::Created);
    assert_eq!(handled.answer, Ok(vec![]));
    assert_eq!(handled.read, vec!["/test"]);
    assert_eq!(handled.store, vec!["sync test:/test at 1024"]);
}

#[test]
fn a_change_out_of_time_is_read_and_refused() {
    let mut event = reported(FilesystemEventKind::Created);
    event.timestamp = u64::MAX;
    let handled = run_handler(event, b"late", FileStatusSyncResult::Created);
    assert_eq!(handled.answer, Err(HandlerError {}));
    assert_eq!(handled.read, vec!["/test"]);
    assert!(handled.store.is_empty());
    assert!(handled.sent.is_empty());
}

/// What the watcher tells for a change below the mount `mount_a` at
/// `/tmp/watched`, none of whose paths is a directory.
fn watched(kind: ChangeKind, paths: &[&str]) -> Vec<EventKind> {
    let mounts = vec![Mount::new("mount_a".to_string(), "/tmp/watched".to_string())];
    let inside = |at: usize| {
        file_on_mount(&PathInside::from_mount_list(&mounts, paths[at]).unwrap())
    };
    if !is_reported(false) {
        return vec![];
    }
    match handle_event(kind, paths.len()) {
        Handling::Ignored => vec![],
        Handling::FileCreated { path } => vec![EventKind::FileCreated { path: inside(path) }],
        Handling::FileModified { path } => vec![EventKind::FileChanged { path: inside(path) }],
        Handling::FileDeleted { path } => vec![EventKind::FileDeleted { path: inside(path) }],
        Handling::FileRenamed { from, to } => {
            vec![EventKind::FileMoved { from: inside(from), to: inside(to) }]
        }
        Handling::MissingPath => panic!("a rename came without its paths"),
    }
}

fn on_mount_a(path: &str) -> FileOnMountPath {
    FileOnMountPath { mount_id: "mount_a".to_string(), path: path.to_string() }
}

#[test]
fn can_handle_file_creation() {
    let events = watched(ChangeKind::Create, &["/tmp/watched/b/1"]);
    assert_eq!(1, events.len());
    assert_eq!(EventKind::FileCreated { path: on_mount_a("b/1") }, events[0]);
}

#[test]
fn can_handle_file_change() {
    let events = watched(ChangeKind::Modify, &["/tmp/watched/b/1"]);
    assert_eq!(1, events.len());
    assert_eq!(EventKind::FileChanged { path: on_mount_a("b/1") }, events[0]);
}

#[test]
fn can_handle_file_removal() {
    let events = watched(ChangeKind::Remove, &["/tmp/watched/b/1"]);
    assert_eq!(1, events.len());
    assert_eq!(EventKind::FileDeleted { path: on_mount_a("b/1") }, events[0]);
}

#[test]
fn can_handle_file_rename() {
    let events = watched(ChangeKind::RenameBoth, &["/tmp/watched/b/0", "/tmp/watched/b/1"]);
    assert_eq!(1, events.len());
    assert_eq!(
        EventKind::FileMoved { from: on_mount_a("b/0"), to: on_mount_a("b/1") },
        events[0]
    );
}

#[test]
pub fn will_mark_preexisting_file_as_not_changed() {
    let provider = rpc_fabric::platform::mounts::Provider::new(vec![
        rpc_fabric::platform::mounts::Mount::new("mount_a".into(), "/tmp/scanned".to_string()),
    ]);
    let mount = &provider.mounts()[0];
    let mut events = Vec::new();
    for (file, status) in [
        ("/tmp/scanned/a/b", FileStatusSyncResult::Created),
        ("/tmp/scanned/b/c", FileStatusSyncResult::Modified),
        ("/tmp/scanned/c/d", FileStatusSyncResult::NotModified),
    ] {
        let path = provider
            .path_inside_from_filesystem_path_with_mount(file, mount)
            .unwrap();
        events.extend(sync_file(status, &path));
    }

    assert_eq!(2, events.len());
    assert_eq!(
        events[0],
        EventKind::FileCreated {
            path: FileOnMountPath { mount_id: "mount_a".to_string(), path: "a/b".to_string() }
        }
    );
    assert_eq!(
        events[1],
        EventKind::FileChanged {
            path: FileOnMountPath { mount_id: "mount_a".to_string(), path: "b/c".to_string() }
        }
    );
}
