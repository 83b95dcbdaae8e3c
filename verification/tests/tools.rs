use rpc_fabric::agents::filesystem::{reports, Report, WatchedKind};
use rpc_fabric::event_service::{advance, needs_events, read_events};
use rpc_fabric::music::{handle_client, Call, ClientError};
use rpc_fabric::tools::commit_verifier::{find_allowed_prefixes, prefix, verdict, Verdict};

#[test]
fn prefixes_are_made_of_capitalized_parts() {
    assert_eq!(prefix("services", "directory-watcher"), "[Services/DirectoryWatcher]");
    assert_eq!(prefix("libraries/rust", "rpc-support"), "[Libraries/Rust/RpcSupport]");
    assert_eq!(prefix("tools", "machine-info"), "[Tools/MachineInfo]");
    assert_eq!(prefix("tools", "x"), "[Tools/X]");
    assert_eq!(
        find_allowed_prefixes(&vec![
            ("services".to_string(), "music".to_string()),
            ("libraries/php".to_string(), "event-client".to_string()),
        ]),
        vec!["[All]", "[Services/Music]", "[Libraries/Php/EventClient]"]
    );
    assert_eq!(find_allowed_prefixes(&vec![]), vec!["[All]"]);
}

#[test]
fn commits_are_judged_by_message_parents_and_author() {
    let prefixes = vec!["[All]".to_string(), "[Services/Music]".to_string()];
    assert_eq!(verdict("[All] Update", &prefixes, 1, Some("me")), Verdict::Valid);
    assert_eq!(
        verdict("[Services/Music] Play", &prefixes, 2, Some("dependabot[bot]")),
        Verdict::Valid
    );
    assert_eq!(verdict("Merge branch", &prefixes, 2, Some("me")), Verdict::MergeCommit);
    assert_eq!(
        verdict("Bump serde", &prefixes, 1, Some("dependabot[bot]")),
        Verdict::Dependabot
    );
    assert_eq!(verdict("Bump serde", &prefixes, 1, Some("me")), Verdict::Invalid);
    assert_eq!(verdict(" [All] late", &prefixes, 0, None), Verdict::Invalid);
    assert_eq!(verdict("[All", &prefixes, 1, None), Verdict::Invalid);
    assert_eq!(verdict("anything", &vec![String::new()], 1, None), Verdict::Valid);
}

#[test]
fn the_agent_reports_changes_path_by_path() {
    assert_eq!(
        reports(WatchedKind::CreateFile, 2),
        vec![Report::Created { path: 0 }, Report::Created { path: 1 }]
    );
    assert_eq!(reports(WatchedKind::RenameTo, 1), vec![Report::Created { path: 0 }]);
    assert_eq!(reports(WatchedKind::RemoveFile, 1), vec![Report::Deleted { path: 0 }]);
    assert_eq!(reports(WatchedKind::RenameFrom, 1), vec![Report::Deleted { path: 0 }]);
    assert_eq!(
        reports(WatchedKind::RenameBoth, 2),
        vec![Report::Moved { from: 0, to: 1 }]
    );
    assert_eq!(
        reports(WatchedKind::Modify, 3),
        vec![
            Report::Modified { path: 0 },
            Report::Modified { path: 1 },
            Report::Modified { path: 2 }
        ]
    );
    assert_eq!(reports(WatchedKind::Modify, 0), vec![]);
    assert_eq!(reports(WatchedKind::Other, 5), vec![]);
}

#[test]
fn the_music_service_knows_one_method() {
    assert_eq!(handle_client("stream_track"), Ok(Call::StreamTrack));
    assert_eq!(
        handle_client("all_tracks"),
        Err(ClientError::UnknownMethod("all_tracks".to_string()))
    );
}

#[test]
fn subscribers_are_read_for_when_they_may_have_missed_events() {
    assert!(needs_events(None, None));
    assert!(needs_events(None, Some(5)));
    assert!(needs_events(Some(5), None));
    assert!(needs_events(Some(5), Some(6)));
    assert!(!needs_events(Some(5), Some(5)));
    assert!(!needs_events(Some(5), Some(4)));
    assert_eq!(
        read_events(None),
        "SELECT data, created_timestamp FROM events ORDER BY created_timestamp ASC"
    );
    assert_eq!(
        read_events(Some(7)),
        "SELECT data, created_timestamp FROM events WHERE created_timestamp > $1 ORDER BY created_timestamp ASC"
    );
    assert_eq!(advance(None, &[]), None);
    assert_eq!(advance(Some(3), &[]), Some(3));
    assert_eq!(advance(Some(3), &[4, 9]), Some(9));
}
