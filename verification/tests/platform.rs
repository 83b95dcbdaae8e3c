use rpc_fabric::platform::events::{acknowledge, Response, SendError, Status};
use rpc_fabric::platform::mounts::{Mount, MountError, PathInside, Provider};
use rpc_fabric::platform::secrets::{Secret, SecretProvider};

#[test]
pub fn mounts_can_create_mount_relative_path_from_absolute() {
    let mount = Mount::new("some_id".into(), "/tmp/a/".to_string());
    let provider = Provider::new(vec![mount.clone()]);

    let result = provider
        .path_inside_from_filesystem_path_with_mount("/tmp/a/b/c/", &mount)
        .unwrap();

    assert_eq!(result.path(), "b/c");
}

#[test]
pub fn mounts_can_find_the_matching_mount_from_absolute_path() {
    let mount_a = Mount::new("mount_a".into(), "/tmp/a/".to_string());
    let mount_b = Mount::new("mount_b".into(), "/tmp/b/".to_string());
    let provider = Provider::new(vec![mount_a, mount_b]);

    let result = provider
        .path_inside_from_filesystem_path("/tmp/b/c")
        .unwrap();

    assert_eq!(result.mount_id(), "mount_b");
}

#[test]
pub fn mounts_will_error_if_path_is_in_none_of_the_mounts() {
    let mount_a = Mount::new("mount_a".into(), "/tmp/a/".to_string());
    let mount_b = Mount::new("mount_b".into(), "/tmp/b/".to_string());

    let provider = Provider::new(vec![mount_a, mount_b]);
    let result = provider.path_inside_from_filesystem_path("/tmp/c/d");

    assert_eq!(result.unwrap_err(), MountError::PathNotInMount);
}

#[test]
pub fn mount_has_an_id() {
    let mount = Mount::new("some_id".into(), "/tmp/a/".to_string());

    assert_eq!(mount.id(), "some_id");
}

#[test]
pub fn provider_without_mounts_says_so() {
    let provider = Provider::new(vec![]);
    assert_eq!(
        provider.path_inside_from_filesystem_path("/tmp/c/d").unwrap_err(),
        MountError::NoMountsDefined
    );
    assert!(provider.mounts().is_empty());
}

#[test]
pub fn a_relative_path_cannot_be_made_relative_to_an_absolute_mount() {
    let mount = Mount::new("m".into(), "/tmp/a".to_string());
    let provider = Provider::new(vec![mount.clone()]);
    assert_eq!(
        provider
            .path_inside_from_filesystem_path_with_mount("b/c", &mount)
            .unwrap_err(),
        MountError::UnableToMakeRelative
    );
    assert_eq!(
        provider
            .path_inside_from_filesystem_path_with_mount("/tmp/ab", &mount)
            .unwrap_err(),
        MountError::PathNotInMount
    );
}

#[test]
pub fn backslashes_become_slashes_inside_a_mount() {
    let mount = Mount::new("m".into(), "/tmp/a".to_string());
    let provider = Provider::new(vec![mount.clone()]);
    let inside = provider
        .path_inside_from_filesystem_path_with_mount("/tmp/a/b\\c/d", &mount)
        .unwrap();
    assert_eq!(inside.path(), "b/c/d");
    assert_eq!(inside.mount_id(), "m");
}

#[test]
pub fn later_mount_replaces_earlier_one_with_the_same_id() {
    let provider = Provider::new(vec![
        Mount::new("x".into(), "/first".to_string()),
        Mount::new("y".into(), "/other".to_string()),
        Mount::new("x".into(), "/second".to_string()),
    ]);
    let mounts = provider.mounts();
    assert_eq!(
        mounts,
        vec![
            Mount::new("x".into(), "/second".to_string()),
            Mount::new("y".into(), "/other".to_string()),
        ]
    );
    assert_eq!(
        provider.mount_relative_to_filesystem_path_by_mount_id("x", "f.txt"),
        Ok("/second/f.txt".to_string())
    );
}

#[test]
pub fn provider_from_raw_string_reads_path_then_id() {
    let provider = Provider::from_raw_string("/srv/music:music,/srv/films:films:extra");
    assert_eq!(
        provider.mounts(),
        vec![
            Mount::new("music".into(), "/srv/music".to_string()),
            Mount::new("films".into(), "/srv/films".to_string()),
        ]
    );
}

#[test]
pub fn mount_relative_paths_go_back_to_the_file_system() {
    let provider = Provider::from_raw_string("/srv/music:music");
    assert_eq!(
        provider.mount_relative_to_filesystem_path(PathInside::new(
            "music".to_string(),
            "a/b.flac".to_string()
        )),
        Ok("/srv/music/a/b.flac".to_string())
    );
    assert_eq!(
        provider.mount_relative_to_filesystem_path_by_mount_id("music", "/etc/passwd"),
        Ok("/etc/passwd".to_string())
    );
    let missing = provider
        .mount_relative_to_filesystem_path_by_mount_id("films", "x")
        .unwrap_err();
    assert_eq!(missing, MountError::NoSuchMount("films".to_string()));
    assert_eq!(missing.to_string(), "Mount with id \"films\" does not exist");
    assert_eq!(MountError::NoMountsDefined.to_string(), "No mounts were defined");
    assert_eq!(
        MountError::UnableToMakeRelative.to_string(),
        "The given absolute path is not within the mount"
    );
    assert_eq!(
        MountError::PathNotInMount.to_string(),
        "Failed to make the path mount-relative"
    );
}

#[test]
pub fn secrets_are_kept_in_two_files() {
    let provider = SecretProvider::new("/etc/svc-events/secrets/");
    let (username, password) = provider.files("db.credentials");
    assert_eq!(username, "/etc/svc-events/secrets/db.credentials/username");
    assert_eq!(password, "/etc/svc-events/secrets/db.credentials/password");
    let secret = Secret::new("user".to_string(), "pass".to_string());
    assert_eq!(secret.username(), "user");
    assert_eq!(secret.password(), "pass");
}

#[test]
pub fn a_failed_answer_of_the_event_service_is_an_error() {
    assert_eq!(acknowledge(Response { status: Status::Accepted }), Ok(()));
    assert_eq!(
        acknowledge(Response { status: Status::Failed }),
        Err(SendError::ServerFailed)
    );
}
