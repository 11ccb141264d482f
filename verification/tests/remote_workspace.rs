use exec_server::mirror::{
    conclude_upload, decide_entry, EntryDecision, EntryFacts, EntryKind, MirrorAction, MirrorEvent,
    MirrorOutcome, WorkspaceMirror,
};
use exec_server::remote_workspace::{
    is_skipped_dir_name, join_components, place_workspace, relative_below, relative_to_unix,
    remote_workspace_dir_name, same_workspace, unix_to_relative, workspace_dir_name, PathPart,
    WorkspaceError, MAX_ENTRIES, MAX_UPLOAD_FILE_BYTES,
};
use std::path::{Path, PathBuf};

#[test]
fn remote_workspace_dir_name_is_stable_and_sanitized() {
    let path = PathBuf::from("/home/user/My Project!");
    let first = remote_workspace_dir_name(&path);
    let second = remote_workspace_dir_name(&path);
    assert_eq!(first, second, "name should be deterministic");
    assert!(first.starts_with("codex-workspace-"));
    assert!(
        first
            .chars()
            .all(|c| c.is_ascii_alphanumeric() || c == '-' || c == '_'),
        "name should be filesystem-safe: {first}"
    );
    assert!(
        !first.contains(' ') && !first.contains('!'),
        "special characters should be sanitized: {first}"
    );
}

#[test]
fn remote_workspace_dir_name_differs_per_path() {
    let a = remote_workspace_dir_name(&PathBuf::from("/home/user/project-a"));
    let b = remote_workspace_dir_name(&PathBuf::from("/home/user/project-b"));
    assert_ne!(a, b);
}

#[test]
fn relative_to_unix_joins_with_forward_slashes() {
    let joined = relative_to_unix(&Path::new("src").join("inner").join("file.rs"));
    assert_eq!(joined.as_deref(), Some("src/inner/file.rs"));
}

#[test]
fn relative_to_unix_rejects_parent_traversal() {
    assert_eq!(relative_to_unix(&Path::new("..").join("escape")), None);
}

#[test]
fn relative_to_unix_rejects_empty() {
    assert_eq!(relative_to_unix(&PathBuf::from("")), None);
}

#[test]
fn only_plain_names_are_joined() {
    assert_eq!(relative_to_unix(&PathBuf::from("/etc")), None);
    assert_eq!(relative_to_unix(&PathBuf::from("./a")), None);
    assert_eq!(relative_to_unix(&PathBuf::from("a/../b")), None);
    assert_eq!(relative_to_unix(&PathBuf::from("a/./b//c")).as_deref(), Some("a/b/c"));
    assert_eq!(relative_to_unix(&PathBuf::from("one")).as_deref(), Some("one"));
    let name = |text: &str| PathPart::Normal(text.to_string());
    assert_eq!(join_components(&vec![name("x"), name("y z")]).as_deref(), Some("x/y z"));
    for refused in [PathPart::Prefix, PathPart::RootDir, PathPart::CurDir, PathPart::ParentDir] {
        assert_eq!(join_components(&vec![name("x"), refused]), None);
    }
    assert_eq!(join_components(&vec![]), None);
}

#[test]
fn unix_text_reads_back() {
    for written in ["src/inner/file.rs", "a//b/./c/", "one", "odd\\name/c:d"] {
        let path = PathBuf::from(written);
        let unix = relative_to_unix(&path).unwrap();
        let read = unix_to_relative(&unix);
        assert_eq!(read, path);
        assert_eq!(relative_to_unix(&read), Some(unix));
    }
}

#[test]
fn entries_lie_below_the_root() {
    let root = PathBuf::from("/work/app");
    let below = |path: &str| relative_below(&root, &PathBuf::from(path));
    assert_eq!(below("/work/app/src/main.rs").as_deref(), Some("src/main.rs"));
    assert_eq!(below("/work/app"), None);
    assert_eq!(below("/work/application"), None);
    assert_eq!(below("/work/app/../b"), None);
    assert_eq!(below("src"), None);
}

#[test]
fn equal_paths_share_a_directory() {
    let plain = PathBuf::from("/a/b");
    let slashed = PathBuf::from("/a//b/");
    assert!(same_workspace(&plain, &slashed));
    assert_eq!(remote_workspace_dir_name(&plain), remote_workspace_dir_name(&slashed));
    assert!(!same_workspace(&plain, &PathBuf::from("/a/c")));
}

#[test]
fn workspace_is_placed_below_the_server_directory() {
    let root = PathBuf::from("/home/user/app");
    let join = |name: &str| -> Result<String, String> { Ok(format!("/srv/{}", name)) };
    let (local_root, remote_root) = match place_workspace(Ok(root.clone()), "/srv", join) {
        Ok(placed) => placed,
        Err(error) => panic!("{}", error.message()),
    };
    assert_eq!(local_root, root);
    assert_eq!(remote_root, format!("/srv/{}", remote_workspace_dir_name(&root)));
    match place_workspace(Err("no path".to_string()), "/srv", join) {
        Err(error) => {
            assert_eq!(error.message(), "remote workspace: invalid local cwd: no path")
        }
        Ok(_) => panic!("a directory that is not a path should be refused"),
    }
    let refuse = |_: &str| -> Result<String, String> { Err("no room".to_string()) };
    match place_workspace(Ok(root), "/srv", refuse) {
        Err(error) => assert_eq!(
            error.message(),
            "remote workspace: failed to build remote path under `/srv`: no room"
        ),
        Ok(_) => panic!("a refused path should be an error"),
    }
}

#[test]
fn ended_uploads_are_answered() {
    for outcome in [MirrorOutcome::Complete, MirrorOutcome::EntryLimit] {
        match conclude_upload(outcome, 7, "/srv/w".to_string(), String::new()) {
            Ok(root) => assert_eq!(root, 7),
            Err(error) => panic!("{}", error.message()),
        }
    }
    match conclude_upload(MirrorOutcome::RootRefused, 7, "/srv/w".to_string(), "why".to_string()) {
        Err(error) => assert_eq!(
            error.message(),
            "remote workspace: failed to create remote dir `/srv/w`: why"
        ),
        Ok(_) => panic!("a refused root should be an error"),
    }
}

#[test]
fn dir_name_has_its_parts() {
    assert_eq!(
        workspace_dir_name(Some("My Project!_x-9".to_string()), 0xbeef),
        "codex-workspace-My-Project-_x-9-000000000000beef"
    );
    assert_eq!(
        workspace_dir_name(None, u64::MAX),
        "codex-workspace-workspace-ffffffffffffffff"
    );
    assert_eq!(
        workspace_dir_name(Some("\u{e9}".repeat(50)), 0x0123456789abcdef),
        format!("codex-workspace-{}-0123456789abcdef", "-".repeat(40))
    );
    let root = remote_workspace_dir_name(&PathBuf::from("/"));
    assert!(root.starts_with("codex-workspace-workspace-"));
    let named = remote_workspace_dir_name(&PathBuf::from("/srv/app"));
    assert!(named.starts_with("codex-workspace-app-"));
    assert_eq!(named.len(), "codex-workspace-app-".len() + 16);
}

#[test]
fn errors_say_what_failed() {
    let reason = "why".to_string();
    assert_eq!(
        WorkspaceError::InvalidLocalCwd { reason: reason.clone() }.message(),
        "remote workspace: invalid local cwd: why"
    );
    assert_eq!(
        WorkspaceError::InvalidRemotePath { server_cwd: "/srv".to_string(), reason: reason.clone() }
            .message(),
        "remote workspace: failed to build remote path under `/srv`: why"
    );
    assert_eq!(
        WorkspaceError::RemoteDirectory { remote_root: "/srv/w".to_string(), reason }.message(),
        "remote workspace: failed to create remote dir `/srv/w`: why"
    );
}

#[test]
fn build_directories_are_skipped() {
    for name in [
        ".git",
        "node_modules",
        "target",
        "dist",
        "build",
        ".venv",
        "__pycache__",
        ".mypy_cache",
        ".pytest_cache",
    ] {
        assert!(is_skipped_dir_name(name));
    }
    assert!(!is_skipped_dir_name("src"));
    assert!(!is_skipped_dir_name(""));
    assert!(!is_skipped_dir_name("Target"));
}

fn entry(name: &str, kind: EntryKind, size: Option<u64>) -> EntryFacts<String> {
    EntryFacts {
        path: format!("/work/{}", name),
        name: name.to_string(),
        kind: Some(kind),
        relative: Some(name.to_string()),
        remote_path_valid: true,
        size,
    }
}

#[test]
fn entries_are_decided_by_kind_name_and_size() {
    assert_eq!(decide_entry(&entry("src", EntryKind::Directory, None)), EntryDecision::Mirror);
    assert_eq!(decide_entry(&entry(".git", EntryKind::Directory, None)), EntryDecision::Skip);
    assert_eq!(decide_entry(&entry(".git", EntryKind::File, Some(3))), EntryDecision::Upload);
    assert_eq!(MAX_UPLOAD_FILE_BYTES, 26_214_400);
    assert_eq!(
        decide_entry(&entry("big", EntryKind::File, Some(26_214_400))),
        EntryDecision::Upload
    );
    assert_eq!(
        decide_entry(&entry("big", EntryKind::File, Some(26_214_401))),
        EntryDecision::Skip
    );
    assert_eq!(decide_entry(&entry("odd", EntryKind::File, None)), EntryDecision::Upload);
    assert_eq!(decide_entry(&entry("link", EntryKind::Other, None)), EntryDecision::Skip);
    let mut unknown = entry("x", EntryKind::File, None);
    unknown.kind = None;
    assert_eq!(decide_entry(&unknown), EntryDecision::Skip);
    let mut outside = entry("x", EntryKind::File, None);
    outside.relative = None;
    assert_eq!(decide_entry(&outside), EntryDecision::Skip);
    let mut unnamed = entry("x", EntryKind::Directory, None);
    unnamed.remote_path_valid = false;
    assert_eq!(decide_entry(&unnamed), EntryDecision::Skip);
}

fn opens(action: MirrorAction<String>) -> String {
    match action {
        MirrorAction::OpenDirectory(directory) => directory,
        other => panic!("expected a directory to open, got {:?}", other),
    }
}

#[test]
fn upload_walks_breadth_first() {
    let (mut mirror, first) = WorkspaceMirror::new("/work".to_string());
    assert!(matches!(first, MirrorAction::CreateRoot));
    assert_eq!(opens(mirror.step(MirrorEvent::RootCreated)), "/work");
    assert!(matches!(mirror.step(MirrorEvent::DirectoryOpened), MirrorAction::NextEntry));
    for (name, created) in [("a", true), ("refused", false), ("b", true)] {
        assert!(matches!(mirror.step(MirrorEvent::EntryFound), MirrorAction::InspectEntry));
        let facts = entry(name, EntryKind::Directory, None);
        assert!(matches!(
            mirror.step(MirrorEvent::EntryInspected(facts)),
            MirrorAction::CreateDirectory
        ));
        let event = if created {
            MirrorEvent::DirectoryCreated
        } else {
            MirrorEvent::DirectoryRefused
        };
        assert!(matches!(mirror.step(event), MirrorAction::NextEntry));
    }
    assert!(matches!(mirror.step(MirrorEvent::EntryUnreadable), MirrorAction::NextEntry));
    assert!(matches!(mirror.step(MirrorEvent::EntryFound), MirrorAction::InspectEntry));
    let file = entry("file", EntryKind::File, Some(1));
    assert!(matches!(mirror.step(MirrorEvent::EntryInspected(file)), MirrorAction::ReadFile));
    assert!(matches!(mirror.step(MirrorEvent::FileRead(1)), MirrorAction::WriteFile));
    assert!(matches!(mirror.step(MirrorEvent::FileRefused), MirrorAction::NextEntry));
    assert_eq!(opens(mirror.step(MirrorEvent::DirectoryExhausted)), "/work/a");
    assert_eq!(opens(mirror.step(MirrorEvent::DirectoryUnreadable)), "/work/b");
    assert!(matches!(mirror.step(MirrorEvent::DirectoryOpened), MirrorAction::NextEntry));
    assert!(matches!(
        mirror.step(MirrorEvent::DirectoryExhausted),
        MirrorAction::Finish(MirrorOutcome::Complete)
    ));
    assert!(matches!(mirror.step(MirrorEvent::EntryFound), MirrorAction::Unexpected));
}

#[test]
fn unreadable_file_is_passed_over() {
    let (mut mirror, _) = WorkspaceMirror::new("/work".to_string());
    mirror.step(MirrorEvent::RootCreated);
    mirror.step(MirrorEvent::DirectoryOpened);
    mirror.step(MirrorEvent::EntryFound);
    let file = entry("file", EntryKind::File, None);
    assert!(matches!(mirror.step(MirrorEvent::EntryInspected(file)), MirrorAction::ReadFile));
    assert!(matches!(mirror.step(MirrorEvent::FileUnreadable), MirrorAction::NextEntry));
    mirror.step(MirrorEvent::EntryFound);
    let file = entry("file", EntryKind::File, None);
    mirror.step(MirrorEvent::EntryInspected(file));
    assert!(matches!(mirror.step(MirrorEvent::FileRead(26_214_400)), MirrorAction::WriteFile));
    assert!(matches!(mirror.step(MirrorEvent::FileWritten), MirrorAction::NextEntry));
}

#[test]
fn large_file_of_unknown_size_is_not_written() {
    let (mut mirror, _) = WorkspaceMirror::new("/work".to_string());
    mirror.step(MirrorEvent::RootCreated);
    mirror.step(MirrorEvent::DirectoryOpened);
    mirror.step(MirrorEvent::EntryFound);
    let file = entry("big", EntryKind::File, None);
    assert!(matches!(mirror.step(MirrorEvent::EntryInspected(file)), MirrorAction::ReadFile));
    assert!(matches!(mirror.step(MirrorEvent::FileRead(26_214_401)), MirrorAction::NextEntry));
    assert!(matches!(mirror.step(MirrorEvent::FileWritten), MirrorAction::Unexpected));
}

#[test]
fn refused_root_ends_the_upload() {
    let (mut mirror, _) = WorkspaceMirror::new("/work".to_string());
    assert!(matches!(mirror.step(MirrorEvent::EntryFound), MirrorAction::Unexpected));
    assert!(matches!(
        mirror.step(MirrorEvent::RootRefused),
        MirrorAction::Finish(MirrorOutcome::RootRefused)
    ));
    assert!(matches!(mirror.step(MirrorEvent::RootCreated), MirrorAction::Unexpected));
}

#[test]
fn upload_stops_at_the_entry_limit() {
    assert_eq!(MAX_ENTRIES, 50_000);
    let (mut mirror, _) = WorkspaceMirror::new("/work".to_string());
    mirror.step(MirrorEvent::RootCreated);
    mirror.step(MirrorEvent::DirectoryOpened);
    for _ in 0..50_000 {
        assert!(matches!(mirror.step(MirrorEvent::EntryFound), MirrorAction::InspectEntry));
        let link = entry("link", EntryKind::Other, None);
        assert!(matches!(
            mirror.step(MirrorEvent::EntryInspected(link)),
            MirrorAction::NextEntry
        ));
    }
    assert!(matches!(
        mirror.step(MirrorEvent::EntryFound),
        MirrorAction::Finish(MirrorOutcome::EntryLimit)
    ));
}
