use cloudreve_sync::events::{plan_change_batch, process_change_batch, ChangeKind, ChangeRecord};
use cloudreve_sync::reconcile::{
    group_by_parent, local_path_of_remote, parent_of_path, reconcile, reconcile_group,
    sync_paths, FsSnapshot, LocalFileInfo, SyncCommand, SyncMode,
};

fn p(parts: &[&str]) -> Vec<String> {
    parts.iter().map(|s| s.to_string()).collect()
}

fn dir(populated: bool) -> LocalFileInfo {
    LocalFileInfo { exists: true, is_directory: true, is_placeholder: false, populated }
}

fn placeholder_dir(populated: bool) -> LocalFileInfo {
    LocalFileInfo { exists: true, is_directory: true, is_placeholder: true, populated }
}

#[test]
fn test_missing_info() {
    let m = LocalFileInfo::missing();
    assert!(!m.exists);
    assert!(!m.is_directory);
    assert!(!m.is_placeholder);
    assert!(!m.populated);
}

#[test]
fn test_parent_of_path() {
    assert_eq!(parent_of_path(&p(&["root", "a", "x"])), p(&["root", "a"]));
    assert_eq!(parent_of_path(&p(&[])), p(&[]));
}

#[test]
fn test_intermediate_child_resync() {
    // Changed path root/a/b/file.txt where root/a does not exist but
    // root does and is populated: one command for root/a, path-only.
    let mut fs = FsSnapshot::new();
    fs.record(p(&["root"]), dir(true));
    let commands = reconcile(&fs, &p(&["root"]), vec![p(&["root", "a", "b", "file.txt"])]);
    assert_eq!(commands.len(), 1);
    let cmd = commands[0].as_ref().expect("expected a sync command");
    assert_eq!(cmd.mode, SyncMode::PathOnly);
    assert_eq!(cmd.paths, vec![p(&["root", "a"])]);
}

#[test]
fn test_batch_creates_sync_parent_first_layer() {
    // Three changed paths under an existing, populated root/a: one
    // command, parent with its first layer.
    let mut fs = FsSnapshot::new();
    fs.record(p(&["root"]), dir(true));
    fs.record(p(&["root", "a"]), dir(true));
    let commands = reconcile(
        &fs,
        &p(&["root"]),
        vec![p(&["root", "a", "x"]), p(&["root", "a", "y"]), p(&["root", "a", "z"])],
    );
    assert_eq!(commands.len(), 1);
    let cmd = commands[0].as_ref().expect("expected a sync command");
    assert_eq!(cmd.mode, SyncMode::PathAndFirstLayer);
    assert_eq!(cmd.paths, vec![p(&["root", "a"])]);
}

#[test]
fn test_single_change_syncs_only_that_path() {
    let mut fs = FsSnapshot::new();
    fs.record(p(&["root", "a"]), dir(true));
    let commands = reconcile(&fs, &p(&["root"]), vec![p(&["root", "a", "x"])]);
    assert_eq!(commands.len(), 1);
    let cmd = commands[0].as_ref().expect("expected a sync command");
    assert_eq!(cmd.mode, SyncMode::PathOnly);
    assert_eq!(cmd.paths, vec![p(&["root", "a", "x"])]);
}

#[test]
fn test_unpopulated_placeholder_skips() {
    let mut fs = FsSnapshot::new();
    fs.record(p(&["root", "a"]), placeholder_dir(false));
    let dec = reconcile_group(
        &fs,
        &p(&["root"]),
        p(&["root", "a"]),
        vec![p(&["root", "a", "x"])],
    );
    assert!(dec.is_none());
}

#[test]
fn test_populated_placeholder_is_an_anchor() {
    let mut fs = FsSnapshot::new();
    fs.record(p(&["root", "a"]), placeholder_dir(true));
    let dec = reconcile_group(
        &fs,
        &p(&["root"]),
        p(&["root", "a"]),
        vec![p(&["root", "a", "x"])],
    );
    let cmd = dec.expect("populated placeholders anchor the walk");
    assert_eq!(cmd.mode, SyncMode::PathOnly);
    assert_eq!(cmd.paths, vec![p(&["root", "a", "x"])]);
}

#[test]
fn test_walk_out_of_root_is_a_no_op() {
    // Nothing under the sync root exists: the walk would leave the
    // root, so the group is skipped.
    let fs = FsSnapshot::new();
    let dec = reconcile_group(
        &fs,
        &p(&["root"]),
        p(&["root", "a"]),
        vec![p(&["root", "a", "x"])],
    );
    assert!(dec.is_none());
    let other = reconcile_group(
        &fs,
        &p(&["root"]),
        p(&["elsewhere", "a"]),
        vec![p(&["elsewhere", "a", "x"])],
    );
    assert!(other.is_none());
}

#[test]
fn test_one_command_per_parent_group() {
    let mut fs = FsSnapshot::new();
    fs.record(p(&["root", "a"]), dir(true));
    fs.record(p(&["root", "b"]), dir(true));
    let commands = reconcile(
        &fs,
        &p(&["root"]),
        vec![
            p(&["root", "a", "x"]),
            p(&["root", "b", "u"]),
            p(&["root", "a", "y"]),
        ],
    );
    // Two distinct parents, two decisions, each one command.
    assert_eq!(commands.len(), 2);
    let first = commands[0].as_ref().unwrap();
    assert_eq!(first.mode, SyncMode::PathAndFirstLayer);
    assert_eq!(first.paths, vec![p(&["root", "a"])]);
    let second = commands[1].as_ref().unwrap();
    assert_eq!(second.mode, SyncMode::PathOnly);
    assert_eq!(second.paths, vec![p(&["root", "b", "u"])]);
}

#[test]
fn test_reconcile_is_idempotent() {
    let mut fs = FsSnapshot::new();
    fs.record(p(&["root"]), dir(true));
    fs.record(p(&["root", "a"]), dir(true));
    let paths = vec![p(&["root", "a", "x"]), p(&["root", "a", "y"])];
    let first: Vec<Option<SyncCommand>> = reconcile(&fs, &p(&["root"]), paths.clone());
    let second: Vec<Option<SyncCommand>> = reconcile(&fs, &p(&["root"]), paths);
    assert_eq!(first.len(), second.len());
    for (a, b) in first.iter().zip(second.iter()) {
        match (a, b) {
            (Some(x), Some(y)) => {
                assert_eq!(x.mode, y.mode);
                assert_eq!(x.paths, y.paths);
            }
            (None, None) => {}
            _ => panic!("the two passes disagreed"),
        }
    }
}

#[test]
fn test_group_by_parent_collects_siblings() {
    let groups = group_by_parent(vec![
        p(&["r", "a", "x"]),
        p(&["r", "b", "u"]),
        p(&["r", "a", "y"]),
    ]);
    assert_eq!(groups.len(), 2);
    assert_eq!(groups[0].0, p(&["r", "a"]));
    assert_eq!(groups[0].1, vec![p(&["r", "a", "x"]), p(&["r", "a", "y"])]);
    assert_eq!(groups[1].0, p(&["r", "b"]));
    assert_eq!(groups[1].1, vec![p(&["r", "b", "u"])]);
}

#[test]
fn test_change_batch_planning() {
    let mut fs = FsSnapshot::new();
    fs.record(p(&["root", "old.txt"]), dir(false));
    let events = vec![
        ChangeRecord { kind: ChangeKind::Create, from: p(&["root", "new.txt"]), to: p(&[]) },
        ChangeRecord { kind: ChangeKind::Delete, from: p(&["root", "gone.txt"]), to: p(&[]) },
        ChangeRecord { kind: ChangeKind::Delete, from: p(&["root", "old.txt"]), to: p(&[]) },
        ChangeRecord {
            kind: ChangeKind::Rename,
            from: p(&["root", "absent.txt"]),
            to: p(&["root", "renamed.txt"]),
        },
    ];
    let (creates, deletes, rename_from, rename_to) = plan_change_batch(&fs, events);
    assert_eq!(creates, vec![p(&["root", "new.txt"])]);
    // Deletes of locally absent paths are dropped.
    assert_eq!(deletes, vec![p(&["root", "old.txt"])]);
    // The rename source does not exist locally, so only its target side remains.
    assert!(rename_from.is_empty());
    assert_eq!(rename_to, vec![p(&["root", "renamed.txt"])]);
}

#[test]
fn test_process_change_batch_end_to_end() {
    let mut fs = FsSnapshot::new();
    fs.record(p(&["root"]), dir(true));
    let events = vec![
        ChangeRecord { kind: ChangeKind::Create, from: p(&["root", "a.txt"]), to: p(&[]) },
        ChangeRecord { kind: ChangeKind::Modify, from: p(&["root", "b.txt"]), to: p(&[]) },
    ];
    let decisions = process_change_batch(&fs, &p(&["root"]), events);
    assert_eq!(decisions.len(), 1);
    let cmd = decisions[0].as_ref().unwrap();
    assert_eq!(cmd.mode, SyncMode::PathAndFirstLayer);
    assert_eq!(cmd.paths, vec![p(&["root"])]);
}

#[test]
fn test_sync_paths_dispatch() {
    let commands = sync_paths(
        vec![p(&["r", "a", "x"]), p(&["r", "b", "u"]), p(&["r", "a", "y"])],
        SyncMode::FullHierarchy,
    );
    assert_eq!(commands.len(), 2);
    assert_eq!(commands[0].mode, SyncMode::FullHierarchy);
    assert_eq!(commands[0].paths, vec![p(&["r", "a", "x"]), p(&["r", "a", "y"])]);
    assert_eq!(commands[1].paths, vec![p(&["r", "b", "u"])]);
}

#[test]
fn test_local_path_of_remote() {
    let root = p(&["C:", "sync"]);
    assert_eq!(
        local_path_of_remote(&root, "/a/b/file.txt"),
        p(&["C:", "sync", "a", "b", "file.txt"]),
    );
    // Leading, doubled and trailing separators all vanish.
    assert_eq!(local_path_of_remote(&root, "//x//y/"), p(&["C:", "sync", "x", "y"]));
    assert_eq!(local_path_of_remote(&root, ""), root);
    assert_eq!(local_path_of_remote(&root, "/"), root);
    assert_eq!(local_path_of_remote(&root, "top.txt"), p(&["C:", "sync", "top.txt"]));
}
