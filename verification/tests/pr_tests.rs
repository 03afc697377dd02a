use std::cell::Cell;

use cherrypick::pr::diff::{
    diff_file_entry, needs_lfs_check, status_char, BranchDiff, DeltaStatus, DiffFileEntry, DiffService,
};
use cherrypick::pr::error::PrError;
use cherrypick::pr::identity::compute_remote_urls_hash;
use cherrypick::pr::merge::{
    conflict_content, conflict_paths, read_file_content, ref_update_error, ConflictSides, MergeService,
};
use cherrypick::pr::rules::{
    branch_health, check_distinct_branches, check_retarget, close_transition, needs_ancestry_check,
    reopen_transition,
};
use cherrypick::pr::types::{BranchHealth, ContentEncoding, FileContent, MergeStrategy, PrStatus};
use cherrypick::pr::watcher::{
    change_events_of, detect_force_push, extract_branch_name, needs_force_check, ref_action, tip_changed, watcher_creation_failed,
    BranchEvent, ChangeKind, RefAction,
};
use cherrypick::preview::{
    CommitDiffPreview, CommitDiffPreviewFile, CommitDiffPreviewOptions, CommitDiffPreviewStatus,
};

#[test]
fn pr_status_round_trip() {
    for status in [PrStatus::Open, PrStatus::Merged, PrStatus::Closed] {
        let s = status.as_str();
        assert_eq!(PrStatus::from_str(s), Some(status));
    }
    assert_eq!(PrStatus::from_str("reopened"), None);
}

#[test]
fn merge_strategy_round_trip() {
    for strategy in [MergeStrategy::MergeCommit, MergeStrategy::Squash] {
        let s = strategy.as_str();
        assert_eq!(MergeStrategy::from_str(s), Some(strategy));
    }
    assert_eq!(MergeStrategy::MergeCommit.as_str(), "merge");
}

#[test]
fn file_content_encoding_detection() {
    assert_eq!(FileContent::detect_encoding(b"hello world"), ContentEncoding::Utf8);
    assert_eq!(FileContent::detect_encoding(b"\xff\xfe\x00\x01"), ContentEncoding::Binary);
    assert_eq!(FileContent::detect_encoding(b""), ContentEncoding::Utf8);
    assert_eq!(FileContent::detect_encoding(b"caf\xe9"), ContentEncoding::Latin1);
}

#[test]
fn lfs_pointer_detection() {
    assert!(FileContent::is_lfs_pointer(b"version https://git-lfs.github.com/spec/v1\noid sha256:abc"));
    assert!(!FileContent::is_lfs_pointer(b"regular file content"));
    assert!(!FileContent::is_lfs_pointer(b"version"));
}

#[test]
fn file_content_as_text() {
    let utf8 = FileContent { data: b"hello".to_vec(), encoding: ContentEncoding::Utf8, is_lfs: false };
    assert_eq!(utf8.as_text(), Some("hello".to_string()));

    let binary = FileContent { data: vec![0, 1, 2], encoding: ContentEncoding::Binary, is_lfs: false };
    assert!(binary.as_text().is_none());

    let latin1 = FileContent { data: b"caf\xe9".to_vec(), encoding: ContentEncoding::Latin1, is_lfs: false };
    assert_eq!(latin1.as_text(), Some("café".to_string()));
}

#[test]
fn branch_health_defaults() {
    let h = BranchHealth::default();
    assert!(h.exists);
    assert!(!h.force_pushed);
    assert_eq!(h.ahead, 0);
    assert_eq!(h.behind, 0);
}

#[test]
fn error_display() {
    let err = PrError::NotFound(42);
    assert!(err.message().contains("42"));
}

#[test]
fn error_variants_are_constructible() {
    let _ = PrError::BranchNotFound("main".into());
    let _ = PrError::SameBranch("main".into());
    let _ = PrError::TargetMoved;
    let _ = PrError::MergeConflicts;
    let _ = PrError::Other("test".into());
}

#[test]
fn pr_error_messages_are_exact() {
    assert_eq!(PrError::NotFound(-7).message(), "PR not found: -7");
    assert_eq!(
        PrError::InvalidStatusTransition { from: "merged".into(), to: "closed".into() }.message(),
        "Invalid status transition from merged to closed"
    );
    assert_eq!(PrError::TargetMoved.message(), "Target branch has moved since merge started");
    assert_eq!(PrError::Other("plain".into()).message(), "plain");
}

#[test]
fn extract_branch_name_from_path() {
    assert_eq!(extract_branch_name("/repo/.git/refs/heads/main", "/repo/.git/refs/heads"), Some("main".to_string()));
}

#[test]
fn extract_nested_branch_name() {
    assert_eq!(
        extract_branch_name("/repo/.git/refs/heads/feature/login", "/repo/.git/refs/heads"),
        Some("feature/login".to_string())
    );
}

#[test]
fn extract_returns_none_for_unrelated_path() {
    assert_eq!(extract_branch_name("/other/path", "/repo/.git/refs/heads"), None);
}

#[test]
fn ref_changes_become_branch_events() {
    let refs = "/repo/.git/refs/heads";
    match ref_action(ChangeKind::Remove, "/repo/.git/refs/heads/old", refs) {
        RefAction::Deleted(b) => assert_eq!(b, "old"),
        other => panic!("unexpected {other:?}"),
    }
    match ref_action(ChangeKind::Modify, "/repo/.git/refs/heads/main", refs) {
        RefAction::ReadTip(b) => assert_eq!(b, "main"),
        other => panic!("unexpected {other:?}"),
    }
    assert!(matches!(ref_action(ChangeKind::Other, "/repo/.git/refs/heads/main", refs), RefAction::Ignore));
    assert!(matches!(ref_action(ChangeKind::Create, "/repo/.git/HEAD", refs), RefAction::Ignore));
    match tip_changed("main".into(), "  abc123\n") {
        BranchEvent::BranchTipChanged { branch, old_oid, new_oid } => {
            assert_eq!(branch, "main");
            assert!(old_oid.is_none());
            assert_eq!(new_oid, "abc123");
        }
        other => panic!("unexpected {other:?}"),
    }
    match watcher_creation_failed("no inotify") {
        BranchEvent::WatcherError(m) => assert_eq!(m, "Failed to create watcher: no inotify"),
        other => panic!("unexpected {other:?}"),
    }
}

#[test]
fn force_push_same_oid_is_not_force() {
    assert!(!detect_force_push("abc", "abc", None));
    assert!(!detect_force_push("abc", "abc", Some(false)));
}

#[test]
fn force_push_needs_two_different_ids_and_a_non_descendant() {
    assert!(!needs_force_check("abc", "ABC"));
    assert!(!needs_force_check("abc", "abc0"));
    assert!(!needs_force_check("xyz", "abc"));
    assert!(needs_force_check("abc", "abd"));
    assert!(detect_force_push("abc", "abd", Some(false)));
    assert!(!detect_force_push("abc", "abd", Some(true)));
    assert!(!detect_force_push("abc", "abd", None));
}

#[test]
fn check_branch_health_nonexistent() {
    let health = branch_health(false, None, "abc", None);
    assert!(!health.exists);
}

#[test]
fn branch_health_of_a_moved_branch() {
    let cur = "1111111111111111111111111111111111111111".to_string();
    let rec = "2222222222222222222222222222222222222222";
    assert!(needs_ancestry_check(&Some(cur.clone()), rec));
    assert!(!needs_ancestry_check(&Some(cur.clone()), "not-an-id"));
    let h = branch_health(true, Some(cur.clone()), rec, Some(false));
    assert!(h.exists && h.force_pushed);
    assert_eq!(h.current_oid, Some(cur.clone()));
    let h = branch_health(true, Some(cur.clone()), rec, Some(true));
    assert!(!h.force_pushed);
    let h = branch_health(true, Some(rec.to_string()), rec, Some(false));
    assert!(!h.force_pushed);
}

#[test]
fn create_pr_rejects_same_branch() {
    assert!(matches!(check_distinct_branches("main", "main"), Err(PrError::SameBranch(b)) if b == "main"));
    assert!(check_distinct_branches("feature", "main").is_ok());
    assert!(matches!(check_retarget("feature", "feature"), Err(PrError::SameBranch(b)) if b == "feature"));
    assert!(check_retarget("feature", "main").is_ok());
}

#[test]
fn close_and_reopen_pr() {
    let closed = close_transition(PrStatus::Open).unwrap();
    assert_eq!(closed, PrStatus::Closed);
    assert_eq!(reopen_transition(closed).unwrap(), PrStatus::Open);
    match close_transition(PrStatus::Merged) {
        Err(PrError::InvalidStatusTransition { from, to }) => {
            assert_eq!(from, "merged");
            assert_eq!(to, "closed");
        }
        other => panic!("unexpected {other:?}"),
    }
    match reopen_transition(PrStatus::Open) {
        Err(PrError::InvalidStatusTransition { from, to }) => {
            assert_eq!(from, "open");
            assert_eq!(to, "open");
        }
        other => panic!("unexpected {other:?}"),
    }
}

#[test]
fn compute_remote_hash_no_remotes() {
    assert_eq!(compute_remote_urls_hash(vec![]), "no-remotes");
}

#[test]
fn remote_hash_ignores_remote_order() {
    let a = compute_remote_urls_hash(vec!["https://b.example/x".into(), "git@a.example:y".into()]);
    let b = compute_remote_urls_hash(vec!["git@a.example:y".into(), "https://b.example/x".into()]);
    assert_eq!(a, b);
    assert_eq!(a.len(), 64);
    assert!(a.chars().all(|c| c.is_ascii_hexdigit() && !c.is_ascii_uppercase()));
    let single = compute_remote_urls_hash(vec!["abc".into()]);
    assert_eq!(single, "ba7816bf8f01cfea414140de5dae2223b00361a396177a9cb410ff61f20015ad");
}

#[test]
fn merge_session_resolution_tracking() {
    let svc = MergeService::new();
    let mut session = svc.start_merge_session("src", "tgt", "master", vec!["shared.txt".to_string()]);
    assert!(!MergeService::is_fully_resolved(&session));

    MergeService::resolve_conflict(&mut session, "shared.txt", b"resolved content".to_vec());
    assert!(MergeService::is_fully_resolved(&session));

    MergeService::reset_conflict(&mut session, "shared.txt");
    assert!(!MergeService::is_fully_resolved(&session));
}

#[test]
fn resolving_again_replaces_the_resolution() {
    let svc = MergeService::new();
    let mut session = svc.start_merge_session("s", "t", "main", vec!["a".to_string(), "b".to_string()]);
    MergeService::resolve_conflict(&mut session, "a", b"one".to_vec());
    MergeService::resolve_conflict(&mut session, "a", b"two".to_vec());
    assert_eq!(session.resolutions.len(), 1);
    assert_eq!(session.resolutions[0].content, b"two".to_vec());
    assert!(!MergeService::is_fully_resolved(&session));
    MergeService::resolve_conflict(&mut session, "b", b"three".to_vec());
    assert!(MergeService::is_fully_resolved(&session));
}

#[test]
fn merge_rejects_moved_target() {
    let svc = MergeService::new();
    let mut session = svc.start_merge_session("src", "tgt", "master", vec!["shared.txt".to_string()]);
    MergeService::resolve_conflict(&mut session, "shared.txt", b"resolved".to_vec());
    let result = svc.plan_merge(&session, MergeStrategy::MergeCommit, "merge", "wrong-oid");
    assert!(matches!(result, Err(PrError::TargetMoved)));
}

#[test]
fn merge_plans_follow_the_strategy() {
    let svc = MergeService::new();
    let mut session = svc.start_merge_session("src", "tgt", "main", vec!["f".to_string()]);
    assert!(matches!(svc.plan_merge(&session, MergeStrategy::Squash, "m", "tgt"), Err(PrError::MergeConflicts)));
    MergeService::resolve_conflict(&mut session, "f", vec![]);
    let plan = svc.plan_merge(&session, MergeStrategy::MergeCommit, "Merge it", "tgt").unwrap();
    assert_eq!(plan.parents, vec!["tgt".to_string(), "src".to_string()]);
    assert_eq!(plan.ref_name, "refs/heads/main");
    assert_eq!(plan.reflog_message, "merge: Merge it");
    let squash = svc.plan_merge(&session, MergeStrategy::Squash, "x", "tgt").unwrap();
    assert_eq!(squash.parents, vec!["tgt".to_string()]);
    match ref_update_error("main", "locked") {
        PrError::Other(m) => assert_eq!(m, "Failed to update branch ref 'main': locked"),
        other => panic!("unexpected {other:?}"),
    }
}

#[test]
fn conflicts_are_named_and_read() {
    let paths = conflict_paths(&vec![
        ConflictSides { our: Some(b"a.txt".to_vec()), their: Some(b"b.txt".to_vec()), ancestor: None },
        ConflictSides { our: None, their: None, ancestor: Some(b"c.txt".to_vec()) },
        ConflictSides { our: None, their: None, ancestor: None },
        ConflictSides { our: None, their: Some(vec![0x66, 0xff]), ancestor: None },
    ]);
    assert_eq!(paths, vec!["a.txt".to_string(), "c.txt".to_string(), "f\u{fffd}".to_string()]);
    let f = read_file_content(b"version https://git-lfs.github.com/spec/v1\n".to_vec());
    assert!(f.is_lfs);
    assert_eq!(f.encoding, ContentEncoding::Utf8);
    let three = conflict_content(Some(b"base".to_vec()), None, Some(b"theirs".to_vec()));
    assert!(three.base.is_some());
    assert!(three.ours.data.is_empty());
    assert_eq!(three.ours.as_text(), Some(String::new()));
    assert_eq!(three.theirs.as_text(), Some("theirs".to_string()));
}

fn sample_diff(tag: &str) -> BranchDiff {
    BranchDiff {
        source_oid: format!("s{tag}"),
        target_oid: format!("t{tag}"),
        merge_base_oid: "b".into(),
        files: vec![DiffFileEntry {
            path: "feature.txt".into(),
            status: 'A',
            insertions: 0,
            deletions: 0,
            is_binary: false,
            is_lfs: false,
            old_path: None,
        }],
        total_insertions: 1,
        total_deletions: 0,
    }
}

#[test]
fn cache_hit_returns_same_result() {
    let mut svc = DiffService::new(10);
    let computed = Cell::new(0);
    let d1 = svc
        .get_branch_diff("s1", "t1", || {
            computed.set(computed.get() + 1);
            Ok(sample_diff("1"))
        })
        .unwrap();
    let d2 = svc
        .get_branch_diff("s1", "t1", || {
            computed.set(computed.get() + 1);
            Ok(sample_diff("other"))
        })
        .unwrap();
    assert_eq!(d1.files.len(), d2.files.len());
    assert_eq!(d2.source_oid, "s1");
    assert_eq!(computed.get(), 1);
}

#[test]
fn invalidate_clears_cache() {
    let mut svc = DiffService::new(10);
    svc.get_branch_diff("s", "t", || Ok(sample_diff("a"))).unwrap();
    svc.invalidate("s", "t");
    let again = svc.get_branch_diff("s", "t", || Ok(sample_diff("b"))).unwrap();
    assert_eq!(again.source_oid, "sb");
    svc.invalidate_all();
    let third = svc.get_branch_diff("s", "t", || Ok(sample_diff("c"))).unwrap();
    assert_eq!(third.source_oid, "sc");
}

#[test]
fn the_least_recently_used_diff_is_dropped_first() {
    let mut svc = DiffService::new(2);
    svc.get_branch_diff("a", "x", || Ok(sample_diff("a"))).unwrap();
    svc.get_branch_diff("b", "x", || Ok(sample_diff("b"))).unwrap();
    svc.get_branch_diff("a", "x", || Ok(sample_diff("a2"))).unwrap();
    svc.get_branch_diff("c", "x", || Ok(sample_diff("c"))).unwrap();
    let a = svc.get_branch_diff("a", "x", || Ok(sample_diff("a3"))).unwrap();
    assert_eq!(a.source_oid, "sa");
    let b = svc.get_branch_diff("b", "x", || Ok(sample_diff("b2"))).unwrap();
    assert_eq!(b.source_oid, "sb2");
    let failed = svc.get_branch_diff("d", "x", || Err(PrError::Other("git failed".into())));
    assert!(failed.is_err());
}

#[test]
fn diff_entries_describe_each_change() {
    assert_eq!(status_char(DeltaStatus::Added), 'A');
    assert_eq!(status_char(DeltaStatus::Typechange), 'T');
    assert_eq!(status_char(DeltaStatus::Untracked), '?');
    assert!(needs_lfs_check(false, &[1, 2]));
    assert!(!needs_lfs_check(true, &[1, 2]));
    assert!(!needs_lfs_check(false, &[0, 2]));
    let e = diff_file_entry(
        Some("new.rs".into()),
        Some("old.rs".into()),
        DeltaStatus::Renamed,
        false,
        Some(b"version https://git-lfs.github.com/spec/v1\n"),
    );
    assert_eq!(e.path, "new.rs");
    assert_eq!(e.old_path, Some("old.rs".into()));
    assert_eq!(e.status, 'R');
    assert!(e.is_lfs);
    let d = diff_file_entry(None, Some("gone.rs".into()), DeltaStatus::Deleted, false, None);
    assert_eq!(d.path, "gone.rs");
    assert_eq!(d.old_path, None);
}

#[test]
fn preview_entry_uses_metadata_path_separately_from_display_path() {
    let entry = CommitDiffPreviewFile {
        display_path: "old.rs -> new.rs".into(),
        old_path: Some("old.rs".into()),
        new_path: Some("new.rs".into()),
        status: CommitDiffPreviewStatus::Renamed,
        old_text: Some("old".into()),
        new_text: Some("new".into()),
        is_binary: false,
        is_truncated: false,
        load_error: None,
    }
    .into_entry(7);

    assert_eq!(entry.index, 7);
    assert_eq!(entry.display_path.as_str(), "old.rs -> new.rs");
    assert_eq!(entry.metadata_path.as_str(), "new.rs");
    assert!(!entry.was_deleted);
}

fn preview_file(status: CommitDiffPreviewStatus) -> CommitDiffPreviewFile {
    CommitDiffPreviewFile {
        display_path: "a.rs".into(),
        old_path: Some("a.rs".into()),
        new_path: None,
        status,
        old_text: Some("old".into()),
        new_text: Some("new".into()),
        is_binary: false,
        is_truncated: false,
        load_error: None,
    }
}

#[test]
fn preview_entries_show_notes_and_texts() {
    let deleted = preview_file(CommitDiffPreviewStatus::Deleted).into_entry(0);
    assert!(deleted.was_deleted);
    assert_eq!(deleted.old_text, Some("old".into()));
    assert_eq!(deleted.new_text, "");
    assert_eq!(deleted.metadata_path, "a.rs");
    let added = preview_file(CommitDiffPreviewStatus::Added).into_entry(1);
    assert_eq!(added.old_text, None);
    assert_eq!(added.new_text, "new");
    let mut binary = preview_file(CommitDiffPreviewStatus::Modified);
    binary.is_binary = true;
    assert_eq!(binary.into_entry(2).new_text, "Binary file: a.rs\n");
    let mut big = preview_file(CommitDiffPreviewStatus::Modified);
    big.is_truncated = true;
    assert_eq!(big.into_entry(3).new_text, "File too large to preview: a.rs\n");
    let mut broken = preview_file(CommitDiffPreviewStatus::Modified);
    broken.load_error = Some("disk".into());
    broken.is_binary = true;
    let e = broken.into_entry(4);
    assert_eq!(e.new_text, "Unable to load diff for a.rs: disk\n");
    assert_eq!(e.old_text, None);
}

#[test]
fn preview_titles_count_files() {
    let none = CommitDiffPreview::new(vec![], CommitDiffPreviewOptions::default());
    assert_eq!(none.title(), "Commit Diff");
    let one = CommitDiffPreview::new(vec![preview_file(CommitDiffPreviewStatus::Added)], CommitDiffPreviewOptions::default());
    assert_eq!(one.title(), "Commit Diff (1 file)");
    let options = CommitDiffPreviewOptions { title: "Changes".into(), context_lines: 1, reveal_all_hunks: false };
    let three = CommitDiffPreview::new(
        vec![
            preview_file(CommitDiffPreviewStatus::Added),
            preview_file(CommitDiffPreviewStatus::Deleted),
            preview_file(CommitDiffPreviewStatus::Copied),
        ],
        options,
    );
    assert_eq!(three.title(), "Changes (3 files)");
    let entries = three.preview_entries();
    assert_eq!(entries.len(), 3);
    assert_eq!(entries[1].index, 1);
    assert!(entries[1].was_deleted);
}

#[test]
fn a_change_reports_one_event_per_branch_reference_in_order() {
    let refs = "/repo/.git/refs/heads";
    let paths = vec![
        "/repo/.git/refs/heads/feature/login".to_string(),
        "/repo/.git/HEAD".to_string(),
        "/repo/.git/refs/heads/main".to_string(),
    ];
    let texts = vec!["abc\n".to_string(), String::new(), "  def ".to_string()];
    let events = change_events_of(ChangeKind::Modify, &paths, refs, &texts);
    assert_eq!(events.len(), 2);
    match &events[0] {
        BranchEvent::BranchTipChanged { branch, old_oid, new_oid } => {
            assert_eq!(branch, "feature/login");
            assert!(old_oid.is_none());
            assert_eq!(new_oid, "abc");
        }
        other => panic!("unexpected {other:?}"),
    }
    assert!(matches!(&events[1], BranchEvent::BranchTipChanged { new_oid, .. } if new_oid == "def"));
    let removed = change_events_of(ChangeKind::Remove, &paths, refs, &texts);
    assert_eq!(removed.len(), 2);
    assert!(matches!(&removed[0], BranchEvent::BranchDeleted { branch } if branch == "feature/login"));
    assert!(change_events_of(ChangeKind::Other, &paths, refs, &texts).is_empty());
}
