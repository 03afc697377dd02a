use cherrypick::branches::{
    branch_item_id, priority_below, section_heading, section_shown, Branch, BranchList, TrackingStatus,
};
use cherrypick::pr::diff::{BranchDiff, DiffFileEntry};
use cherrypick::pr::identity::path_identity_hash;
use cherrypick::pr::types::{LocalPr, MergeStrategy, PrStatus};
use cherrypick::prompts::{action_selector, FallbackPromptRenderer, PromptHandle, PromptResponse};
use cherrypick::selection_controls::{
    controls_state, selection_controls_menu, toolbar_item_location, MenuEntry, SelectionAction,
    SelectionControlsMenuOptions, SelectionControlsState, ToolbarPlacement,
};
use cherrypick::staging::{
    row_click, row_id, row_letter, RowClick, StageStatus, StagingEntry, StagingView, StatusEntry,
};
use cherrypick::ui_state::{FileStatus, StatusCode};
use cherrypick::views::{
    branch_label, branch_pair_text, classify_line, diff_rows, diff_summary, display_path, entry_stats,
    first_line_text, head_info, pr_item_id, pr_list_heading, tracking_label, DetailButton, DiffLineKind,
    EntryStats, HeadCommit, PrAction, PrDetail, ViewMode, pull_op, push_op, tracking_counts, RemoteOp,
    sidebar_reaction, view_reaction, PanelReaction, RepositoryChange,
};

fn pr(id: i64, status: PrStatus) -> LocalPr {
    LocalPr {
        id,
        repo_id: 1,
        title: "Add login".to_string(),
        source_branch: "feature".to_string(),
        target_branch: "main".to_string(),
        source_oid: "a".repeat(40),
        target_oid: "b".repeat(40),
        status,
        merge_strategy: None::<MergeStrategy>,
        merged_oid: None,
        created_at: "2024-01-01T00:00:00+00:00".to_string(),
        updated_at: "2024-01-01T00:00:00+00:00".to_string(),
    }
}

fn branch(name: &str, is_remote: bool, is_head: bool, ts: Option<i64>) -> Branch {
    Branch { name: name.to_string(), is_remote, is_head, commit_timestamp: ts, tracking: None }
}

fn labels(entries: &[MenuEntry]) -> Vec<String> {
    entries
        .iter()
        .map(|e| match e {
            MenuEntry::Separator => "---".to_string(),
            MenuEntry::Action { label, disabled, .. } => {
                if *disabled {
                    format!("{label} (disabled)")
                } else {
                    label.to_string()
                }
            }
        })
        .collect()
}

#[test]
fn core_menu_lists_selection_entries_and_duplicate() {
    let entries = selection_controls_menu(SelectionControlsMenuOptions::core_options(), false, false, false);
    assert_eq!(
        labels(&entries),
        vec![
            "Select All",
            "Select Next Occurrence",
            "Expand Selection",
            "Shrink Selection",
            "Add Cursor Above",
            "Add Cursor Below",
            "Duplicate Selection",
        ]
    );
}

#[test]
fn quick_action_bar_menu_lists_every_group() {
    let entries =
        selection_controls_menu(SelectionControlsMenuOptions::zed_quick_action_bar(), false, false, false);
    assert_eq!(
        labels(&entries),
        vec![
            "Select All",
            "Select Next Occurrence",
            "Expand Selection",
            "Shrink Selection",
            "Add Cursor Above",
            "Add Cursor Below",
            "---",
            "Add to Agent Thread (disabled)",
            "---",
            "Go to Symbol",
            "Go to Line/Column",
            "---",
            "Next Problem",
            "Previous Problem",
            "---",
            "Next Hunk (disabled)",
            "Previous Hunk (disabled)",
            "---",
            "Move Line Up",
            "Move Line Down",
            "Duplicate Selection",
        ]
    );
    assert!(matches!(entries[7], MenuEntry::Action { action: SelectionAction::AddSelectionToThread, .. }));
}

#[test]
fn agent_entry_follows_selection_and_ai_setting() {
    let options = SelectionControlsMenuOptions::zed_quick_action_bar();
    let with_selection = selection_controls_menu(options, true, true, false);
    assert_eq!(labels(&with_selection)[7], "Add to Agent Thread");
    assert_eq!(labels(&with_selection)[15], "Next Hunk");
    let ai_off = selection_controls_menu(options, true, true, true);
    assert!(!labels(&ai_off).iter().any(|l| l.starts_with("Add to Agent Thread")));
    assert_eq!(ai_off.len(), with_selection.len() - 2);
}

#[test]
fn selection_controls_placement() {
    assert_eq!(controls_state(false, true), SelectionControlsState::NoEditor);
    assert_eq!(controls_state(true, false), SelectionControlsState::Disabled);
    assert_eq!(controls_state(true, true), SelectionControlsState::Shown);
    assert_eq!(toolbar_item_location(true, true), ToolbarPlacement::PrimaryRight);
    assert_eq!(toolbar_item_location(true, false), ToolbarPlacement::Hidden);
    assert_eq!(toolbar_item_location(false, true), ToolbarPlacement::Hidden);
}

#[test]
fn tab_titles_and_diff_tips() {
    assert_eq!(ViewMode::Staging.tab_title(), "CherryPick");
    let mode = ViewMode::PrDetail(pr(3, PrStatus::Open));
    assert_eq!(mode.tab_title(), "PR: Add login");
    assert_eq!(mode.diff_tips(), Some(("a".repeat(40).as_str(), "b".repeat(40).as_str())));
    let compare = ViewMode::BranchCompare {
        source_branch: "feature".into(),
        target_branch: "main".into(),
        source_oid: "s".into(),
        target_oid: "t".into(),
    };
    assert_eq!(compare.tab_title(), "feature → main");
    assert_eq!(compare.diff_tips(), Some(("s", "t")));
    assert_eq!(ViewMode::Staging.diff_tips(), None);
}

#[test]
fn unified_diff_lines_are_classified() {
    let text = "diff --git a/x b/x\nindex 1..2\n--- a/x\n+++ b/x\n@@ -1 +1 @@\n-old\n+new\n same\r\n";
    let rows = diff_rows(text);
    let kinds: Vec<DiffLineKind> = rows.iter().map(|r| r.kind).collect();
    assert_eq!(
        kinds,
        vec![
            DiffLineKind::Meta,
            DiffLineKind::Meta,
            DiffLineKind::Context,
            DiffLineKind::Context,
            DiffLineKind::Hunk,
            DiffLineKind::Deleted,
            DiffLineKind::Added,
            DiffLineKind::Context,
        ]
    );
    assert_eq!(rows[7].text, " same");
    assert_eq!(classify_line(&['+']), DiffLineKind::Added);
    assert_eq!(classify_line(&[]), DiffLineKind::Context);
}

#[test]
fn staging_header_texts() {
    let head = Some(HeadCommit { sha: "0123456789abcdef".into(), message: "Fix bug\r\n\nDetails".into() });
    assert_eq!(head_info(&head), "0123456 Fix bug");
    let short = Some(HeadCommit { sha: "abc".into(), message: String::new() });
    assert_eq!(head_info(&short), "abc ");
    assert_eq!(head_info(&None), "no commits");
    assert_eq!(branch_label(None, "detached HEAD"), "detached HEAD");
    assert_eq!(branch_label(Some("main"), "no branch"), "main");
    assert_eq!(first_line_text("one\ntwo"), "one");
    assert_eq!(first_line_text(""), "");
}

#[test]
fn pr_detail_buttons_follow_status() {
    let mut detail = PrDetail::new();
    assert!(detail.buttons().is_empty());
    assert_eq!(detail.close_pr(), None);
    detail.set_pr(Some(pr(7, PrStatus::Open)));
    assert_eq!(detail.buttons(), vec![DetailButton::Close]);
    assert_eq!(detail.close_pr(), Some(PrAction::Close(7)));
    assert_eq!(detail.reopen_pr(), Some(PrAction::Reopen(7)));
    detail.set_pr(Some(pr(8, PrStatus::Closed)));
    assert_eq!(detail.buttons(), vec![DetailButton::Reopen]);
    detail.set_pr(Some(pr(9, PrStatus::Merged)));
    assert!(detail.buttons().is_empty());
}

#[test]
fn conflict_badge_needs_a_positive_count_and_resets_with_the_pr() {
    let mut detail = PrDetail::new();
    detail.set_pr(Some(pr(1, PrStatus::Open)));
    assert_eq!(detail.conflict_label(), None);
    detail.set_conflict_count(0);
    assert_eq!(detail.conflict_label(), None);
    detail.set_conflict_count(3);
    assert_eq!(detail.conflict_label(), Some("3 conflicts".to_string()));
    detail.set_pr(Some(pr(2, PrStatus::Open)));
    assert_eq!(detail.conflict_label(), None);
}

#[test]
fn pr_list_labels() {
    assert_eq!(pr_list_heading(0), "No open PRs");
    assert_eq!(pr_list_heading(2), "PRs (2)");
    assert_eq!(pr_item_id(42), "pr-42");
    assert_eq!(pr_item_id(-1), "pr--1");
    assert_eq!(branch_pair_text("feature", "main"), "feature → main");
}

#[test]
fn diff_file_list_labels() {
    let renamed = DiffFileEntry {
        path: "new.rs".into(),
        status: 'R',
        insertions: 0,
        deletions: 0,
        is_binary: false,
        is_lfs: false,
        old_path: Some("old.rs".into()),
    };
    let binary = DiffFileEntry {
        path: "logo.png".into(),
        status: 'A',
        insertions: 0,
        deletions: 0,
        is_binary: true,
        is_lfs: false,
        old_path: None,
    };
    let edited = DiffFileEntry {
        path: "lib.rs".into(),
        status: 'M',
        insertions: 2,
        deletions: 1,
        is_binary: false,
        is_lfs: false,
        old_path: None,
    };
    assert_eq!(display_path(&renamed), "old.rs → new.rs");
    assert_eq!(display_path(&binary), "logo.png");
    assert_eq!(entry_stats(&renamed), EntryStats::Nothing);
    assert_eq!(entry_stats(&binary), EntryStats::Binary);
    assert_eq!(entry_stats(&edited), EntryStats::Counts);
    let diff = BranchDiff {
        source_oid: "s".into(),
        target_oid: "t".into(),
        merge_base_oid: "m".into(),
        files: vec![renamed, binary, edited],
        total_insertions: 12,
        total_deletions: 5,
    };
    assert_eq!(diff_summary(&diff), ("3 files changed".to_string(), "+12".to_string(), "-5".to_string()));
    assert_eq!(tracking_label(2, 0), "↑2 ↓0");
}

#[test]
fn branches_sort_head_first_then_newest_commit() {
    let mut list = BranchList::new();
    list.set_branches(vec![
        branch("old", false, false, Some(100)),
        branch("origin/main", true, false, Some(300)),
        branch("unknown", false, false, None),
        branch("current", false, true, Some(50)),
        branch("newer", false, false, Some(200)),
    ]);
    assert_eq!(list.local_branch_names(), vec!["current", "newer", "old", "unknown"]);
}

#[test]
fn branches_of_equal_priority_keep_their_order() {
    let mut list = BranchList::new();
    list.set_branches(vec![
        branch("b", false, false, Some(10)),
        branch("a", false, false, Some(10)),
        branch("c", false, false, Some(20)),
        branch("d", false, false, Some(10)),
    ]);
    assert_eq!(list.local_branch_names(), vec!["c", "b", "a", "d"]);
}

#[test]
fn branch_priority_and_labels() {
    let head = branch("main", false, true, None);
    let other = Branch {
        name: "topic".into(),
        is_remote: false,
        is_head: false,
        commit_timestamp: Some(i64::MAX),
        tracking: Some(TrackingStatus { ahead: 1, behind: 2 }),
    };
    assert!(priority_below(&other, &head));
    assert!(!priority_below(&head, &other));
    assert!(!priority_below(&head, &head));
    assert_eq!(section_heading("Local", 3), "Local (3)");
    assert!(section_shown(true, 1));
    assert!(!section_shown(true, 0));
    assert!(!section_shown(false, 4));
    assert_eq!(branch_item_id("main"), "branch-main");
}

#[test]
fn staging_partitions_partly_staged_files_into_both_lists() {
    let modified = FileStatus::Versioned { index_status: StatusCode::Added, worktree_status: StatusCode::Modified };
    let statuses = vec![
        StatusEntry { repo_path: "a.rs".into(), status: modified, staging: StageStatus::Staged },
        StatusEntry { repo_path: "b.rs".into(), status: FileStatus::Untracked, staging: StageStatus::Unstaged },
        StatusEntry { repo_path: "c.rs".into(), status: modified, staging: StageStatus::PartiallyStaged },
    ];
    let mut view = StagingView::new();
    view.refresh_statuses(Some(&statuses));
    assert_eq!(view.staged_heading(), "Staged (2)");
    assert_eq!(view.unstaged_heading(), "Unstaged (2)");
    view.refresh_statuses(None);
    assert_eq!(view.staged_heading(), "Staged (0)");
    assert_eq!(view.unstaged_heading(), "Unstaged (0)");
}

#[test]
fn staging_rows_label_and_click() {
    let modified = FileStatus::Versioned { index_status: StatusCode::Added, worktree_status: StatusCode::Modified };
    let staged = StagingEntry { repo_path: "c.rs".into(), status: modified, is_staged: true };
    let unstaged = StagingEntry { repo_path: "c.rs".into(), status: modified, is_staged: false };
    assert_eq!(row_id(&staged), "file-s-c.rs");
    assert_eq!(row_id(&unstaged), "file-u-c.rs");
    assert_eq!(row_letter(&staged), 'A');
    assert_eq!(row_letter(&unstaged), 'M');
    assert!(matches!(row_click(&staged), RowClick::Unstage(p) if p == "c.rs"));
    assert!(matches!(row_click(&unstaged), RowClick::Stage(p) if p == "c.rs"));
}

#[test]
fn a_prompt_delivers_only_its_first_answer() {
    let mut handle = PromptHandle::new();
    assert_eq!(handle.respond(PromptResponse(1)), Some(1));
    assert_eq!(handle.respond(PromptResponse(0)), None);
}

#[test]
fn fallback_prompt_buttons() {
    let actions = vec!["Save".to_string(), "Cancel".to_string()];
    let prompt = FallbackPromptRenderer::new("Unsaved changes", Some("Save first?"), &actions);
    assert_eq!(prompt.action_count(), 2);
    assert_eq!(prompt.click(1), PromptResponse(1));
    assert_eq!(action_selector(0), "prompt-action-0");
}

#[test]
fn path_fingerprint_is_the_sha256_of_the_path() {
    assert_eq!(path_identity_hash("abc"), "ba7816bf8f01cfea414140de5dae2223b00361a396177a9cb410ff61f20015ad");
}

#[test]
fn provider_name() {
    assert_eq!(cherrypick::agent::provider::provider_name(), "anthropic");
}

#[test]
fn read_file_blocks_sensitive() {
    let result = cherrypick::agent::git_tools::read_file_refusal(Some(".env"));
    assert!(result.is_err());
}

#[test]
fn toolbar_remote_operations() {
    assert_eq!(tracking_counts(None), (0, 0));
    assert_eq!(tracking_counts(Some(TrackingStatus { ahead: 3, behind: 1 })), (3, 1));
    match pull_op(Some("main")) {
        RemoteOp::Pull { branch, remote, rebase } => {
            assert_eq!(branch.as_deref(), Some("main"));
            assert_eq!(remote, "origin");
            assert!(!rebase);
        }
        other => panic!("unexpected {other:?}"),
    }
    match push_op(None) {
        RemoteOp::Push { local_branch, remote_branch, remote } => {
            assert_eq!(local_branch, "");
            assert_eq!(remote_branch, "");
            assert_eq!(remote, "origin");
        }
        other => panic!("unexpected {other:?}"),
    }
    match push_op(Some("feature")) {
        RemoteOp::Push { local_branch, remote_branch, .. } => {
            assert_eq!(local_branch, "feature");
            assert_eq!(remote_branch, "feature");
        }
        other => panic!("unexpected {other:?}"),
    }
}

#[test]
fn panels_react_to_repository_changes() {
    let updated = RepositoryChange::RepositoryUpdated { branch_or_statuses: true, active: true };
    let elsewhere = RepositoryChange::RepositoryUpdated { branch_or_statuses: true, active: false };
    assert_eq!(sidebar_reaction(RepositoryChange::ActiveRepositoryChanged), PanelReaction::UpdateActiveRepository);
    assert_eq!(sidebar_reaction(RepositoryChange::RepositoryAdded), PanelReaction::UpdateActiveRepository);
    assert_eq!(sidebar_reaction(updated), PanelReaction::Refresh);
    assert_eq!(sidebar_reaction(elsewhere), PanelReaction::Nothing);
    assert_eq!(view_reaction(RepositoryChange::RepositoryRemoved), PanelReaction::Nothing);
    assert_eq!(view_reaction(updated), PanelReaction::Refresh);
    assert_eq!(view_reaction(RepositoryChange::Other), PanelReaction::Nothing);
}
