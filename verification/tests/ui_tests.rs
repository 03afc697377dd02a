use cherrypick::prompts::PromptResponse;
use cherrypick::ui_state::{
    status_char, unified_diff, CreatePrForm, CreatePrFormEvent, FileStatus, PatchLine, StatusCode,
};

fn names(list: &[&str]) -> Vec<String> {
    list.iter().map(|s| s.to_string()).collect()
}

#[test]
fn form_picks_current_branch_and_main() {
    let mut form = CreatePrForm::new();
    assert!(!form.is_visible());
    assert_eq!(form.source_name(), "(none)");
    form.set_branches(names(&["feature", "main", "dev"]), Some("dev"));
    assert_eq!(form.source_name(), "dev");
    assert_eq!(form.target_name(), "main");
    match form.submit() {
        Some(CreatePrFormEvent::Submit { title, source_branch, target_branch }) => {
            assert_eq!(title, "dev");
            assert_eq!(source_branch, "dev");
            assert_eq!(target_branch, "main");
        }
        None => panic!("expected a submission"),
    }
}

#[test]
fn form_avoids_picking_the_same_branch_twice() {
    let mut form = CreatePrForm::new();
    form.set_branches(names(&["main", "feature"]), Some("main"));
    assert_eq!(form.source_name(), "main");
    assert_eq!(form.target_name(), "feature");
    form.set_branches(names(&["dev", "master"]), None);
    assert_eq!(form.source_name(), "dev");
    assert_eq!(form.target_name(), "master");
    form.set_branches(names(&["only"]), None);
    assert_eq!(form.source_name(), "only");
    assert_eq!(form.target_name(), "only");
    assert!(form.submit().is_none());
}

#[test]
fn form_cycles_and_keeps_picks_without_branches() {
    let mut form = CreatePrForm::new();
    form.set_branches(names(&["a", "b", "c"]), None);
    assert_eq!(form.source_name(), "a");
    assert_eq!(form.target_name(), "b");
    form.cycle_source();
    form.cycle_source();
    assert_eq!(form.source_name(), "c");
    form.cycle_source();
    assert_eq!(form.source_name(), "a");
    form.cycle_target();
    assert_eq!(form.target_name(), "c");
    form.set_title("My PR".into());
    match form.submit() {
        Some(CreatePrFormEvent::Submit { title, .. }) => assert_eq!(title, "My PR"),
        None => panic!("expected a submission"),
    }
    form.toggle_visible();
    assert!(form.is_visible());
    form.set_visible(false);
    assert!(!form.is_visible());
    form.set_branches(vec![], None);
    assert_eq!(form.source_name(), "(none)");
    form.cycle_source();
    assert!(form.submit().is_none());
}

#[test]
fn staging_letters() {
    assert_eq!(status_char(FileStatus::Untracked, false), '?');
    assert_eq!(status_char(FileStatus::Ignored, true), '!');
    assert_eq!(status_char(FileStatus::Unmerged, true), 'U');
    let s = FileStatus::Versioned { index_status: StatusCode::Added, worktree_status: StatusCode::Modified };
    assert_eq!(status_char(s, true), 'A');
    assert_eq!(status_char(s, false), 'M');
    let clean = FileStatus::Versioned { index_status: StatusCode::Unmodified, worktree_status: StatusCode::TypeChanged };
    assert_eq!(status_char(clean, true), ' ');
    assert_eq!(status_char(clean, false), 'T');
}

#[test]
fn unified_diff_keeps_headers_and_prefixes_lines() {
    let text = unified_diff(&vec![
        PatchLine { origin: 'F', content: b"diff --git a/x b/x\n".to_vec() },
        PatchLine { origin: 'H', content: b"@@ -1 +1 @@\n".to_vec() },
        PatchLine { origin: '-', content: b"old\n".to_vec() },
        PatchLine { origin: '+', content: vec![0xff] },
        PatchLine { origin: ' ', content: b"ctx\n".to_vec() },
    ]);
    assert_eq!(text, "diff --git a/x b/x\n@@ -1 +1 @@\n-old\n+ ctx\n");
}

#[test]
fn prompt_responses_carry_the_chosen_index() {
    let r = PromptResponse(2);
    assert_eq!(r.0, 2);
    assert_eq!(r, PromptResponse(2));
}
