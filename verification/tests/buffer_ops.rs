use maguito::app::{App, ConfirmKind, CursorItem};
use maguito::git::repo::{
    build_partial_patch, build_patch, ChangeKind, FileEntry, GitCommand, Hunk, HunkLine, RepoOp,
    RepoStatus, SectionKind,
};
use maguito::ops::{run_step, RunStep};
use maguito::transient::Transient;

fn hunk_of(lines: &[(char, &str)]) -> Hunk {
    Hunk {
        header: "@@ -1,2 +1,2 @@".into(),
        old_start: 1,
        old_lines: 2,
        new_start: 1,
        new_lines: 2,
        lines: lines.iter().map(|(o, c)| HunkLine { origin: *o, content: c.to_string() }).collect(),
    }
}

fn entry(path: &str, hunks: Vec<Hunk>) -> FileEntry {
    FileEntry { path: path.into(), kind: ChangeKind::Modified, hunks }
}

fn status(sections: Vec<(SectionKind, Vec<FileEntry>)>) -> RepoStatus {
    RepoStatus { branch: "main".into(), sections, commits: vec![] }
}

fn app_of(sections: Vec<(SectionKind, Vec<FileEntry>)>) -> App {
    App::from_status(status(sections))
}

fn git(op: &RepoOp) -> &GitCommand {
    match op {
        RepoOp::Git(c) => c,
        RepoOp::Trash(p) => panic!("expected a git command, got trash of {p}"),
    }
}

fn args(op: &RepoOp) -> Vec<&str> {
    git(op).args.iter().map(|s| s.as_str()).collect()
}

/// One unstaged file `a.rs` with one hunk of a context line, an added line and a removed line.
fn unstaged_app() -> App {
    let h = hunk_of(&[(' ', "keep"), ('+', "new"), ('-', "old")]);
    app_of(vec![(SectionKind::Unstaged, vec![entry("a.rs", vec![h])])])
}

#[test]
fn staging_an_unstaged_file_adds_its_path() {
    let mut app = unstaged_app();
    app.cursor = 1;
    let plan = app.stage_current();
    assert!(plan.refresh);
    assert_eq!(plan.ops.len(), 1);
    assert_eq!(args(&plan.ops[0]), vec!["add", "--", "a.rs"]);
}

#[test]
fn staging_a_section_adds_every_file() {
    let mut app = app_of(vec![(SectionKind::Untracked, vec![entry("x", vec![]), entry("y", vec![])])]);
    app.cursor = 0;
    let plan = app.stage_current();
    assert_eq!(plan.ops.len(), 2);
    assert_eq!(args(&plan.ops[0]), vec!["add", "--", "x"]);
    assert_eq!(args(&plan.ops[1]), vec!["add", "--", "y"]);
}

#[test]
fn staging_a_staged_file_does_nothing() {
    let mut app = app_of(vec![(SectionKind::Staged, vec![entry("s.rs", vec![])])]);
    app.cursor = 1;
    let plan = app.stage_current();
    assert!(plan.ops.is_empty());
    assert!(plan.refresh);
}

#[test]
fn staging_a_hunk_applies_its_patch_to_the_index() {
    let mut app = unstaged_app();
    app.cursor = 1;
    app.toggle_collapse();
    app.cursor = 2;
    assert_eq!(app.current_item(), Some(CursorItem::Hunk(0, 0, 0)));
    let plan = app.stage_current();
    assert_eq!(plan.ops.len(), 1);
    assert_eq!(args(&plan.ops[0]), vec!["apply", "--cached", "-"]);
    let h = &app.sections[0].files[0].entry.hunks[0];
    assert_eq!(git(&plan.ops[0]).stdin.as_deref(), Some(build_patch("a.rs", h).as_str()));
}

#[test]
fn staging_a_line_applies_a_patch_of_that_line() {
    let mut app = unstaged_app();
    app.cursor = 1;
    app.toggle_collapse();
    app.cursor = 4;
    assert_eq!(app.current_item(), Some(CursorItem::DiffLine(0, 0, 0, 1)));
    let plan = app.stage_current();
    assert_eq!(plan.ops.len(), 1);
    let h = &app.sections[0].files[0].entry.hunks[0];
    let expected = build_partial_patch("a.rs", h, &[1]);
    assert_eq!(git(&plan.ops[0]).stdin.as_deref(), Some(expected.as_str()));
    assert_eq!(
        expected,
        "diff --git a/a.rs b/a.rs\n--- a/a.rs\n+++ b/a.rs\n@@ -1,2 +1,3 @@\n keep\n+new\n old\n"
    );
}

#[test]
fn unstaging_a_staged_file_restores_the_index() {
    let mut app = app_of(vec![(SectionKind::Staged, vec![entry("s.rs", vec![])])]);
    app.cursor = 1;
    let plan = app.unstage_current();
    assert_eq!(plan.ops.len(), 1);
    assert_eq!(args(&plan.ops[0]), vec!["restore", "--staged", "--", "s.rs"]);
    let mut other = unstaged_app();
    other.cursor = 1;
    assert!(other.unstage_current().ops.is_empty());
}

#[test]
fn discarding_an_untracked_file_asks_to_trash_it() {
    let mut app = app_of(vec![(SectionKind::Untracked, vec![entry("junk.txt", vec![])])]);
    app.cursor = 1;
    app.discard_current();
    let c = app.confirm.as_ref().unwrap();
    assert!(matches!(c.kind, ConfirmKind::Trash));
    assert_eq!(c.prompt, "Trash \"junk.txt\"? (y or n)");
    assert!(app.confirm_valid());
    let plan = app.execute_confirm();
    assert!(app.confirm.is_none());
    assert!(plan.refresh);
    assert_eq!(plan.ops.len(), 1);
    assert!(matches!(&plan.ops[0], RepoOp::Trash(p) if p == "junk.txt"));
}

#[test]
fn discarding_a_modified_file_checks_it_out() {
    let mut app = unstaged_app();
    app.cursor = 1;
    app.discard_current();
    let c = app.confirm.as_ref().unwrap();
    assert!(matches!(c.kind, ConfirmKind::Discard));
    assert_eq!(c.prompt, "Discard unstaged changes in \"a.rs\"? (y or n)");
    let plan = app.execute_confirm();
    assert_eq!(args(&plan.ops[0]), vec!["checkout", "--", "a.rs"]);
}

#[test]
fn discarding_a_staged_file_checks_out_head() {
    let mut app = app_of(vec![(SectionKind::Staged, vec![entry("s.rs", vec![])])]);
    app.cursor = 1;
    app.discard_current();
    let plan = app.execute_confirm();
    assert_eq!(args(&plan.ops[0]), vec!["checkout", "HEAD", "--", "s.rs"]);
}

#[test]
fn discarding_a_hunk_reverses_it() {
    let mut app = unstaged_app();
    app.cursor = 1;
    app.toggle_collapse();
    app.cursor = 2;
    app.discard_current();
    let c = app.confirm.as_ref().unwrap();
    assert!(matches!(c.kind, ConfirmKind::DiscardHunk));
    assert_eq!(c.hunk, Some(0));
    assert_eq!(c.prompt, "Discard hunk from \"a.rs\"? (y or n)");
    let plan = app.execute_confirm();
    assert_eq!(args(&plan.ops[0]), vec!["apply", "--reverse", "-"]);
}

#[test]
fn discarding_a_changed_line_asks_and_a_context_line_does_not() {
    let mut app = unstaged_app();
    app.cursor = 1;
    app.toggle_collapse();
    app.cursor = 3;
    assert_eq!(app.current_item(), Some(CursorItem::DiffLine(0, 0, 0, 0)));
    app.discard_current();
    assert!(app.confirm.is_none());
    app.cursor = 5;
    app.discard_current();
    let c = app.confirm.as_ref().unwrap();
    assert!(matches!(&c.kind, ConfirmKind::DiscardBatch(v) if v == &vec![CursorItem::DiffLine(0, 0, 0, 2)]));
    assert_eq!(c.prompt, "Discard this line? (y or n)");
    let plan = app.execute_confirm();
    assert_eq!(plan.ops.len(), 1);
    assert_eq!(args(&plan.ops[0]), vec!["apply", "--reverse", "-"]);
}

#[test]
fn answering_without_a_question_does_nothing() {
    let mut app = unstaged_app();
    let plan = app.execute_confirm();
    assert!(plan.ops.is_empty());
    assert!(!plan.refresh);
}

#[test]
fn discarding_a_selection_counts_its_rows() {
    let mut app = app_of(vec![(SectionKind::Unstaged, vec![entry("a", vec![]), entry("b", vec![])])]);
    app.visual_anchor = Some(0);
    app.cursor = 2;
    assert_eq!(app.visual_range(), Some((0, 2)));
    app.discard_visual();
    assert!(app.visual_anchor.is_none());
    let c = app.confirm.as_ref().unwrap();
    assert_eq!(c.prompt, "Discard 2 item(s)? (y or n)");
    let plan = app.execute_confirm();
    assert_eq!(plan.ops.len(), 2);
    assert_eq!(args(&plan.ops[0]), vec!["checkout", "--", "a"]);
    assert_eq!(args(&plan.ops[1]), vec!["checkout", "--", "b"]);
}

#[test]
fn discarding_a_selection_of_titles_only_asks_nothing() {
    let mut app = app_of(vec![(SectionKind::Unstaged, vec![entry("a", vec![])])]);
    app.visual_anchor = Some(0);
    app.cursor = 0;
    app.discard_visual();
    assert!(app.visual_anchor.is_none());
    assert!(app.confirm.is_none());
}

#[test]
fn staging_a_selection_stages_each_file_and_ends_it_after_success() {
    let mut app = app_of(vec![(SectionKind::Unstaged, vec![entry("a", vec![]), entry("b", vec![])])]);
    app.visual_anchor = Some(2);
    app.cursor = 1;
    assert_eq!(app.visual_range(), Some((1, 2)));
    let plan = app.stage_visual();
    assert_eq!(app.visual_anchor, Some(2));
    assert!(plan.refresh);
    assert!(plan.end_selection);
    app.end_selection();
    assert!(app.visual_anchor.is_none());
    assert_eq!(plan.ops.len(), 2);
    assert_eq!(args(&plan.ops[0]), vec!["add", "--", "a"]);
    assert_eq!(args(&plan.ops[1]), vec!["add", "--", "b"]);
}

#[test]
fn unstaging_a_selection_restores_each_staged_file() {
    let mut app = app_of(vec![(SectionKind::Staged, vec![entry("a", vec![]), entry("b", vec![])])]);
    app.visual_anchor = Some(0);
    app.cursor = 2;
    let plan = app.unstage_visual();
    assert_eq!(app.visual_anchor, Some(0));
    assert!(plan.end_selection);
    assert_eq!(plan.ops.len(), 2);
    assert_eq!(args(&plan.ops[1]), vec!["restore", "--staged", "--", "b"]);
}

#[test]
fn stashing_a_selection_stashes_its_files() {
    let mut app = app_of(vec![(SectionKind::Unstaged, vec![entry("a", vec![]), entry("b", vec![])])]);
    let none = app.stash_visual();
    assert!(none.ops.is_empty() && !none.refresh);
    app.visual_anchor = Some(0);
    app.cursor = 2;
    let plan = app.stash_visual();
    assert!(app.visual_anchor.is_none());
    assert!(plan.refresh);
    assert_eq!(plan.ops.len(), 1);
    assert_eq!(args(&plan.ops[0]), vec!["stash", "push", "--include-untracked", "--", "a", "b"]);
}

#[test]
fn a_commit_needs_staged_changes_or_a_switch() {
    let app = unstaged_app();
    assert!(!app.can_commit(&[]));
    assert!(app.can_commit(&["--all"]));
    assert!(app.can_commit(&["--verbose", "--allow-empty"]));
    assert!(!app.can_commit(&["--verbose"]));
    let staged = app_of(vec![(SectionKind::Staged, vec![entry("s", vec![])])]);
    assert!(staged.can_commit(&[]));
}

#[test]
fn taking_the_flags_closes_the_menu() {
    let mut app = unstaged_app();
    assert!(app.take_flags().is_empty());
    let mut t = Transient::commit();
    assert!(t.toggle_flag('a'));
    assert!(t.toggle_flag('s'));
    assert!(!t.toggle_flag('z'));
    app.transient = Some(t);
    assert_eq!(app.take_flags(), vec!["--all", "--signoff"]);
    assert!(app.transient.is_none());
}

#[test]
fn row_and_question_checks() {
    let mut app = unstaged_app();
    assert!(app.lines_fit());
    assert!(app.names(CursorItem::File(0, 0)));
    assert!(!app.names(CursorItem::File(0, 1)));
    assert!(app.names(CursorItem::DiffLine(0, 0, 0, 2)));
    assert!(!app.names(CursorItem::DiffLine(0, 0, 0, 3)));
    assert!(!app.names(CursorItem::CommitHeader));
    assert!(app.confirm_valid());
    app.cursor = 1;
    app.discard_current();
    assert!(app.confirm_valid());
    app.confirm.as_mut().unwrap().file = 7;
    assert!(!app.confirm_valid());
}

#[test]
fn batch_of_lines_of_one_hunk_makes_one_patch() {
    let h = hunk_of(&[('+', "p"), ('+', "q"), (' ', "r")]);
    let app = app_of(vec![(SectionKind::Unstaged, vec![entry("f", vec![h])])]);
    let items = vec![CursorItem::DiffLine(0, 0, 0, 0), CursorItem::DiffLine(0, 0, 0, 1)];
    let ops = app.batch_plan(maguito::ops::BatchMode::Stage, &items);
    assert_eq!(ops.len(), 1);
    let h = &app.sections[0].files[0].entry.hunks[0];
    assert_eq!(git(&ops[0]).stdin.as_deref(), Some(build_partial_patch("f", h, &[0, 1]).as_str()));
}

#[test]
fn refresh_keeps_folds_and_clamps_the_cursor() {
    let h = hunk_of(&[('+', "x")]);
    let mut app = app_of(vec![
        (SectionKind::Unstaged, vec![entry("a", vec![h.clone()]), entry("b", vec![])]),
    ]);
    app.cursor = 1;
    app.toggle_collapse();
    assert_eq!(app.visible_count(), 5);
    app.cursor = 4;
    app.refresh(status(vec![(SectionKind::Unstaged, vec![entry("a", vec![h])])]));
    assert!(!app.sections[0].files[0].collapsed);
    assert_eq!(app.visible_count(), 4);
    assert_eq!(app.cursor, 3);
    app.refresh(status(vec![]));
    assert_eq!(app.cursor, 0);
    assert!(app.current_item().is_none());
}

#[test]
fn staging_without_a_selection_is_staging_the_row() {
    let mut app = unstaged_app();
    app.cursor = 1;
    let a = app.stage_visual();
    let b = app.stage_current();
    assert!(!a.end_selection);
    assert_eq!(a.ops.len(), b.ops.len());
    assert_eq!(args(&a.ops[0]), args(&b.ops[0]));
}

#[test]
fn a_plan_stops_at_the_first_failure() {
    let mut app = app_of(vec![(SectionKind::Unstaged, vec![entry("a", vec![]), entry("b", vec![])])]);
    app.cursor = 0;
    let plan = app.stage_current();
    assert_eq!(plan.ops.len(), 2);
    assert_eq!(run_step(&plan, 0, true), RunStep::Run(0));
    assert_eq!(run_step(&plan, 1, true), RunStep::Run(1));
    assert_eq!(run_step(&plan, 1, false), RunStep::Stop);
    assert_eq!(run_step(&plan, 2, false), RunStep::Stop);
    assert_eq!(run_step(&plan, 2, true), RunStep::Reload);
    let none = app.execute_confirm();
    assert_eq!(run_step(&none, 0, true), RunStep::Done);
}
