use maguito::git::repo::{
    amend, assemble_status, branch_config_key, branch_label, build_partial_patch, build_patch,
    change_kind_of, choose_push_remote, commit, discard_file, discard_hunk, discard_lines, extend,
    fetch, fetch_all, files_from_events, finish, parse_output, pull, push, push_to_upstream,
    reword, stage_file, stage_hunk, stage_lines, stash_apply, stash_drop, stash_list, stash_pop,
    stash_push, stash_push_keep_index, stash_push_paths, stash_push_staged, stash_show, short_sha,
    strip_prefix, summarize_stash_list, trash_file, unstage_file, unstage_hunk, unstage_lines,
    untracked_entries, upstream_of, ChangeKind, DeltaKind, DiffEvent, FileEntry, GitCommand, Hunk,
    HunkLine, OutputKind, RepoOp, SectionKind,
};

fn args(c: &GitCommand) -> Vec<&str> {
    c.args.iter().map(|s| s.as_str()).collect()
}

fn hunk(lines: &[(char, &str)]) -> Hunk {
    Hunk {
        header: "@@ -5,3 +7,4 @@".into(),
        old_start: 5,
        old_lines: 3,
        new_start: 7,
        new_lines: 4,
        lines: lines.iter().map(|(o, c)| HunkLine { origin: *o, content: c.to_string() }).collect(),
    }
}

#[test]
fn stash_commands_put_flags_after_the_subcommand() {
    let c = stash_push(&["--include-untracked"]);
    assert_eq!(args(&c), vec!["stash", "push", "--include-untracked"]);
    assert_eq!(c.output, OutputKind::Summary);
    assert_eq!(c.context, "failed to run git stash");
    assert!(!c.in_workdir);
    assert!(c.stdin.is_none() && c.message.is_none());
    assert_eq!(args(&stash_push_staged(&["-q"])), vec!["stash", "push", "--staged", "-q"]);
    assert_eq!(args(&stash_push_keep_index(&[])), vec!["stash", "push", "--keep-index"]);
    assert_eq!(args(&stash_pop()), vec!["stash", "pop"]);
    assert_eq!(args(&stash_apply()), vec!["stash", "apply"]);
    assert_eq!(args(&stash_drop()), vec!["stash", "drop"]);
    assert_eq!(args(&stash_show()), vec!["stash", "show"]);
}

#[test]
fn stash_list_and_paths_commands() {
    let l = stash_list();
    assert_eq!(args(&l), vec!["stash", "list"]);
    assert_eq!(l.output, OutputKind::StashList);
    assert_eq!(l.context, "failed to run git stash list");
    let p = stash_push_paths(&["a.rs".to_string(), "b.rs".to_string()]);
    assert_eq!(args(&p), vec!["stash", "push", "--include-untracked", "--", "a.rs", "b.rs"]);
    assert_eq!(p.context, "failed to run git stash push");
}

#[test]
fn remote_commands_name_remote_and_refspec() {
    assert_eq!(args(&fetch("origin", &["--prune"])), vec!["fetch", "--prune", "origin"]);
    assert_eq!(args(&fetch_all(&["--tags"])), vec!["fetch", "--all", "--tags"]);
    assert_eq!(args(&push("origin", &[])), vec!["push", "origin", "HEAD"]);
    assert_eq!(
        args(&push_to_upstream("origin", "main", &["--force"])),
        vec!["push", "--force", "origin", "HEAD:main"]
    );
    assert_eq!(args(&pull("up", "dev", &["--rebase"])), vec!["pull", "--rebase", "up", "dev"]);
    assert_eq!(fetch("origin", &[]).context, "failed to run git fetch");
}

#[test]
fn commit_commands_carry_the_message() {
    let c = commit("fix it", &["--all"]);
    assert_eq!(args(&c), vec!["commit", "--all"]);
    assert_eq!(c.message.as_deref(), Some("fix it"));
    assert_eq!(c.context, "failed to run git commit");
    assert_eq!(args(&amend("m", &[])), vec!["commit", "--amend"]);
    assert_eq!(args(&reword("m", &[])), vec!["commit", "--amend", "--only"]);
    let e = extend(&["--no-verify"]);
    assert_eq!(args(&e), vec!["commit", "--amend", "--no-edit", "--no-verify"]);
    assert!(e.message.is_none());
}

#[test]
fn file_commands_run_in_the_work_tree() {
    let p = "src/a b.rs".to_string();
    let s = stage_file(&p);
    assert_eq!(args(&s), vec!["add", "--", "src/a b.rs"]);
    assert!(s.in_workdir);
    assert_eq!(s.output, OutputKind::Quiet);
    assert_eq!(args(&unstage_file(&p)), vec!["restore", "--staged", "--", "src/a b.rs"]);
    let d = discard_file(&p, true);
    assert_eq!(args(&d), vec!["checkout", "HEAD", "--", "src/a b.rs"]);
    assert_eq!(d.output, OutputKind::QuietRaw);
    assert_eq!(args(&discard_file(&p, false)), vec!["checkout", "--", "src/a b.rs"]);
    assert!(matches!(trash_file(&p), RepoOp::Trash(ref q) if q == "src/a b.rs"));
}

#[test]
fn whole_hunk_patch_is_exact() {
    let h = hunk(&[(' ', "a"), ('-', "b"), ('+', "c")]);
    assert_eq!(
        build_patch("f.txt", &h),
        "diff --git a/f.txt b/f.txt\n--- a/f.txt\n+++ b/f.txt\n@@ -5,3 +7,4 @@\n a\n-b\n+c\n"
    );
}

#[test]
fn partial_patch_recounts_and_keeps_unselected_deletions_as_context() {
    let h = hunk(&[(' ', "a"), ('-', "b"), ('+', "c"), ('-', "d"), ('+', "e")]);
    let p = build_partial_patch("f.txt", &h, &[2, 3]);
    assert_eq!(
        p,
        "diff --git a/f.txt b/f.txt\n--- a/f.txt\n+++ b/f.txt\n@@ -5,3 +7,3 @@\n a\n b\n+c\n-d\n"
    );
}

#[test]
fn selecting_every_line_gives_the_whole_hunk_body() {
    let h = hunk(&[(' ', "a"), ('-', "b"), ('+', "c")]);
    let full = build_patch("f.txt", &h);
    let part = build_partial_patch("f.txt", &h, &[0, 1, 2]);
    let body = |s: &str| s.lines().skip(4).map(|l| l.to_string()).collect::<Vec<_>>();
    assert_eq!(body(&full), body(&part));
    assert!(part.contains("@@ -5,2 +7,2 @@"));
}

#[test]
fn hunk_commands_feed_the_patch_to_git_apply() {
    let h = hunk(&[('+', "x")]);
    let s = stage_hunk("f", &h);
    assert_eq!(args(&s), vec!["apply", "--cached", "-"]);
    assert_eq!(s.stdin.as_deref(), Some(build_patch("f", &h).as_str()));
    assert_eq!(s.output, OutputKind::Apply);
    assert!(s.in_workdir);
    assert_eq!(args(&unstage_hunk("f", &h)), vec!["apply", "--cached", "--reverse", "-"]);
    assert_eq!(args(&discard_hunk("f", &h, true)), vec!["apply", "--cached", "--reverse", "-"]);
    assert_eq!(args(&discard_hunk("f", &h, false)), vec!["apply", "--reverse", "-"]);
    assert_eq!(args(&stage_lines("f", &h, &[0])), vec!["apply", "--cached", "-"]);
    assert_eq!(args(&unstage_lines("f", &h, &[0])), vec!["apply", "--cached", "--reverse", "-"]);
}

#[test]
fn discarding_staged_lines_reverses_index_then_work_tree() {
    let h = hunk(&[('+', "x"), ('-', "y")]);
    let staged = discard_lines("f", &h, &[0], true);
    assert_eq!(staged.len(), 2);
    assert_eq!(args(&staged[0]), vec!["apply", "--cached", "--reverse", "-"]);
    assert_eq!(args(&staged[1]), vec!["apply", "--reverse", "-"]);
    assert_eq!(staged[0].stdin, staged[1].stdin);
    let unstaged = discard_lines("f", &h, &[0], false);
    assert_eq!(unstaged.len(), 1);
    assert_eq!(args(&unstaged[0]), vec!["apply", "--reverse", "-"]);
}

#[test]
fn output_reports_last_line_or_first_error() {
    assert_eq!(parse_output(true, "a\n\nlast line  \n", ""), Ok("last line".to_string()));
    assert_eq!(parse_output(true, "out", "  progress\n done \n"), Ok("progress\n done".lines().last().unwrap().to_string()));
    assert_eq!(parse_output(true, "  \n", ""), Ok("Done".to_string()));
    assert_eq!(parse_output(false, "", "\n\nerror: bad\nhint: x\n"), Err("error: bad".to_string()));
    assert_eq!(parse_output(false, "", ""), Err("git command failed".to_string()));
    assert_eq!(parse_output(false, "only stdout\n", "   "), Err("only stdout".to_string()));
}

#[test]
fn stash_list_is_summarized() {
    assert_eq!(summarize_stash_list(true, "", ""), Ok("No stashes".to_string()));
    assert_eq!(summarize_stash_list(true, "stash@{0}: WIP\n", ""), Ok("stash@{0}: WIP".to_string()));
    assert_eq!(
        summarize_stash_list(true, "stash@{0}: a\n  \nstash@{1}: b\nstash@{2}: c\n", ""),
        Ok("3 stashes, latest: stash@{0}: a".to_string())
    );
    assert_eq!(summarize_stash_list(false, "", "fatal: no\nmore"), Err("fatal: no".to_string()));
    assert_eq!(summarize_stash_list(false, "", ""), Err("git stash list failed".to_string()));
}

#[test]
fn finishing_follows_the_output_kind() {
    assert_eq!(finish(OutputKind::Quiet, true, "x", "y"), Ok(String::new()));
    assert_eq!(finish(OutputKind::Quiet, false, "", "  err \n"), Err("err".to_string()));
    assert_eq!(finish(OutputKind::QuietRaw, false, "", " err \n"), Err(" err \n".to_string()));
    assert_eq!(finish(OutputKind::Apply, false, "", "bad"), Err("git apply failed: bad".to_string()));
    assert_eq!(finish(OutputKind::Summary, true, "ok\n", ""), Ok("ok".to_string()));
    assert_eq!(finish(OutputKind::StashList, true, "", ""), Ok("No stashes".to_string()));
}

#[test]
fn diff_events_build_files_hunks_and_lines() {
    let events = vec![
        DiffEvent::Line { origin: '+', content: "dropped".into() },
        DiffEvent::File { path: "a.rs".into(), kind: ChangeKind::Modified },
        DiffEvent::Line { origin: '+', content: "also dropped".into() },
        DiffEvent::Hunk { header: "@@ -1 +1 @@  \n".into(), old_start: 1, old_lines: 1, new_start: 1, new_lines: 2 },
        DiffEvent::Line { origin: ' ', content: "ctx\n".into() },
        DiffEvent::Line { origin: '+', content: "new \t\n".into() },
        DiffEvent::Line { origin: '>', content: "eof marker".into() },
        DiffEvent::File { path: "b.rs".into(), kind: ChangeKind::Added },
    ];
    let files = files_from_events(events);
    assert_eq!(files.len(), 2);
    assert_eq!(files[0].path, "a.rs");
    assert_eq!(files[0].hunks.len(), 1);
    let h = &files[0].hunks[0];
    assert_eq!(h.header, "@@ -1 +1 @@");
    assert_eq!((h.old_start, h.old_lines, h.new_start, h.new_lines), (1, 1, 1, 2));
    assert_eq!(h.lines.len(), 2);
    assert_eq!(h.lines[0].origin, ' ');
    assert_eq!(h.lines[0].content, "ctx");
    assert_eq!(h.lines[1].content, "new");
    assert_eq!(files[1].path, "b.rs");
    assert!(matches!(files[1].kind, ChangeKind::Added));
    assert!(files[1].hunks.is_empty());
}

#[test]
fn delta_status_maps_to_change_kind() {
    assert!(matches!(change_kind_of(DeltaKind::Added), ChangeKind::Added));
    assert!(matches!(change_kind_of(DeltaKind::Deleted), ChangeKind::Deleted));
    assert!(matches!(change_kind_of(DeltaKind::Renamed), ChangeKind::Renamed));
    assert!(matches!(change_kind_of(DeltaKind::Copied), ChangeKind::Modified));
    assert!(matches!(change_kind_of(DeltaKind::Typechange), ChangeKind::Modified));
    assert_eq!(ChangeKind::Added.label(), "new file");
    assert_eq!(ChangeKind::Untracked.label(), "");
}

fn entry(path: &str) -> FileEntry {
    FileEntry { path: path.into(), kind: ChangeKind::Modified, hunks: vec![] }
}

#[test]
fn status_lists_untracked_then_staged_then_unstaged() {
    let s = assemble_status(
        branch_label(Some(Some("main".into()))),
        untracked_entries(vec!["new.txt".into()]),
        vec![entry("s.txt")],
        vec![entry("u.txt")],
        vec![],
    );
    assert_eq!(s.branch, "main");
    let kinds: Vec<SectionKind> = s.sections.iter().map(|(k, _)| *k).collect();
    assert_eq!(kinds, vec![SectionKind::Untracked, SectionKind::Staged, SectionKind::Unstaged]);
    assert!(matches!(s.sections[0].1[0].kind, ChangeKind::Untracked));
    assert_eq!(s.sections[0].1[0].path, "new.txt");
    let only_unstaged = assemble_status("x".into(), vec![], vec![], vec![entry("u")], vec![]);
    assert_eq!(only_unstaged.sections.len(), 1);
    assert_eq!(only_unstaged.sections[0].0, SectionKind::Unstaged);
}

#[test]
fn head_labels() {
    assert_eq!(branch_label(None), "(no commits yet)");
    assert_eq!(branch_label(Some(None)), "HEAD");
    assert_eq!(branch_label(Some(Some("dev".into()))), "dev");
    assert_eq!(branch_config_key("dev", "pushRemote"), "branch.dev.pushRemote");
}

#[test]
fn remotes_are_chosen_in_order() {
    assert_eq!(choose_push_remote(Some("a".into()), Some("b".into()), Some(Some("c".into()))), Ok("a".into()));
    assert_eq!(choose_push_remote(None, Some("b".into()), Some(Some("c".into()))), Ok("b".into()));
    assert_eq!(choose_push_remote(None, None, Some(Some("c".into()))), Ok("c".into()));
    assert_eq!(choose_push_remote(None, None, Some(None)), Err("no push remote configured".into()));
    assert_eq!(choose_push_remote(None, None, None), Err("no push remote configured".into()));
}

#[test]
fn upstream_strips_refs_heads() {
    assert_eq!(
        upstream_of(Ok("origin".into()), Ok("refs/heads/main".into())),
        Ok(("origin".to_string(), "main".to_string()))
    );
    assert_eq!(upstream_of(Ok("o".into()), Ok("weird".into())), Ok(("o".to_string(), "weird".to_string())));
    assert_eq!(
        upstream_of(Err("not found".into()), Ok("x".into())),
        Err("no upstream remote configured (set with git branch --set-upstream-to): not found".to_string())
    );
    assert_eq!(
        upstream_of(Ok("o".into()), Err("nope".into())),
        Err("no upstream branch configured: nope".to_string())
    );
    assert_eq!(strip_prefix("refs/heads/x", "refs/heads/"), "x");
    assert_eq!(strip_prefix("refs/x", "refs/heads/"), "refs/x");
}

#[test]
fn commits_are_named_by_seven_hex_digits() {
    assert_eq!(short_sha("0123456789abcdef0123456789abcdef01234567"), "0123456");
    assert_eq!(short_sha("abc"), "abc");
}
