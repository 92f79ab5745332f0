use maguito::app::App;
use maguito::editor::{commit_message_from_editor, commit_template};
use maguito::git::repo::{ChangeKind, CommitInfo, FileEntry, Hunk, HunkLine, RepoStatus, SectionKind};
use maguito::text::{
    chars_of, first_nonblank_line, last_nonblank_line, nonblank_line_strings, push_decimal, str_eq,
    trim, trim_end,
};
use maguito::transient::Transient;
use maguito::ui::status::{bottom_rect, help_rows, pad_right_str, Area, Row, Tone, HELP_HEIGHT};

fn text(row: &Row) -> String {
    row.spans.iter().map(|s| s.text.as_str()).collect()
}

fn sample_app() -> App {
    let h = Hunk {
        header: "@@ -1 +1 @@".into(),
        old_start: 1,
        old_lines: 1,
        new_start: 1,
        new_lines: 1,
        lines: vec![
            HunkLine { origin: '-', content: "old".into() },
            HunkLine { origin: '+', content: "new".into() },
            HunkLine { origin: ' ', content: "same".into() },
        ],
    };
    App::from_status(RepoStatus {
        branch: "main".into(),
        sections: vec![
            (SectionKind::Untracked, vec![FileEntry { path: "n.txt".into(), kind: ChangeKind::Untracked, hunks: vec![] }]),
            (SectionKind::Staged, vec![FileEntry { path: "s.rs".into(), kind: ChangeKind::Added, hunks: vec![h] }]),
        ],
        commits: vec![CommitInfo { sha: "abc1234".into(), message: "first".into() }],
    })
}

#[test]
fn editor_template_and_message() {
    let t = commit_template(Some("old message"));
    assert_eq!(
        t,
        "old message\n# Please enter the commit message for your changes.\n# Lines starting with '#' will be ignored.\n# An empty message aborts the commit.\n"
    );
    assert!(commit_template(None).starts_with("\n# Please enter"));
    assert_eq!(commit_message_from_editor(&t).as_deref(), Some("old message"));
    assert_eq!(
        commit_message_from_editor("  Subject\r\n\n# note\nBody line  \n\n").as_deref(),
        Some("Subject\n\nBody line")
    );
    assert_eq!(commit_message_from_editor("# only a comment\n   \n"), None);
    assert_eq!(commit_message_from_editor(""), None);
}

#[test]
fn text_helpers() {
    assert_eq!(trim("  \t a b \n"), "a b");
    assert_eq!(trim_end("  x \n"), "  x");
    assert_eq!(trim("\u{3000}wide\u{a0}"), "wide");
    let mut s = String::from("n=");
    push_decimal(&mut s, 40213);
    assert_eq!(s, "n=40213");
    assert!(str_eq("abc", "abc"));
    assert!(!str_eq("abc", "abd"));
    assert_eq!(pad_right_str("ab", 5), "ab   ");
    assert_eq!(pad_right_str("abcdef", 3), "abcdef");
    let cs = chars_of("\n  \nfirst\nmid\nlast\n \n");
    let (a, b) = first_nonblank_line(&cs).unwrap();
    assert_eq!(cs[a..b].iter().collect::<String>(), "first");
    let (a, b) = last_nonblank_line(&cs).unwrap();
    assert_eq!(cs[a..b].iter().collect::<String>(), "last");
    assert_eq!(nonblank_line_strings(&cs), vec!["first", "mid", "last"]);
    assert!(first_nonblank_line(&chars_of(" \n\t\n")).is_none());
}

#[test]
fn status_screen_rows() {
    let mut app = sample_app();
    app.cursor = 3;
    app.toggle_collapse();
    app.visual_anchor = Some(4);
    app.cursor = 5;
    let layout = app.status_layout();
    let rows: Vec<String> = layout.rows.iter().map(text).collect();
    assert_eq!(
        rows,
        vec![
            "Head:     main",
            "",
            "Untracked files (1)",
            "n.txt",
            "",
            "Staged changes (1)",
            "new file  s.rs",
            "@@ -1 +1 @@",
            "-old",
            "+new",
            " same",
            "",
            "Recent commits",
            "abc1234 first",
        ]
    );
    assert_eq!(layout.cursor_rows, vec![2, 3, 5, 6, 7, 8, 9, 10, 12, 13]);
    let selected: Vec<usize> = layout.rows.iter().enumerate().filter(|(_, r)| r.selected).map(|(i, _)| i).collect();
    assert_eq!(selected, vec![7, 8]);
    assert_eq!(layout.rows[6].spans[1].tone, Tone::StagedPath);
    assert_eq!(layout.rows[8].spans[0].tone, Tone::Removed);
    assert_eq!(layout.rows[9].spans[0].tone, Tone::Added);
    assert_eq!(layout.rows[13].spans[0].tone, Tone::Sha);
}

#[test]
fn footer_prefers_the_question() {
    let mut app = sample_app();
    assert!(app.footer_text().is_none());
    app.message = Some("pushed".into());
    assert_eq!(app.footer_text().map(|s| s.as_str()), Some("pushed"));
    app.cursor = 1;
    app.discard_current();
    assert_eq!(app.footer_text().map(|s| s.as_str()), Some("Trash \"n.txt\"? (y or n)"));
}

#[test]
fn bottom_area() {
    let r = Area { x: 2, y: 3, width: 80, height: 24 };
    assert_eq!(bottom_rect(r, HELP_HEIGHT), Area { x: 2, y: 13, width: 80, height: 14 });
    assert_eq!(bottom_rect(r, 30), Area { x: 2, y: 3, width: 80, height: 24 });
}

#[test]
fn help_panel_lists_the_keys() {
    let rows = help_rows();
    assert_eq!(text(&rows[0]), "Transient and dwim commands");
    assert_eq!(text(&rows[1]), " c       Commit");
    assert_eq!(rows[1].spans[1].tone, Tone::Bold);
    assert!(rows.iter().any(|r| text(r) == " s       Stage"));
    assert_eq!(text(&rows[14]), " <tab>   Toggle section at point");
}

#[test]
fn menu_panels() {
    let mut t = Transient::push();
    t.toggle_flag('u');
    let rows = t.menu_rows();
    assert_eq!(text(&rows[0]), "Arguments");
    assert_eq!(text(&rows[1]), "  -f  Force with lease  (--force-with-lease)");
    assert_eq!(rows[1].spans[1].tone, Tone::FlagKey);
    assert_eq!(text(&rows[4]), "  -u  Set upstream  (--set-upstream)");
    assert_eq!(rows[4].spans[1].tone, Tone::ActiveFlagKey);
    assert_eq!(rows[4].spans[5].tone, Tone::ActiveFlagArgument);
    assert_eq!(text(&rows[5]), "");
    assert_eq!(text(&rows[6]), "Push to");
    assert_eq!(text(&rows[7]), "  p  push-remote");
    assert_eq!(text(&rows[8]), "  u  upstream");
    assert_eq!(rows.len(), 9);
    assert_eq!(t.menu_height(), 10);
    let c = Transient::commit();
    let rows = c.menu_rows();
    assert_eq!(text(&rows[7]), format!("Create{}Edit HEAD", " ".repeat(10)));
    assert_eq!(text(&rows[8]), "  c  Commit    e  Extend");
    assert_eq!(text(&rows[9]), format!("  {}a  Amend", " ".repeat(13)));
    assert_eq!(c.menu_height(), 13);
    assert_eq!(Transient::fetch().menu_height(), 8);
    assert_eq!(Transient::pull().menu_height(), 9);
}
