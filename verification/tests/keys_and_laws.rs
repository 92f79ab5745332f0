use maguito::app::{App, CursorItem};
use maguito::git::repo::{
    discard_hunk, discard_lines, stage_hunk, stage_lines, unstage_hunk, unstage_lines, ChangeKind,
    FileEntry, Hunk, HunkLine, RepoStatus, SectionKind,
};
use maguito::keys::{handle, KeyAction, KeyCode, KeyInput};
use maguito::transient::{Transient, TransientKind};

fn key(c: char) -> KeyInput {
    KeyInput { code: KeyCode::Char(c), control: false }
}

fn special(code: KeyCode) -> KeyInput {
    KeyInput { code, control: false }
}

fn file(path: &str, hunks: usize) -> FileEntry {
    FileEntry {
        path: path.into(),
        kind: ChangeKind::Modified,
        hunks: (0..hunks)
            .map(|_| Hunk {
                header: "@@ -1 +1 @@".into(),
                old_start: 1,
                old_lines: 1,
                new_start: 1,
                new_lines: 1,
                lines: vec![
                    HunkLine { origin: '-', content: "a".into() },
                    HunkLine { origin: '+', content: "b".into() },
                ],
            })
            .collect(),
    }
}

fn status() -> RepoStatus {
    RepoStatus {
        branch: "main".into(),
        sections: vec![
            (SectionKind::Staged, vec![file("s.rs", 1)]),
            (SectionKind::Unstaged, vec![file("u.rs", 2), file("v.rs", 1)]),
        ],
        commits: vec![],
    }
}

fn app() -> App {
    App::from_status(status())
}

fn folds(app: &App) -> Vec<(bool, Vec<(bool, Vec<bool>)>)> {
    app.sections
        .iter()
        .map(|s| (s.collapsed, s.files.iter().map(|f| (f.collapsed, f.hunk_collapsed.clone())).collect()))
        .collect()
}

#[test]
fn quitting_keys() {
    let mut a = app();
    assert_eq!(handle(&mut a, key('q')), KeyAction::Quit);
    assert_eq!(handle(&mut a, special(KeyCode::Esc)), KeyAction::Quit);
    assert_eq!(handle(&mut a, KeyInput { code: KeyCode::Char('c'), control: true }), KeyAction::Quit);
    assert!(a.transient.is_none());
}

#[test]
fn moving_keys_and_tab() {
    let mut a = app();
    assert_eq!(handle(&mut a, key('j')), KeyAction::Continue);
    assert_eq!(a.cursor, 1);
    handle(&mut a, special(KeyCode::Down));
    assert_eq!(a.cursor, 2);
    handle(&mut a, key('k'));
    handle(&mut a, special(KeyCode::Up));
    assert_eq!(a.cursor, 0);
    a.cursor = 1;
    handle(&mut a, special(KeyCode::Tab));
    assert!(!a.sections[0].files[0].collapsed);
    handle(&mut a, special(KeyCode::Other));
    assert_eq!(a.cursor, 1);
}

#[test]
fn repository_keys_are_handed_back() {
    let mut a = app();
    assert_eq!(handle(&mut a, key('s')), KeyAction::StageCurrent);
    assert_eq!(handle(&mut a, key('u')), KeyAction::UnstageCurrent);
    assert_eq!(handle(&mut a, key('g')), KeyAction::Refresh);
}

#[test]
fn a_key_clears_the_message() {
    let mut a = app();
    a.message = Some("done".into());
    handle(&mut a, key('z'));
    assert!(a.message.is_none());
}

#[test]
fn menu_keys_open_menus() {
    for (c, kind) in [
        ('c', TransientKind::Commit),
        ('f', TransientKind::Fetch),
        ('p', TransientKind::Push),
        ('P', TransientKind::Push),
        ('F', TransientKind::Pull),
    ] {
        let mut a = app();
        assert_eq!(handle(&mut a, key(c)), KeyAction::Continue);
        let t = a.transient.as_ref().unwrap();
        assert_eq!(t.kind, kind);
        assert!(t.active_flags.iter().all(|f| !f));
        assert!(!t.awaiting_flag);
    }
}

#[test]
fn menu_actions() {
    let cases = [
        ('c', 'c', KeyAction::CommitCreate),
        ('c', 'a', KeyAction::CommitAmend),
        ('c', 'w', KeyAction::CommitReword),
        ('c', 'e', KeyAction::CommitExtend),
        ('f', 'p', KeyAction::FetchFromPushRemote),
        ('f', 'u', KeyAction::FetchFromUpstream),
        ('f', 'a', KeyAction::FetchAll),
        ('p', 'p', KeyAction::PushToPushRemote),
        ('p', 'u', KeyAction::PushToUpstream),
        ('F', 'p', KeyAction::PullFromPushRemote),
        ('F', 'u', KeyAction::PullFromUpstream),
    ];
    for (open, act, expected) in cases {
        let mut a = app();
        handle(&mut a, key(open));
        assert_eq!(handle(&mut a, key(act)), expected);
        assert!(a.transient.is_some());
    }
}

#[test]
fn menu_closes_on_q_and_esc_and_ignores_other_keys() {
    let mut a = app();
    handle(&mut a, key('f'));
    assert_eq!(handle(&mut a, key('z')), KeyAction::Continue);
    assert!(a.transient.is_some());
    assert_eq!(handle(&mut a, key('q')), KeyAction::Continue);
    assert!(a.transient.is_none());
    handle(&mut a, key('f'));
    assert_eq!(handle(&mut a, special(KeyCode::Esc)), KeyAction::Continue);
    assert!(a.transient.is_none());
}

#[test]
fn dash_then_key_flips_one_switch() {
    let mut a = app();
    handle(&mut a, key('c'));
    handle(&mut a, key('-'));
    assert!(a.transient.as_ref().unwrap().awaiting_flag);
    handle(&mut a, key('e'));
    let t = a.transient.as_ref().unwrap();
    assert!(!t.awaiting_flag);
    assert_eq!(t.active_flags, vec![false, true, false, false, false]);
    handle(&mut a, key('-'));
    handle(&mut a, key('e'));
    assert_eq!(a.transient.as_ref().unwrap().active_flags, vec![false; 5]);
    handle(&mut a, key('-'));
    handle(&mut a, key('x'));
    assert_eq!(a.transient.as_ref().unwrap().active_flags, vec![false; 5]);
    assert_eq!(a.take_flags(), Vec::<&str>::new());
}

#[test]
fn help_closes_on_the_next_key() {
    let mut a = app();
    handle(&mut a, key('?'));
    assert!(a.show_help);
    assert_eq!(handle(&mut a, key('q')), KeyAction::Continue);
    assert!(!a.show_help);
}

#[test]
fn question_takes_the_next_key() {
    let mut a = app();
    a.cursor = 1;
    handle(&mut a, key('x'));
    assert!(a.confirm.is_some());
    assert_eq!(handle(&mut a, key('y')), KeyAction::ConfirmYes);
    assert!(a.confirm.is_some());
    assert_eq!(handle(&mut a, key('j')), KeyAction::Continue);
    assert!(a.confirm.is_none());
    assert_eq!(a.cursor, 1);
}

#[test]
fn toggling_twice_changes_nothing() {
    let mut a = app();
    for cursor in 0..4 {
        a.cursor = cursor;
        let before = folds(&a);
        let row = a.current_item();
        a.toggle_collapse();
        assert_eq!(a.current_item(), row);
        a.toggle_collapse();
        assert_eq!(folds(&a), before);
        assert_eq!(a.cursor, cursor);
    }
}

#[test]
fn down_then_up_comes_back() {
    let mut a = app();
    a.cursor = 2;
    a.move_down();
    a.move_up();
    assert_eq!(a.cursor, 2);
    a.move_up();
    a.move_down();
    assert_eq!(a.cursor, 2);
}

#[test]
fn fresh_buffer_hides_hunks_and_folded_section_shows_title() {
    let mut a = app();
    assert!(a
        .visible_items()
        .iter()
        .all(|i| !matches!(i, CursorItem::Hunk(..) | CursorItem::DiffLine(..))));
    a.cursor = 2;
    a.toggle_collapse();
    let rows = a.visible_items();
    assert_eq!(rows, vec![CursorItem::Section(0), CursorItem::File(0, 0), CursorItem::Section(1)]);
}

#[test]
fn reload_keeps_the_cursor_on_a_row() {
    let mut a = app();
    a.cursor = 4;
    a.refresh(RepoStatus { branch: "dev".into(), sections: vec![(SectionKind::Staged, vec![file("s.rs", 0)])], commits: vec![] });
    assert_eq!(a.branch, "dev");
    assert_eq!(a.cursor, 1);
    assert_eq!(a.current_item(), Some(CursorItem::File(0, 0)));
}

#[test]
fn switches_of_each_menu() {
    let mut t = Transient::push();
    assert!(t.toggle_flag('u'));
    assert!(t.toggle_flag('f'));
    assert_eq!(t.flags_vec(), vec!["--force-with-lease", "--set-upstream"]);
    let mut f = Transient::fetch();
    assert!(f.toggle_flag('F'));
    assert_eq!(f.flags_vec(), vec!["--force"]);
    let mut p = Transient::pull();
    assert!(p.toggle_flag('A'));
    assert!(p.toggle_flag('r'));
    assert_eq!(p.flags_vec(), vec!["--rebase", "--autostash"]);
}

#[test]
fn reloading_the_same_status_twice_changes_nothing() {
    let mut a = app();
    a.cursor = 1;
    a.toggle_collapse();
    a.cursor = 3;
    a.toggle_collapse();
    a.cursor = 9;
    a.refresh(status());
    let once = (folds(&a), a.cursor);
    a.refresh(status());
    assert_eq!((folds(&a), a.cursor), once);
}

#[test]
fn keys_keep_the_cursor_on_a_row() {
    let keys = [
        key('j'), key('j'), special(KeyCode::Tab), key('j'), key('j'), special(KeyCode::Tab), key('k'),
        special(KeyCode::Tab), key('x'), key('n'), key('c'), key('-'), key('a'), key('q'), key('?'),
        key('z'), special(KeyCode::Down), special(KeyCode::Down), special(KeyCode::Down),
        special(KeyCode::Tab), key('k'), key('k'), key('k'), key('k'), key('k'), special(KeyCode::Tab),
    ];
    let mut a = app();
    for k in keys {
        handle(&mut a, k);
        assert!(a.cursor < a.visible_count());
    }
}

#[test]
fn unstaging_reverses_the_staging_patch() {
    let h = &file("f", 1).hunks[0];
    let (s, u) = (stage_hunk("f", h), unstage_hunk("f", h));
    assert_eq!(s.stdin, u.stdin);
    assert_eq!(u.args, vec!["apply", "--cached", "--reverse", "-"]);
    assert_eq!(discard_hunk("f", h, true).args, u.args);
    let (s, u) = (stage_lines("f", h, &[1]), unstage_lines("f", h, &[1]));
    assert_eq!(s.stdin, u.stdin);
    assert_eq!(discard_lines("f", h, &[1], true)[0].stdin, u.stdin);
}
