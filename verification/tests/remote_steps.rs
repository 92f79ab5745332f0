use maguito::app::App;
use maguito::git::repo::{ChangeKind, FileEntry, OutputKind, RepoStatus, SectionKind};
use maguito::keys::KeyAction;
use maguito::remote::{lookup, remote_step, Lookup};

fn step(a: KeyAction, flags: &[&str]) -> (String, Vec<String>) {
    let (m, c) = remote_step(a, "origin", "main", flags).unwrap();
    assert_eq!(c.output, OutputKind::Summary);
    assert!(!c.in_workdir && c.stdin.is_none() && c.message.is_none());
    (m, c.args)
}

#[test]
fn each_remote_action_says_what_it_needs() {
    assert_eq!(lookup(KeyAction::FetchFromPushRemote), Some(Lookup::PushRemote));
    assert_eq!(lookup(KeyAction::FetchFromUpstream), Some(Lookup::Upstream));
    assert_eq!(lookup(KeyAction::FetchAll), Some(Lookup::Nothing));
    assert_eq!(lookup(KeyAction::PushToPushRemote), Some(Lookup::PushRemote));
    assert_eq!(lookup(KeyAction::PushToUpstream), Some(Lookup::Upstream));
    assert_eq!(lookup(KeyAction::PullFromPushRemote), Some(Lookup::PushRemoteAndBranch));
    assert_eq!(lookup(KeyAction::PullFromUpstream), Some(Lookup::Upstream));
    assert_eq!(lookup(KeyAction::CommitCreate), None);
    assert_eq!(lookup(KeyAction::Quit), None);
}

#[test]
fn remote_actions_announce_and_build_their_command() {
    assert_eq!(step(KeyAction::FetchFromPushRemote, &["--prune"]), ("Fetching from origin…".to_string(), vec!["fetch".to_string(), "--prune".into(), "origin".into()]));
    assert_eq!(step(KeyAction::FetchFromUpstream, &[]).0, "Fetching from origin…");
    assert_eq!(step(KeyAction::FetchAll, &["--tags"]), ("Fetching all remotes…".to_string(), vec!["fetch".to_string(), "--all".into(), "--tags".into()]));
    assert_eq!(step(KeyAction::PushToPushRemote, &[]), ("Pushing to origin…".to_string(), vec!["push".to_string(), "origin".into(), "HEAD".into()]));
    assert_eq!(step(KeyAction::PushToUpstream, &["--force"]), ("Pushing to origin/main…".to_string(), vec!["push".to_string(), "--force".into(), "origin".into(), "HEAD:main".into()]));
    assert_eq!(step(KeyAction::PullFromPushRemote, &[]), ("Pulling from origin…".to_string(), vec!["pull".to_string(), "origin".into(), "main".into()]));
    assert_eq!(step(KeyAction::PullFromUpstream, &["--rebase"]), ("Pulling from origin/main…".to_string(), vec!["pull".to_string(), "--rebase".into(), "origin".into(), "main".into()]));
    assert!(remote_step(KeyAction::CommitExtend, "origin", "main", &[]).is_none());
}

#[test]
fn a_commit_without_staged_changes_is_refused() {
    let unstaged = App::from_status(RepoStatus {
        branch: "main".into(),
        sections: vec![(SectionKind::Unstaged, vec![FileEntry { path: "a".into(), kind: ChangeKind::Modified, hunks: vec![] }])],
        commits: vec![],
    });
    assert_eq!(unstaged.commit_refusal(&[]).as_deref(), Some("Nothing staged (use -a to stage all)"));
    assert_eq!(unstaged.commit_refusal(&["--all"]), None);
    assert_eq!(unstaged.commit_refusal(&["--allow-empty"]), None);
}
