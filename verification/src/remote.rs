use vstd::prelude::*;

use crate::git::repo::{
    fetch, fetch_all, git_output_spec, owned, pull, push, push_to_upstream, strs, GitCommand,
    GitCommandView,
};
use crate::keys::KeyAction;
use crate::text::push_str;

verus! {

/// What the repository must tell before a remote action can run.
#[derive(Debug, Clone, Copy, PartialEq, Eq, Structural)]
pub enum Lookup {
    /// Nothing: the action names no remote.
    Nothing,
    /// The remote to push to (see `choose_push_remote`).
    PushRemote,
    /// The remote to push to and the checked-out branch.
    PushRemoteAndBranch,
    /// The remote and branch of the upstream (see `upstream_of`).
    Upstream,
}

/// What each remote action must learn first; other actions are no remote actions.
pub open spec fn lookup_spec(a: KeyAction) -> Option<Lookup> {
    match a {
        KeyAction::FetchFromPushRemote => Some(Lookup::PushRemote),
        KeyAction::FetchFromUpstream => Some(Lookup::Upstream),
        KeyAction::FetchAll => Some(Lookup::Nothing),
        KeyAction::PushToPushRemote => Some(Lookup::PushRemote),
        KeyAction::PushToUpstream => Some(Lookup::Upstream),
        KeyAction::PullFromPushRemote => Some(Lookup::PushRemoteAndBranch),
        KeyAction::PullFromUpstream => Some(Lookup::Upstream),
        _ => None,
    }
}

/// The message shown while a remote action runs, and the command it runs, once
/// `remote` and `branch` are known (see `lookup_spec`): fetching names the
/// remote, pushing and pulling to an upstream name its branch too.
pub open spec fn remote_step_spec(
    a: KeyAction,
    remote: Seq<char>,
    branch: Seq<char>,
    flags: Seq<Seq<char>>,
) -> Option<(Seq<char>, GitCommandView)> {
    match a {
        KeyAction::FetchFromPushRemote => Some(
            ("Fetching from "@ + remote + "…"@, git_output_spec(seq!["fetch"@], flags, seq![remote])),
        ),
        KeyAction::FetchFromUpstream => Some(
            ("Fetching from "@ + remote + "…"@, git_output_spec(seq!["fetch"@], flags, seq![remote])),
        ),
        KeyAction::FetchAll => Some(
            ("Fetching all remotes…"@, git_output_spec(seq!["fetch"@, "--all"@], flags, Seq::empty())),
        ),
        KeyAction::PushToPushRemote => Some(
            ("Pushing to "@ + remote + "…"@, git_output_spec(seq!["push"@], flags, seq![remote, "HEAD"@])),
        ),
        KeyAction::PushToUpstream => Some(
            (
                "Pushing to "@ + remote + "/"@ + branch + "…"@,
                git_output_spec(seq!["push"@], flags, seq![remote, "HEAD:"@ + branch]),
            ),
        ),
        KeyAction::PullFromPushRemote => Some(
            ("Pulling from "@ + remote + "…"@, git_output_spec(seq!["pull"@], flags, seq![remote, branch])),
        ),
        KeyAction::PullFromUpstream => Some(
            (
                "Pulling from "@ + remote + "/"@ + branch + "…"@,
                git_output_spec(seq!["pull"@], flags, seq![remote, branch]),
            ),
        ),
        _ => None,
    }
}

/// What the remote action `a` must learn first (see `lookup_spec`).
pub fn lookup(a: KeyAction) -> (r: Option<Lookup>)
    ensures
        r == lookup_spec(a),
{
    match a {
        KeyAction::FetchFromPushRemote => Some(Lookup::PushRemote),
        KeyAction::FetchFromUpstream => Some(Lookup::Upstream),
        KeyAction::FetchAll => Some(Lookup::Nothing),
        KeyAction::PushToPushRemote => Some(Lookup::PushRemote),
        KeyAction::PushToUpstream => Some(Lookup::Upstream),
        KeyAction::PullFromPushRemote => Some(Lookup::PushRemoteAndBranch),
        KeyAction::PullFromUpstream => Some(Lookup::Upstream),
        _ => None,
    }
}

fn progress(verb: &str, remote: &str, branch: Option<&str>) -> (r: String)
    ensures
        r@ == verb@ + remote@ + match branch {
            Some(b) => "/"@ + b@,
            None => Seq::empty(),
        } + "…"@,
{
    let mut s = owned(verb);
    push_str(&mut s, remote);
    match branch {
        Some(b) => {
            push_str(&mut s, "/");
            push_str(&mut s, b);
        },
        None => {},
    }
    push_str(&mut s, "…");
    s
}

/// The message and command of the remote action `a` (see `remote_step_spec`);
/// nothing for other actions.
pub fn remote_step(a: KeyAction, remote: &str, branch: &str, flags: &[&str]) -> (r: Option<(String, GitCommand)>)
    ensures
        match r {
            Some((m, c)) => remote_step_spec(a, remote@, branch@, strs(flags@)) == Some((m@, c@)),
            None => remote_step_spec(a, remote@, branch@, strs(flags@)) is None,
        },
{
    match a {
        KeyAction::FetchFromPushRemote => Some((progress("Fetching from ", remote, None), fetch(remote, flags))),
        KeyAction::FetchFromUpstream => Some((progress("Fetching from ", remote, None), fetch(remote, flags))),
        KeyAction::FetchAll => Some((owned("Fetching all remotes…"), fetch_all(flags))),
        KeyAction::PushToPushRemote => Some((progress("Pushing to ", remote, None), push(remote, flags))),
        KeyAction::PushToUpstream => Some(
            (progress("Pushing to ", remote, Some(branch)), push_to_upstream(remote, branch, flags)),
        ),
        KeyAction::PullFromPushRemote => Some((progress("Pulling from ", remote, None), pull(remote, branch, flags))),
        KeyAction::PullFromUpstream => Some(
            (progress("Pulling from ", remote, Some(branch)), pull(remote, branch, flags)),
        ),
        _ => None,
    }
}

} // verus!
