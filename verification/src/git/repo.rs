use vstd::prelude::*;

use crate::text::{
    trim_end, trim_end_spec,
    first_nonblank, first_nonblank_line, last_nonblank, last_nonblank_line, line_bounds,
    nonblank_line_strings, nonblank_lines, string_of, sub_chars, trim,
    decimal, push_decimal,
    chars_of, is_blank, lines_from, lines_spec, line_at, push_char, push_chars, push_str,
    trim_bounds, trim_spec,
};

verus! {

/// Which part of the status buffer a group of files belongs to.
#[derive(Debug, Clone, Copy, PartialEq, Eq, Structural)]
pub enum SectionKind {
    Untracked,
    Staged,
    Unstaged,
}

/// How a file differs between the two sides of a diff.
#[derive(Debug, Clone, Copy, PartialEq, Eq, Structural)]
pub enum ChangeKind {
    Untracked,
    Added,
    Modified,
    Deleted,
    Renamed,
}

/// The word shown before a path in the status buffer.
pub open spec fn change_label(kind: ChangeKind) -> Seq<char> {
    match kind {
        ChangeKind::Untracked => ""@,
        ChangeKind::Added => "new file"@,
        ChangeKind::Modified => "modified"@,
        ChangeKind::Deleted => "deleted"@,
        ChangeKind::Renamed => "renamed"@,
    }
}

impl ChangeKind {
    pub fn label(&self) -> (r: &'static str)
        ensures
            r@ == change_label(*self),
    {
        match self {
            ChangeKind::Untracked => "",
            ChangeKind::Added => "new file",
            ChangeKind::Modified => "modified",
            ChangeKind::Deleted => "deleted",
            ChangeKind::Renamed => "renamed",
        }
    }
}

/// One changed file with the hunks of its diff.
#[derive(Debug, Clone)]
pub struct FileEntry {
    pub path: String,
    pub kind: ChangeKind,
    pub hunks: Vec<Hunk>,
}

/// One hunk of a diff: its `@@` header, its ranges and its lines.
#[derive(Debug, Clone)]
pub struct Hunk {
    pub header: String,
    pub old_start: u32,
    pub old_lines: u32,
    pub new_start: u32,
    pub new_lines: u32,
    pub lines: Vec<HunkLine>,
}

/// One line of a hunk; `origin` is `'+'`, `'-'` or `' '`.
#[derive(Debug, Clone)]
pub struct HunkLine {
    pub origin: char,
    pub content: String,
}

/// A commit as the status buffer lists it.
#[derive(Debug, Clone)]
pub struct CommitInfo {
    pub sha: String,
    pub message: String,
}

/// What the status buffer shows of a repository.
#[derive(Debug)]
pub struct RepoStatus {
    pub branch: String,
    pub sections: Vec<(SectionKind, Vec<FileEntry>)>,
    pub commits: Vec<CommitInfo>,
}

/// How the output of a git command becomes what the user is told.
#[derive(Debug, Clone, Copy, PartialEq, Eq, Structural)]
pub enum OutputKind {
    /// The last non-blank line of the output on success, the first one on
    /// failure (see `parse_output`).
    Summary,
    /// Nothing on success; the trimmed error output on failure.
    Quiet,
    /// Nothing on success; the error output as it is on failure.
    QuietRaw,
    /// Nothing on success; `git apply failed: ` and the error output on failure.
    Apply,
    /// A one-line summary of `git stash list` (see `summarize_stash_list`).
    StashList,
}

/// A git invocation: the arguments after `git`, what to feed it, where to run
/// it, and how to read its output.
pub struct GitCommand {
    pub args: Vec<String>,
    /// Text written to the command's standard input.
    pub stdin: Option<String>,
    /// A commit message, handed over as `-F <file>` after `args`.
    pub message: Option<String>,
    /// Run in the work tree of the repository rather than in the current directory.
    pub in_workdir: bool,
    pub output: OutputKind,
    /// What the error says when git cannot be started.
    pub context: String,
}

/// A change to the repository that the status buffer asks for.
pub enum RepoOp {
    Git(GitCommand),
    /// Delete a path of the work tree (recursively when it is a directory).
    Trash(String),
}

pub struct GitCommandView {
    pub args: Seq<Seq<char>>,
    pub stdin: Option<Seq<char>>,
    pub message: Option<Seq<char>>,
    pub in_workdir: bool,
    pub output: OutputKind,
    pub context: Seq<char>,
}

pub enum RepoOpView {
    Git(GitCommandView),
    Trash(Seq<char>),
}

pub open spec fn opt_view(o: Option<String>) -> Option<Seq<char>> {
    match o {
        Some(s) => Some(s@),
        None => None,
    }
}

/// The characters of each string of a list.
pub open spec fn strs(s: Seq<&str>) -> Seq<Seq<char>> {
    s.map_values(|x: &str| x@)
}

/// The characters of each string of a list.
pub open spec fn strings(s: Seq<String>) -> Seq<Seq<char>> {
    s.map_values(|x: String| x@)
}

impl View for GitCommand {
    type V = GitCommandView;

    open spec fn view(&self) -> GitCommandView {
        GitCommandView {
            args: strings(self.args@),
            stdin: opt_view(self.stdin),
            message: opt_view(self.message),
            in_workdir: self.in_workdir,
            output: self.output,
            context: self.context@,
        }
    }
}

impl View for RepoOp {
    type V = RepoOpView;

    open spec fn view(&self) -> RepoOpView {
        match self {
            RepoOp::Git(c) => RepoOpView::Git(c@),
            RepoOp::Trash(p) => RepoOpView::Trash(p@),
        }
    }
}

/// `git <base> <flags> <args>`, reported by its last line of output.
pub open spec fn git_output_spec(base: Seq<Seq<char>>, flags: Seq<Seq<char>>, args: Seq<Seq<char>>) -> GitCommandView {
    GitCommandView {
        args: base + flags + args,
        stdin: None,
        message: None,
        in_workdir: false,
        output: OutputKind::Summary,
        context: "failed to run git "@ + base[0],
    }
}

/// `git <base> <flags> -F <file holding message>`, reported by its last line of output.
pub open spec fn git_with_message_spec(base: Seq<Seq<char>>, flags: Seq<Seq<char>>, message: Seq<char>) -> GitCommandView {
    GitCommandView { message: Some(message), ..git_output_spec(base, flags, Seq::empty()) }
}

/// A quiet git command run in the work tree.
pub open spec fn workdir_spec(args: Seq<Seq<char>>, output: OutputKind, context: Seq<char>) -> GitCommandView {
    GitCommandView { args, stdin: None, message: None, in_workdir: true, output, context }
}

/// `git apply <extra> [--reverse] -` in the work tree, fed `patch`.
pub open spec fn git_apply_spec(patch: Seq<char>, extra: Seq<Seq<char>>, reverse: bool) -> GitCommandView {
    GitCommandView {
        args: seq!["apply"@] + extra + (if reverse { seq!["--reverse"@] } else { Seq::empty() })
            + seq!["-"@],
        stdin: Some(patch),
        message: None,
        in_workdir: true,
        output: OutputKind::Apply,
        context: "failed to run git apply"@,
    }
}

/// `s` as an owned string.
pub fn owned(s: &str) -> (r: String)
    ensures
        r@ == s@,
{
    s.to_owned()
}

/// Appends every string of `xs`.
pub fn push_all(v: &mut Vec<String>, xs: &[&str])
    ensures
        strings(final(v)@) == strings(old(v)@) + strs(xs@),
{
    let ghost start = strings(v@);
    let mut i: usize = 0;
    while i < xs.len()
        invariant
            i <= xs@.len(),
            strings(v@) == start + strs(xs@).take(i as int),
        decreases xs@.len() - i,
    {
        let ghost before = v@;
        let x = owned(xs[i]);
        v.push(x);
        assert(strings(v@) =~= strings(before).push(xs@[i as int]@));
        assert(strs(xs@).take(i + 1) =~= strs(xs@).take(i as int).push(xs@[i as int]@));
        i = i + 1;
        assert(strings(v@) =~= start + strs(xs@).take(i as int));
    }
    assert(strs(xs@).take(xs@.len() as int) =~= strs(xs@));
}

/// Appends every string of `xs`.
pub fn push_all_owned(v: &mut Vec<String>, xs: &[String])
    ensures
        strings(final(v)@) == strings(old(v)@) + strings(xs@),
{
    let ghost start = strings(v@);
    let mut i: usize = 0;
    while i < xs.len()
        invariant
            i <= xs@.len(),
            strings(v@) == start + strings(xs@).take(i as int),
        decreases xs@.len() - i,
    {
        let ghost before = v@;
        let x = xs[i].clone();
        v.push(x);
        assert(strings(v@) =~= strings(before).push(xs@[i as int]@));
        assert(strings(xs@).take(i + 1) =~= strings(xs@).take(i as int).push(xs@[i as int]@));
        i = i + 1;
        assert(strings(v@) =~= start + strings(xs@).take(i as int));
    }
    assert(strings(xs@).take(xs@.len() as int) =~= strings(xs@));
}

/// `git <base> <flags> <args>`, reported by its last line of output.
fn git_output(base: &[&str], flags: &[&str], args: &[&str]) -> (r: GitCommand)
    requires
        base@.len() > 0,
    ensures
        r@ == git_output_spec(strs(base@), strs(flags@), strs(args@)),
{
    let mut v: Vec<String> = Vec::new();
    push_all(&mut v, base);
    push_all(&mut v, flags);
    push_all(&mut v, args);
    let mut context = owned("failed to run git ");
    push_str(&mut context, base[0]);
    assert(strings(v@) =~= strs(base@) + strs(flags@) + strs(args@));
    GitCommand { args: v, stdin: None, message: None, in_workdir: false, output: OutputKind::Summary, context }
}

/// `git <base> <flags> -F <file holding message>`, reported by its last line of output.
fn git_output_with_file(base: &[&str], flags: &[&str], message: &str) -> (r: GitCommand)
    requires
        base@.len() > 0,
    ensures
        r@ == git_with_message_spec(strs(base@), strs(flags@), message@),
{
    let no_args: Vec<&str> = Vec::new();
    let mut c = git_output(base, flags, no_args.as_slice());
    c.message = Some(owned(message));
    assert(strs(no_args@) =~= Seq::<Seq<char>>::empty());
    c
}

pub fn stash_push(flags: &[&str]) -> (r: GitCommand)
    ensures
        r@ == git_output_spec(seq!["stash"@, "push"@], strs(flags@), Seq::empty()),
{
    let base: &[&str] = &["stash", "push"];
    assert(base@ == seq!["stash", "push"]);
    let args: &[&str] = &[];
    assert(args@ == Seq::<&str>::empty());
    let r = git_output(base, flags, args);
    assert(strs(seq!["stash", "push"]) =~= seq!["stash"@, "push"@]);
    r
}

pub fn stash_push_staged(flags: &[&str]) -> (r: GitCommand)
    ensures
        r@ == git_output_spec(seq!["stash"@, "push"@, "--staged"@], strs(flags@), Seq::empty()),
{
    let base: &[&str] = &["stash", "push", "--staged"];
    assert(base@ == seq!["stash", "push", "--staged"]);
    let args: &[&str] = &[];
    assert(args@ == Seq::<&str>::empty());
    let r = git_output(base, flags, args);
    assert(strs(seq!["stash", "push", "--staged"]) =~= seq!["stash"@, "push"@, "--staged"@]);
    r
}

pub fn stash_push_keep_index(flags: &[&str]) -> (r: GitCommand)
    ensures
        r@ == git_output_spec(seq!["stash"@, "push"@, "--keep-index"@], strs(flags@), Seq::empty()),
{
    let base: &[&str] = &["stash", "push", "--keep-index"];
    assert(base@ == seq!["stash", "push", "--keep-index"]);
    let args: &[&str] = &[];
    assert(args@ == Seq::<&str>::empty());
    let r = git_output(base, flags, args);
    assert(strs(seq!["stash", "push", "--keep-index"]) =~= seq!["stash"@, "push"@, "--keep-index"@]);
    r
}

pub fn stash_pop() -> (r: GitCommand)
    ensures
        r@ == git_output_spec(seq!["stash"@, "pop"@], Seq::empty(), Seq::empty()),
{
    let base: &[&str] = &["stash", "pop"];
    assert(base@ == seq!["stash", "pop"]);
    let args: &[&str] = &[];
    assert(args@ == Seq::<&str>::empty());
    let r = git_output(base, &[], args);
    assert(strs(seq!["stash", "pop"]) =~= seq!["stash"@, "pop"@]);
    r
}

pub fn stash_apply() -> (r: GitCommand)
    ensures
        r@ == git_output_spec(seq!["stash"@, "apply"@], Seq::empty(), Seq::empty()),
{
    let base: &[&str] = &["stash", "apply"];
    assert(base@ == seq!["stash", "apply"]);
    let args: &[&str] = &[];
    assert(args@ == Seq::<&str>::empty());
    let r = git_output(base, &[], args);
    assert(strs(seq!["stash", "apply"]) =~= seq!["stash"@, "apply"@]);
    r
}

pub fn stash_drop() -> (r: GitCommand)
    ensures
        r@ == git_output_spec(seq!["stash"@, "drop"@], Seq::empty(), Seq::empty()),
{
    let base: &[&str] = &["stash", "drop"];
    assert(base@ == seq!["stash", "drop"]);
    let args: &[&str] = &[];
    assert(args@ == Seq::<&str>::empty());
    let r = git_output(base, &[], args);
    assert(strs(seq!["stash", "drop"]) =~= seq!["stash"@, "drop"@]);
    r
}

pub fn stash_show() -> (r: GitCommand)
    ensures
        r@ == git_output_spec(seq!["stash"@, "show"@], Seq::empty(), Seq::empty()),
{
    let base: &[&str] = &["stash", "show"];
    assert(base@ == seq!["stash", "show"]);
    let args: &[&str] = &[];
    assert(args@ == Seq::<&str>::empty());
    let r = git_output(base, &[], args);
    assert(strs(seq!["stash", "show"]) =~= seq!["stash"@, "show"@]);
    r
}

/// `git stash list`, summarized in one line.
pub fn stash_list() -> (r: GitCommand)
    ensures
        r@ == (GitCommandView {
            output: OutputKind::StashList,
            context: "failed to run git stash list"@,
            ..git_output_spec(seq!["stash"@, "list"@], Seq::empty(), Seq::empty())
        }),
{
    let base: &[&str] = &["stash", "list"];
    assert(base@ == seq!["stash", "list"]);
    let mut r = git_output(base, &[], &[]);
    assert(strs(seq!["stash", "list"]) =~= seq!["stash"@, "list"@]);
    r.output = OutputKind::StashList;
    r.context = owned("failed to run git stash list");
    r
}

/// `git stash push --include-untracked -- <paths>`.
pub fn stash_push_paths(paths: &[String]) -> (r: GitCommand)
    ensures
        r@ == (GitCommandView {
            context: "failed to run git stash push"@,
            ..git_output_spec(
                seq!["stash"@, "push"@, "--include-untracked"@, "--"@],
                strings(paths@),
                Seq::empty(),
            )
        }),
{
    let base: &[&str] = &["stash", "push", "--include-untracked", "--"];
    assert(base@ == seq!["stash", "push", "--include-untracked", "--"]);
    let mut r = git_output(base, &[], &[]);
    let ghost before = strings(r.args@);
    push_all_owned(&mut r.args, paths);
    assert(strs(seq!["stash", "push", "--include-untracked", "--"]) =~= seq![
        "stash"@,
        "push"@,
        "--include-untracked"@,
        "--"@,
    ]);
    assert(strings(r.args@) =~= seq!["stash"@, "push"@, "--include-untracked"@, "--"@]
        + strings(paths@));
    r.context = owned("failed to run git stash push");
    r
}

pub fn fetch(remote: &str, flags: &[&str]) -> (r: GitCommand)
    ensures
        r@ == git_output_spec(seq!["fetch"@], strs(flags@), seq![remote@]),
{
    let base: &[&str] = &["fetch"];
    let args: &[&str] = &[remote];
    assert(base@ == seq!["fetch"]);
    assert(args@ == seq![remote]);
    let r = git_output(base, flags, args);
    assert(strs(seq!["fetch"]) =~= seq!["fetch"@]);
    assert(strs(seq![remote]) =~= seq![remote@]);
    r
}

pub fn fetch_all(flags: &[&str]) -> (r: GitCommand)
    ensures
        r@ == git_output_spec(seq!["fetch"@, "--all"@], strs(flags@), Seq::empty()),
{
    let base: &[&str] = &["fetch", "--all"];
    assert(base@ == seq!["fetch", "--all"]);
    let args: &[&str] = &[];
    assert(args@ == Seq::<&str>::empty());
    let r = git_output(base, flags, args);
    assert(strs(seq!["fetch", "--all"]) =~= seq!["fetch"@, "--all"@]);
    r
}

pub fn push(remote: &str, flags: &[&str]) -> (r: GitCommand)
    ensures
        r@ == git_output_spec(seq!["push"@], strs(flags@), seq![remote@, "HEAD"@]),
{
    let base: &[&str] = &["push"];
    assert(base@ == seq!["push"]);
    let args: &[&str] = &[remote, "HEAD"];
    assert(args@ == seq![remote, "HEAD"]);
    let r = git_output(base, flags, args);
    assert(strs(seq!["push"]) =~= seq!["push"@]);
    assert(strs(seq![remote, "HEAD"]) =~= seq![remote@, "HEAD"@]);
    r
}

pub fn push_to_upstream(remote: &str, upstream_branch: &str, flags: &[&str]) -> (r: GitCommand)
    ensures
        r@ == git_output_spec(
            seq!["push"@],
            strs(flags@),
            seq![remote@, "HEAD:"@ + upstream_branch@],
        ),
{
    let mut refspec = owned("HEAD:");
    push_str(&mut refspec, upstream_branch);
    let rs = refspec.as_str();
    let base: &[&str] = &["push"];
    assert(base@ == seq!["push"]);
    let args: &[&str] = &[remote, rs];
    assert(args@ == seq![remote, rs]);
    let r = git_output(base, flags, args);
    assert(strs(seq!["push"]) =~= seq!["push"@]);
    assert(strs(seq![remote, rs]) =~= seq![remote@, "HEAD:"@ + upstream_branch@]);
    r
}

pub fn pull(remote: &str, branch: &str, flags: &[&str]) -> (r: GitCommand)
    ensures
        r@ == git_output_spec(seq!["pull"@], strs(flags@), seq![remote@, branch@]),
{
    let base: &[&str] = &["pull"];
    assert(base@ == seq!["pull"]);
    let args: &[&str] = &[remote, branch];
    assert(args@ == seq![remote, branch]);
    let r = git_output(base, flags, args);
    assert(strs(seq!["pull"]) =~= seq!["pull"@]);
    assert(strs(seq![remote, branch]) =~= seq![remote@, branch@]);
    r
}

pub fn commit(message: &str, flags: &[&str]) -> (r: GitCommand)
    ensures
        r@ == git_with_message_spec(seq!["commit"@], strs(flags@), message@),
{
    let base: &[&str] = &["commit"];
    assert(base@ == seq!["commit"]);
    let r = git_output_with_file(base, flags, message);
    assert(strs(seq!["commit"]) =~= seq!["commit"@]);
    r
}

pub fn amend(message: &str, flags: &[&str]) -> (r: GitCommand)
    ensures
        r@ == git_with_message_spec(seq!["commit"@, "--amend"@], strs(flags@), message@),
{
    let base: &[&str] = &["commit", "--amend"];
    assert(base@ == seq!["commit", "--amend"]);
    let r = git_output_with_file(base, flags, message);
    assert(strs(seq!["commit", "--amend"]) =~= seq!["commit"@, "--amend"@]);
    r
}

pub fn reword(message: &str, flags: &[&str]) -> (r: GitCommand)
    ensures
        r@ == git_with_message_spec(seq!["commit"@, "--amend"@, "--only"@], strs(flags@), message@),
{
    let base: &[&str] = &["commit", "--amend", "--only"];
    assert(base@ == seq!["commit", "--amend", "--only"]);
    let r = git_output_with_file(base, flags, message);
    assert(strs(seq!["commit", "--amend", "--only"]) =~= seq!["commit"@, "--amend"@, "--only"@]);
    r
}

pub fn extend(flags: &[&str]) -> (r: GitCommand)
    ensures
        r@ == git_output_spec(seq!["commit"@, "--amend"@, "--no-edit"@], strs(flags@), Seq::empty()),
{
    let base: &[&str] = &["commit", "--amend", "--no-edit"];
    assert(base@ == seq!["commit", "--amend", "--no-edit"]);
    let args: &[&str] = &[];
    assert(args@ == Seq::<&str>::empty());
    let r = git_output(base, flags, args);
    assert(strs(seq!["commit", "--amend", "--no-edit"]) =~= seq!["commit"@, "--amend"@, "--no-edit"@]);
    r
}

fn workdir_command(args: &[&str], path: &String, output: OutputKind, context: &str) -> (r: GitCommand)
    ensures
        r@ == workdir_spec(strs(args@) + seq![path@], output, context@),
{
    let mut v: Vec<String> = Vec::new();
    push_all(&mut v, args);
    let ghost before = v@;
    v.push(path.clone());
    assert(strings(v@) =~= strings(before).push(path@));
    assert(strings(before) =~= strs(args@));
    assert(strings(v@) =~= strs(args@) + seq![path@]);
    GitCommand { args: v, stdin: None, message: None, in_workdir: true, output, context: owned(context) }
}

/// `git add -- <path>` in the work tree.
pub fn stage_file(path: &String) -> (r: GitCommand)
    ensures
        r@ == workdir_spec(seq!["add"@, "--"@, path@], OutputKind::Quiet, "failed to run git add"@),
{
    let wa: &[&str] = &["add", "--"];
    assert(wa@ == seq!["add", "--"]);
    let r = workdir_command(wa, path, OutputKind::Quiet, "failed to run git add");
    assert(strs(seq!["add", "--"]) + seq![path@] =~= seq!["add"@, "--"@, path@]);
    r
}

/// `git restore --staged -- <path>` in the work tree.
pub fn unstage_file(path: &String) -> (r: GitCommand)
    ensures
        r@ == workdir_spec(
            seq!["restore"@, "--staged"@, "--"@, path@],
            OutputKind::Quiet,
            "failed to run git restore"@,
        ),
{
    let wa: &[&str] = &["restore", "--staged", "--"];
    assert(wa@ == seq!["restore", "--staged", "--"]);
    let r = workdir_command(wa, path, OutputKind::Quiet, "failed to run git restore");
    assert(strs(seq!["restore", "--staged", "--"]) + seq![path@] =~= seq!["restore"@, "--staged"@, "--"@, path@]);
    r
}

/// `git checkout [HEAD] -- <path>` in the work tree: back to the index, or to
/// HEAD when the change is staged.
pub fn discard_file(path: &String, staged: bool) -> (r: GitCommand)
    ensures
        r@ == workdir_spec(
            if staged {
                seq!["checkout"@, "HEAD"@, "--"@, path@]
            } else {
                seq!["checkout"@, "--"@, path@]
            },
            OutputKind::QuietRaw,
            "failed to run git checkout"@,
        ),
{
    if staged {
        let wa: &[&str] = &["checkout", "HEAD", "--"];
        assert(wa@ == seq!["checkout", "HEAD", "--"]);
        let r = workdir_command(wa, path, OutputKind::QuietRaw, "failed to run git checkout");
        assert(strs(seq!["checkout", "HEAD", "--"]) + seq![path@] =~= seq!["checkout"@, "HEAD"@, "--"@, path@]);
        r
    } else {
        let wa: &[&str] = &["checkout", "--"];
        assert(wa@ == seq!["checkout", "--"]);
        let r = workdir_command(wa, path, OutputKind::QuietRaw, "failed to run git checkout");
        assert(strs(seq!["checkout", "--"]) + seq![path@] =~= seq!["checkout"@, "--"@, path@]);
        r
    }
}

/// Deleting a path of the work tree.
pub fn trash_file(path: &String) -> (r: RepoOp)
    ensures
        r@ == RepoOpView::Trash(path@),
{
    RepoOp::Trash(path.clone())
}

fn git_apply(patch: String, extra: &[&str], reverse: bool) -> (r: GitCommand)
    ensures
        r@ == git_apply_spec(patch@, strs(extra@), reverse),
{
    let mut v: Vec<String> = Vec::new();
    v.push(owned("apply"));
    assert(strings(v@) =~= seq!["apply"@]);
    push_all(&mut v, extra);
    let ghost mid = v@;
    if reverse {
        v.push(owned("--reverse"));
        assert(strings(v@) =~= strings(mid).push("--reverse"@));
    }
    let ghost mid2 = v@;
    v.push(owned("-"));
    assert(strings(v@) =~= strings(mid2).push("-"@));
    assert(strings(v@) =~= seq!["apply"@] + strs(extra@) + (if reverse { seq!["--reverse"@] } else { Seq::empty() }) + seq!["-"@]);
    GitCommand {
        args: v,
        stdin: Some(patch),
        message: None,
        in_workdir: true,
        output: OutputKind::Apply,
        context: owned("failed to run git apply"),
    }
}

/// Applies `patch` to the index.
fn run_git_apply(patch: String, reverse: bool) -> (r: GitCommand)
    ensures
        r@ == git_apply_spec(patch@, seq!["--cached"@], reverse),
{
    let extra: &[&str] = &["--cached"];
    assert(extra@ == seq!["--cached"]);
    let r = git_apply(patch, extra, reverse);
    assert(strs(seq!["--cached"]) =~= seq!["--cached"@]);
    r
}

/// Applies `patch` to the work tree.
fn run_git_apply_worktree(patch: String, reverse: bool) -> (r: GitCommand)
    ensures
        r@ == git_apply_spec(patch@, Seq::empty(), reverse),
{
    let extra: &[&str] = &[];
    assert(extra@ == Seq::<&str>::empty());
    let r = git_apply(patch, extra, reverse);
    assert(strs(Seq::<&str>::empty()) =~= Seq::<Seq<char>>::empty());
    r
}

/// The file header of a patch of `path`.
pub open spec fn patch_head(path: Seq<char>) -> Seq<char> {
    "diff --git a/"@ + path + " b/"@ + path + seq!['\n'] + "--- a/"@ + path + seq!['\n'] + "+++ b/"@
        + path + seq!['\n']
}

/// A line of a patch body.
pub open spec fn line_text(origin: char, content: Seq<char>) -> Seq<char> {
    seq![origin] + content + seq!['\n']
}

/// The lines of a hunk as a patch body.
pub open spec fn lines_text(lines: Seq<HunkLine>) -> Seq<char>
    decreases lines.len(),
{
    if lines.len() == 0 {
        Seq::empty()
    } else {
        lines_text(lines.drop_last()) + line_text(lines.last().origin, lines.last().content@)
    }
}

/// The patch of a whole hunk of `path`.
pub open spec fn patch_spec(path: Seq<char>, hunk: Hunk) -> Seq<char> {
    patch_head(path) + hunk.header@ + seq!['\n'] + lines_text(hunk.lines@)
}

/// What one line adds to a patch of some of its hunk's lines, and by how much it
/// grows the old and new line counts: context stays; a selected addition or
/// deletion stays; an unselected addition goes; an unselected deletion becomes
/// context.
pub open spec fn partial_step(l: HunkLine, selected: bool) -> (Seq<char>, nat, nat) {
    if l.origin == ' ' {
        (line_text(' ', l.content@), 1, 1)
    } else if l.origin == '+' {
        if selected {
            (line_text('+', l.content@), 0, 1)
        } else {
            (Seq::empty(), 0, 0)
        }
    } else if l.origin == '-' {
        if selected {
            (line_text('-', l.content@), 1, 0)
        } else {
            (line_text(' ', l.content@), 1, 1)
        }
    } else {
        (Seq::empty(), 0, 0)
    }
}

/// The body and the old and new line counts of a patch of the lines whose
/// indices are in `selected`.
pub open spec fn partial_body(lines: Seq<HunkLine>, selected: Seq<usize>) -> (Seq<char>, nat, nat)
    decreases lines.len(),
{
    if lines.len() == 0 {
        (Seq::empty(), 0, 0)
    } else {
        let prev = partial_body(lines.drop_last(), selected);
        let step = partial_step(lines.last(), selected.contains((lines.len() - 1) as usize));
        (prev.0 + step.0, prev.1 + step.1, prev.2 + step.2)
    }
}

/// The patch of the selected lines of a hunk of `path`, with a header recounted
/// for them.
pub open spec fn partial_patch_spec(path: Seq<char>, hunk: Hunk, selected: Seq<usize>) -> Seq<char> {
    let b = partial_body(hunk.lines@, selected);
    patch_head(path) + "@@ -"@ + decimal(hunk.old_start as nat) + ","@ + decimal(b.1) + " +"@
        + decimal(hunk.new_start as nat) + ","@ + decimal(b.2) + " @@"@ + seq!['\n'] + b.0
}

fn push_patch_head(s: &mut String, path: &str)
    ensures
        final(s)@ == old(s)@ + patch_head(path@),
{
    let ghost start = s@;
    push_str(s, "diff --git a/");
    push_str(s, path);
    push_str(s, " b/");
    push_str(s, path);
    push_char(s, '\n');
    push_str(s, "--- a/");
    push_str(s, path);
    push_char(s, '\n');
    push_str(s, "+++ b/");
    push_str(s, path);
    push_char(s, '\n');
    assert(s@ =~= start + patch_head(path@));
}

fn push_line(s: &mut String, origin: char, content: &String)
    ensures
        final(s)@ == old(s)@ + line_text(origin, content@),
{
    let ghost start = s@;
    push_char(s, origin);
    push_str(s, content.as_str());
    push_char(s, '\n');
    assert(s@ =~= start + line_text(origin, content@));
}

/// The patch that applies one whole hunk of `file_path`.
pub fn build_patch(file_path: &str, hunk: &Hunk) -> (r: String)
    ensures
        r@ == patch_spec(file_path@, *hunk),
{
    let mut s = String::new();
    push_patch_head(&mut s, file_path);
    push_str(&mut s, hunk.header.as_str());
    push_char(&mut s, '\n');
    let ghost head = s@;
    let mut i: usize = 0;
    while i < hunk.lines.len()
        invariant
            i <= hunk.lines@.len(),
            s@ == head + lines_text(hunk.lines@.take(i as int)),
        decreases hunk.lines@.len() - i,
    {
        let l = &hunk.lines[i];
        push_line(&mut s, l.origin, &l.content);
        assert(hunk.lines@.take(i + 1).drop_last() =~= hunk.lines@.take(i as int));
        i = i + 1;
        assert(s@ =~= head + lines_text(hunk.lines@.take(i as int)));
    }
    assert(hunk.lines@.take(hunk.lines@.len() as int) =~= hunk.lines@);
    assert(s@ =~= patch_spec(file_path@, *hunk));
    s
}

/// Whether `i` is one of `selected`.
fn is_selected(selected: &[usize], i: usize) -> (r: bool)
    ensures
        r == selected@.contains(i),
{
    let mut k: usize = 0;
    while k < selected.len()
        invariant
            k <= selected@.len(),
            forall|j: int| 0 <= j < k ==> selected@[j] != i,
        decreases selected@.len() - k,
    {
        if selected[k] == i {
            return true;
        }
        k = k + 1;
    }
    false
}

/// The patch that applies only the lines of a hunk whose indices are in
/// `selected`: unselected additions are left out and unselected deletions kept
/// as context, and the header counts the lines again.
pub fn build_partial_patch(file_path: &str, hunk: &Hunk, selected: &[usize]) -> (r: String)
    requires
        hunk.lines@.len() <= u32::MAX,
    ensures
        r@ == partial_patch_spec(file_path@, *hunk, selected@),
{
    let mut body = String::new();
    let mut old_count: u32 = 0;
    let mut new_count: u32 = 0;
    let mut i: usize = 0;
    while i < hunk.lines.len()
        invariant
            i <= hunk.lines@.len(),
            hunk.lines@.len() <= u32::MAX,
            old_count <= i,
            new_count <= i,
            (body@, old_count as nat, new_count as nat) == partial_body(
                hunk.lines@.take(i as int),
                selected@,
            ),
        decreases hunk.lines@.len() - i,
    {
        let l = &hunk.lines[i];
        let sel = is_selected(selected, i);
        assert(hunk.lines@.take(i + 1).drop_last() =~= hunk.lines@.take(i as int));
        assert(hunk.lines@.take(i + 1).last() == *l);
        if l.origin == ' ' {
            push_line(&mut body, ' ', &l.content);
            old_count = old_count + 1;
            new_count = new_count + 1;
        } else if l.origin == '+' {
            if sel {
                push_line(&mut body, '+', &l.content);
                new_count = new_count + 1;
            }
        } else if l.origin == '-' {
            if sel {
                push_line(&mut body, '-', &l.content);
                old_count = old_count + 1;
            } else {
                push_line(&mut body, ' ', &l.content);
                old_count = old_count + 1;
                new_count = new_count + 1;
            }
        }
        i = i + 1;
        assert(body@ =~= partial_body(hunk.lines@.take(i as int), selected@).0);
    }
    assert(hunk.lines@.take(hunk.lines@.len() as int) =~= hunk.lines@);
    let mut s = String::new();
    push_patch_head(&mut s, file_path);
    push_str(&mut s, "@@ -");
    push_decimal(&mut s, hunk.old_start as u64);
    push_str(&mut s, ",");
    push_decimal(&mut s, old_count as u64);
    push_str(&mut s, " +");
    push_decimal(&mut s, hunk.new_start as u64);
    push_str(&mut s, ",");
    push_decimal(&mut s, new_count as u64);
    push_str(&mut s, " @@");
    push_char(&mut s, '\n');
    push_str(&mut s, body.as_str());
    assert(s@ =~= partial_patch_spec(file_path@, *hunk, selected@));
    s
}

/// Stages one hunk: its patch applied to the index.
pub fn stage_hunk(file_path: &str, hunk: &Hunk) -> (r: GitCommand)
    ensures
        r@ == git_apply_spec(patch_spec(file_path@, *hunk), seq!["--cached"@], false),
{
    run_git_apply(build_patch(file_path, hunk), false)
}

/// Unstages one hunk: its patch applied to the index in reverse.
pub fn unstage_hunk(file_path: &str, hunk: &Hunk) -> (r: GitCommand)
    ensures
        r@ == git_apply_spec(patch_spec(file_path@, *hunk), seq!["--cached"@], true),
{
    run_git_apply(build_patch(file_path, hunk), true)
}

/// Throws one hunk away: out of the index when it is staged, out of the work
/// tree when it is not.
pub fn discard_hunk(file_path: &str, hunk: &Hunk, staged: bool) -> (r: GitCommand)
    ensures
        r@ == git_apply_spec(
            patch_spec(file_path@, *hunk),
            if staged { seq!["--cached"@] } else { Seq::empty() },
            true,
        ),
{
    let patch = build_patch(file_path, hunk);
    if staged {
        run_git_apply(patch, true)
    } else {
        run_git_apply_worktree(patch, true)
    }
}

/// Stages the selected lines of a hunk.
pub fn stage_lines(file_path: &str, hunk: &Hunk, selected: &[usize]) -> (r: GitCommand)
    requires
        hunk.lines@.len() <= u32::MAX,
    ensures
        r@ == git_apply_spec(
            partial_patch_spec(file_path@, *hunk, selected@),
            seq!["--cached"@],
            false,
        ),
{
    run_git_apply(build_partial_patch(file_path, hunk, selected), false)
}

/// Unstages the selected lines of a hunk.
pub fn unstage_lines(file_path: &str, hunk: &Hunk, selected: &[usize]) -> (r: GitCommand)
    requires
        hunk.lines@.len() <= u32::MAX,
    ensures
        r@ == git_apply_spec(
            partial_patch_spec(file_path@, *hunk, selected@),
            seq!["--cached"@],
            true,
        ),
{
    run_git_apply(build_partial_patch(file_path, hunk, selected), true)
}

/// Throws the selected lines of a hunk away: out of the index first when they
/// are staged, then out of the work tree. The commands run in order, and a
/// failure stops the rest.
pub fn discard_lines(file_path: &str, hunk: &Hunk, selected: &[usize], staged: bool) -> (r: Vec<GitCommand>)
    requires
        hunk.lines@.len() <= u32::MAX,
    ensures
        r@.map_values(|c: GitCommand| c@) == if staged {
            seq![
                git_apply_spec(partial_patch_spec(file_path@, *hunk, selected@), seq!["--cached"@], true),
                git_apply_spec(partial_patch_spec(file_path@, *hunk, selected@), Seq::empty(), true),
            ]
        } else {
            seq![git_apply_spec(partial_patch_spec(file_path@, *hunk, selected@), Seq::empty(), true)]
        },
{
    let patch = build_partial_patch(file_path, hunk, selected);
    let mut out: Vec<GitCommand> = Vec::new();
    if staged {
        out.push(run_git_apply(patch.clone(), true));
    }
    out.push(run_git_apply_worktree(patch, true));
    assert(out@.map_values(|c: GitCommand| c@) =~= if staged {
        seq![
            git_apply_spec(partial_patch_spec(file_path@, *hunk, selected@), seq!["--cached"@], true),
            git_apply_spec(partial_patch_spec(file_path@, *hunk, selected@), Seq::empty(), true),
        ]
    } else {
        seq![git_apply_spec(partial_patch_spec(file_path@, *hunk, selected@), Seq::empty(), true)]
    });
    out
}

/// A result with its strings taken by their characters.
pub open spec fn result_view(r: Result<String, String>) -> Result<Seq<char>, Seq<char>> {
    match r {
        Ok(s) => Ok(s@),
        Err(e) => Err(e@),
    }
}

/// What a reporting git command tells the user: the error output when there is
/// some, else the standard output, trimmed; on failure its first non-blank
/// line, on success its last one.
pub open spec fn parse_output_spec(success: bool, stdout: Seq<char>, stderr: Seq<char>) -> Result<
    Seq<char>,
    Seq<char>,
> {
    let e = trim_spec(stderr);
    let text = if e.len() > 0 {
        e
    } else {
        trim_spec(stdout)
    };
    if !success {
        Err(
            match first_nonblank(lines_spec(text)) {
                Some(l) => l,
                None => "git command failed"@,
            },
        )
    } else {
        Ok(
            match last_nonblank(lines_spec(text)) {
                Some(l) => l,
                None => "Done"@,
            },
        )
    }
}

/// What `git stash list` tells the user: on failure the first line of its error
/// output; else how many stashes there are and the latest one.
pub open spec fn stash_list_spec(success: bool, stdout: Seq<char>, stderr: Seq<char>) -> Result<
    Seq<char>,
    Seq<char>,
> {
    if !success {
        Err(
            if lines_spec(stderr).len() > 0 {
                lines_spec(stderr)[0]
            } else {
                "git stash list failed"@
            },
        )
    } else {
        let es = nonblank_lines(lines_spec(stdout));
        if es.len() == 0 {
            Ok("No stashes"@)
        } else if es.len() == 1 {
            Ok(es[0])
        } else {
            Ok(decimal(es.len()) + " stashes, latest: "@ + es[0])
        }
    }
}

/// What a finished git command tells the user, by the kind of its output.
pub open spec fn finish_spec(output: OutputKind, success: bool, stdout: Seq<char>, stderr: Seq<char>) -> Result<
    Seq<char>,
    Seq<char>,
> {
    match output {
        OutputKind::Summary => parse_output_spec(success, stdout, stderr),
        OutputKind::StashList => stash_list_spec(success, stdout, stderr),
        OutputKind::Quiet => if success {
            Ok(Seq::empty())
        } else {
            Err(trim_spec(stderr))
        },
        OutputKind::QuietRaw => if success {
            Ok(Seq::empty())
        } else {
            Err(stderr)
        },
        OutputKind::Apply => if success {
            Ok(Seq::empty())
        } else {
            Err("git apply failed: "@ + stderr)
        },
    }
}

/// The line a reporting git command leaves for the user (see `parse_output_spec`).
pub fn parse_output(success: bool, stdout: &str, stderr: &str) -> (r: Result<String, String>)
    ensures
        result_view(r) == parse_output_spec(success, stdout@, stderr@),
{
    let ec = chars_of(stderr);
    let (ea, eb) = trim_bounds(&ec, 0, ec.len());
    assert(ec@.subrange(0, ec@.len() as int) =~= stderr@);
    let text = if ea < eb {
        sub_chars(&ec, ea, eb)
    } else {
        let oc = chars_of(stdout);
        let (oa, ob) = trim_bounds(&oc, 0, oc.len());
        assert(oc@.subrange(0, oc@.len() as int) =~= stdout@);
        sub_chars(&oc, oa, ob)
    };
    if !success {
        match first_nonblank_line(&text) {
            Some((a, b)) => Err(string_of(&text, a, b)),
            None => Err(owned("git command failed")),
        }
    } else {
        match last_nonblank_line(&text) {
            Some((a, b)) => Ok(string_of(&text, a, b)),
            None => Ok(owned("Done")),
        }
    }
}

/// The one-line summary of `git stash list` (see `stash_list_spec`).
pub fn summarize_stash_list(success: bool, stdout: &str, stderr: &str) -> (r: Result<String, String>)
    ensures
        result_view(r) == stash_list_spec(success, stdout@, stderr@),
{
    if !success {
        let ec = chars_of(stderr);
        let bs = line_bounds(&ec);
        if bs.len() > 0 {
            let (a, b) = bs[0];
            assert(lines_spec(stderr@)[0] == ec@.subrange(a as int, b as int));
            return Err(string_of(&ec, a, b));
        }
        return Err(owned("git stash list failed"));
    }
    let oc = chars_of(stdout);
    let es = nonblank_line_strings(&oc);
    let ghost ev = es@.map_values(|x: String| x@);
    if es.len() == 0 {
        Ok(owned("No stashes"))
    } else if es.len() == 1 {
        assert(ev[0] == es@[0]@);
        Ok(es[0].clone())
    } else {
        let mut s = String::new();
        push_decimal(&mut s, es.len() as u64);
        push_str(&mut s, " stashes, latest: ");
        push_str(&mut s, es[0].as_str());
        assert(ev[0] == es@[0]@);
        assert(s@ =~= decimal(ev.len()) + " stashes, latest: "@ + ev[0]);
        Ok(s)
    }
}

/// What a finished git command tells the user (see `finish_spec`).
pub fn finish(output: OutputKind, success: bool, stdout: &str, stderr: &str) -> (r: Result<String, String>)
    ensures
        result_view(r) == finish_spec(output, success, stdout@, stderr@),
{
    match output {
        OutputKind::Summary => parse_output(success, stdout, stderr),
        OutputKind::StashList => summarize_stash_list(success, stdout, stderr),
        OutputKind::Quiet => if success {
            Ok(String::new())
        } else {
            Err(trim(stderr))
        },
        OutputKind::QuietRaw => if success {
            Ok(String::new())
        } else {
            Err(owned(stderr))
        },
        OutputKind::Apply => if success {
            Ok(String::new())
        } else {
            let mut s = owned("git apply failed: ");
            push_str(&mut s, stderr);
            Err(s)
        },
    }
}

pub struct HunkLineView {
    pub origin: char,
    pub content: Seq<char>,
}

pub struct HunkView {
    pub header: Seq<char>,
    pub old_start: u32,
    pub old_lines: u32,
    pub new_start: u32,
    pub new_lines: u32,
    pub lines: Seq<HunkLineView>,
}

pub struct FileEntryView {
    pub path: Seq<char>,
    pub kind: ChangeKind,
    pub hunks: Seq<HunkView>,
}

impl View for HunkLine {
    type V = HunkLineView;

    open spec fn view(&self) -> HunkLineView {
        HunkLineView { origin: self.origin, content: self.content@ }
    }
}

impl View for Hunk {
    type V = HunkView;

    open spec fn view(&self) -> HunkView {
        HunkView {
            header: self.header@,
            old_start: self.old_start,
            old_lines: self.old_lines,
            new_start: self.new_start,
            new_lines: self.new_lines,
            lines: self.lines@.map_values(|l: HunkLine| l@),
        }
    }
}

impl View for FileEntry {
    type V = FileEntryView;

    open spec fn view(&self) -> FileEntryView {
        FileEntryView { path: self.path@, kind: self.kind, hunks: self.hunks@.map_values(|h: Hunk| h@) }
    }
}

/// The status git gives a file in a diff.
#[derive(Debug, Clone, Copy, PartialEq, Eq, Structural)]
pub enum DeltaKind {
    Unmodified,
    Added,
    Deleted,
    Modified,
    Renamed,
    Copied,
    Ignored,
    Untracked,
    Typechange,
    Unreadable,
    Conflicted,
}

/// The change a diff status shows: additions, deletions and renames as such,
/// anything else as a modification.
pub open spec fn change_kind_spec(d: DeltaKind) -> ChangeKind {
    match d {
        DeltaKind::Added => ChangeKind::Added,
        DeltaKind::Deleted => ChangeKind::Deleted,
        DeltaKind::Renamed => ChangeKind::Renamed,
        _ => ChangeKind::Modified,
    }
}

pub fn change_kind_of(d: DeltaKind) -> (r: ChangeKind)
    ensures
        r == change_kind_spec(d),
{
    match d {
        DeltaKind::Added => ChangeKind::Added,
        DeltaKind::Deleted => ChangeKind::Deleted,
        DeltaKind::Renamed => ChangeKind::Renamed,
        _ => ChangeKind::Modified,
    }
}

/// What walking a diff reports, in order: a file, a hunk of the last file, a
/// line of the last hunk.
pub enum DiffEvent {
    File { path: String, kind: ChangeKind },
    Hunk { header: String, old_start: u32, old_lines: u32, new_start: u32, new_lines: u32 },
    Line { origin: char, content: String },
}

/// Whether a diff line is an addition, a deletion or context.
pub open spec fn is_change_origin(c: char) -> bool {
    c == '+' || c == '-' || c == ' '
}

/// The files after one more event: a file starts a new entry; a hunk, its
/// header trimmed at the end, joins the last file; an addition, deletion or
/// context line, trimmed at the end, joins the last hunk; anything with nowhere
/// to go is dropped.
pub open spec fn apply_event(files: Seq<FileEntryView>, ev: DiffEvent) -> Seq<FileEntryView> {
    match ev {
        DiffEvent::File { path, kind } => files.push(FileEntryView { path: path@, kind, hunks: Seq::empty() }),
        DiffEvent::Hunk { header, old_start, old_lines, new_start, new_lines } => {
            if files.len() == 0 {
                files
            } else {
                let f = files.last();
                files.update(
                    files.len() - 1,
                    FileEntryView {
                        hunks: f.hunks.push(
                            HunkView {
                                header: trim_end_spec(header@),
                                old_start,
                                old_lines,
                                new_start,
                                new_lines,
                                lines: Seq::empty(),
                            },
                        ),
                        ..f
                    },
                )
            }
        },
        DiffEvent::Line { origin, content } => {
            if !is_change_origin(origin) || files.len() == 0 || files.last().hunks.len() == 0 {
                files
            } else {
                let f = files.last();
                let h = f.hunks.last();
                files.update(
                    files.len() - 1,
                    FileEntryView {
                        hunks: f.hunks.update(
                            f.hunks.len() - 1,
                            HunkView {
                                lines: h.lines.push(
                                    HunkLineView { origin, content: trim_end_spec(content@) },
                                ),
                                ..h
                            },
                        ),
                        ..f
                    },
                )
            }
        },
    }
}

/// The files a sequence of diff events describes.
pub open spec fn fold_events(evs: Seq<DiffEvent>) -> Seq<FileEntryView>
    decreases evs.len(),
{
    if evs.len() == 0 {
        Seq::empty()
    } else {
        apply_event(fold_events(evs.drop_last()), evs.last())
    }
}

pub open spec fn entries_view(files: Seq<FileEntry>) -> Seq<FileEntryView> {
    files.map_values(|f: FileEntry| f@)
}

fn apply_diff_event(files: &mut Vec<FileEntry>, ev: DiffEvent)
    ensures
        entries_view(final(files)@) == apply_event(entries_view(old(files)@), ev),
{
    let ghost before = entries_view(files@);
    let ghost e = ev;
    match ev {
        DiffEvent::File { path, kind } => {
            let fe = FileEntry { path, kind, hunks: Vec::new() };
            assert(fe@.hunks =~= Seq::<HunkView>::empty());
            let ghost fv = fe@;
            files.push(fe);
            assert(entries_view(files@) =~= before.push(fv));
            assert(entries_view(files@) =~= apply_event(before, e));
        },
        DiffEvent::Hunk { header, old_start, old_lines, new_start, new_lines } => {
            let n = files.len();
            if n > 0 {
                let h = Hunk {
                    header: trim_end(header.as_str()),
                    old_start,
                    old_lines,
                    new_start,
                    new_lines,
                    lines: Vec::new(),
                };
                let ghost hv = h@;
                assert(hv.lines =~= Seq::<HunkLineView>::empty());
                let ghost f0 = files@[n - 1];
                files[n - 1].hunks.push(h);
                assert(files@[n - 1]@.hunks =~= f0@.hunks.push(hv));
                assert(entries_view(files@) =~= apply_event(before, e));
            } else {
                assert(entries_view(files@) =~= apply_event(before, e));
            }
        },
        DiffEvent::Line { origin, content } => {
            let n = files.len();
            if (origin == '+' || origin == '-' || origin == ' ') && n > 0 && files[n - 1].hunks.len() > 0 {
                let m = files[n - 1].hunks.len();
                let l = HunkLine { origin, content: trim_end(content.as_str()) };
                let ghost lv = l@;
                let ghost f0 = files@[n - 1];
                let ghost h0 = f0.hunks@[m - 1];
                files[n - 1].hunks[m - 1].lines.push(l);
                assert(files@[n - 1].hunks@[m - 1]@.lines =~= h0@.lines.push(lv));
                assert(files@[n - 1]@.hunks =~= f0@.hunks.update(m - 1, HunkView { lines: h0@.lines.push(lv), ..h0@ }));
                assert(entries_view(files@) =~= apply_event(before, e));
            } else {
                assert(entries_view(files@) =~= apply_event(before, e));
            }
        },
    }
}

/// The files that a walk over a diff described, in the order it met them.
pub fn files_from_events(events: Vec<DiffEvent>) -> (r: Vec<FileEntry>)
    ensures
        entries_view(r@) == fold_events(events@),
{
    let ghost evs = events@;
    let mut files: Vec<FileEntry> = Vec::new();
    for ev in it: events.into_iter()
        invariant
            it.seq() == evs,
            entries_view(files@) == fold_events(evs.take(it.index() as int)),
    {
        proof {
            assert(evs.take(it.index() + 1).drop_last() =~= evs.take(it.index() as int));
        }
        apply_diff_event(&mut files, ev);
    }
    assert(evs.take(evs.len() as int) =~= evs);
    files
}

/// The name shown for HEAD: its short name, `HEAD` when it has none, or a note
/// that there are no commits yet when HEAD cannot be read.
pub open spec fn branch_label_spec(head: Option<Option<String>>) -> Seq<char> {
    match head {
        None => "(no commits yet)"@,
        Some(None) => "HEAD"@,
        Some(Some(s)) => s@,
    }
}

pub fn branch_label(head: Option<Option<String>>) -> (r: String)
    ensures
        r@ == branch_label_spec(head),
{
    match head {
        None => owned("(no commits yet)"),
        Some(None) => owned("HEAD"),
        Some(Some(s)) => s,
    }
}

/// The abbreviated name of a commit: the first seven characters of its hash.
pub fn short_sha(hex: &str) -> (r: String)
    ensures
        r@ == if hex@.len() <= 7 { hex@ } else { hex@.take(7) },
{
    let cs = chars_of(hex);
    let n = if cs.len() <= 7 { cs.len() } else { 7 };
    let r = string_of(&cs, 0, n);
    assert(hex@.len() <= 7 ==> hex@.subrange(0, n as int) =~= hex@);
    r
}

/// Untracked files: their paths, no hunks.
pub fn untracked_entries(paths: Vec<String>) -> (r: Vec<FileEntry>)
    ensures
        r@.len() == paths@.len(),
        forall|i: int|
            0 <= i < r@.len() ==> (#[trigger] r@[i])@ == (FileEntryView {
                path: paths@[i]@,
                kind: ChangeKind::Untracked,
                hunks: Seq::empty(),
            }),
{
    let ghost src = paths@;
    let mut out: Vec<FileEntry> = Vec::new();
    for p in it: paths.into_iter()
        invariant
            it.seq() == src,
            out@.len() == it.index(),
            forall|i: int|
                0 <= i < out@.len() ==> (#[trigger] out@[i])@ == (FileEntryView {
                    path: src[i]@,
                    kind: ChangeKind::Untracked,
                    hunks: Seq::empty(),
                }),
    {
        let e = FileEntry { path: p, kind: ChangeKind::Untracked, hunks: Vec::new() };
        assert(e@.hunks =~= Seq::<HunkView>::empty());
        out.push(e);
    }
    out
}

/// The sections of a status: untracked, staged, then unstaged files, each only
/// when there are some.
pub open spec fn status_sections(untracked: Vec<FileEntry>, staged: Vec<FileEntry>, unstaged: Vec<FileEntry>) -> Seq<
    (SectionKind, Vec<FileEntry>),
> {
    (if untracked@.len() > 0 {
        seq![(SectionKind::Untracked, untracked)]
    } else {
        Seq::empty()
    }) + (if staged@.len() > 0 {
        seq![(SectionKind::Staged, staged)]
    } else {
        Seq::empty()
    }) + (if unstaged@.len() > 0 {
        seq![(SectionKind::Unstaged, unstaged)]
    } else {
        Seq::empty()
    })
}

/// The status of a repository from what was read of it.
pub fn assemble_status(
    branch: String,
    untracked: Vec<FileEntry>,
    staged: Vec<FileEntry>,
    unstaged: Vec<FileEntry>,
    commits: Vec<CommitInfo>,
) -> (r: RepoStatus)
    ensures
        r.branch == branch,
        r.commits == commits,
        r.sections@ == status_sections(untracked, staged, unstaged),
{
    let ghost spec_sections = status_sections(untracked, staged, unstaged);
    let mut sections: Vec<(SectionKind, Vec<FileEntry>)> = Vec::new();
    if untracked.len() > 0 {
        sections.push((SectionKind::Untracked, untracked));
    }
    if staged.len() > 0 {
        sections.push((SectionKind::Staged, staged));
    }
    if unstaged.len() > 0 {
        sections.push((SectionKind::Unstaged, unstaged));
    }
    assert(sections@ =~= spec_sections);
    RepoStatus { branch, sections, commits }
}

/// `branch.<branch>.<name>`, a key of the git configuration.
pub fn branch_config_key(branch: &str, name: &str) -> (r: String)
    ensures
        r@ == "branch."@ + branch@ + "."@ + name@,
{
    let mut s = owned("branch.");
    push_str(&mut s, branch);
    push_str(&mut s, ".");
    push_str(&mut s, name);
    s
}

/// The remote to push to or fetch from: the branch's push remote, else the
/// default push remote, else the first remote there is.
pub fn choose_push_remote(
    branch_push_remote: Option<String>,
    push_default: Option<String>,
    first_remote: Option<Option<String>>,
) -> (r: Result<String, String>)
    ensures
        result_view(r) == match (branch_push_remote, push_default, first_remote) {
            (Some(b), _, _) => Ok(b@),
            (None, Some(d), _) => Ok(d@),
            (None, None, Some(Some(f))) => Ok(f@),
            _ => Err("no push remote configured"@),
        },
{
    match branch_push_remote {
        Some(b) => Ok(b),
        None => match push_default {
            Some(d) => Ok(d),
            None => match first_remote {
                Some(Some(f)) => Ok(f),
                _ => Err(owned("no push remote configured")),
            },
        },
    }
}

/// `s` without the prefix `p`, when it starts with it.
pub open spec fn strip_prefix_spec(s: Seq<char>, p: Seq<char>) -> Seq<char> {
    if p.len() <= s.len() && s.subrange(0, p.len() as int) == p {
        s.subrange(p.len() as int, s.len() as int)
    } else {
        s
    }
}

/// `s` without the prefix `p`, when it starts with it.
pub fn strip_prefix(s: &str, p: &str) -> (r: String)
    ensures
        r@ == strip_prefix_spec(s@, p@),
{
    let cs = chars_of(s);
    let ps = chars_of(p);
    if ps.len() <= cs.len() {
        let mut i: usize = 0;
        while i < ps.len()
            invariant
                i <= ps@.len() <= cs@.len(),
                cs@ == s@,
                ps@ == p@,
                forall|k: int| 0 <= k < i ==> cs@[k] == ps@[k],
            decreases ps@.len() - i,
        {
            if cs[i] != ps[i] {
                assert(cs@.subrange(0, ps@.len() as int)[i as int] != ps@[i as int]);
                assert(cs@.subrange(0, ps@.len() as int) != ps@);
                return owned(s);
            }
            i = i + 1;
        }
        assert(cs@.subrange(0, ps@.len() as int) =~= ps@);
        string_of(&cs, ps.len(), cs.len())
    } else {
        owned(s)
    }
}

/// The upstream of the current branch, from its `remote` and `merge` settings:
/// the remote, and the merged branch without `refs/heads/`. A missing setting
/// gives its error, after what the lookup said.
pub fn upstream_of(remote: Result<String, String>, merge: Result<String, String>) -> (r: Result<
    (String, String),
    String,
>)
    ensures
        match (remote, merge) {
            (Err(e), _) => r matches Err(m) && m@
                == "no upstream remote configured (set with git branch --set-upstream-to): "@ + e@,
            (Ok(_), Err(e)) => r matches Err(m) && m@ == "no upstream branch configured: "@ + e@,
            (Ok(rm), Ok(mg)) => r matches Ok(p) && p.0@ == rm@ && p.1@ == strip_prefix_spec(
                mg@,
                "refs/heads/"@,
            ),
        },
{
    match remote {
        Err(e) => {
            let mut m = owned("no upstream remote configured (set with git branch --set-upstream-to): ");
            push_str(&mut m, e.as_str());
            Err(m)
        },
        Ok(rm) => match merge {
            Err(e) => {
                let mut m = owned("no upstream branch configured: ");
                push_str(&mut m, e.as_str());
                Err(m)
            },
            Ok(mg) => Ok((rm, strip_prefix(mg.as_str(), "refs/heads/"))),
        },
    }
}

/// `git add -- <path>`.
pub open spec fn stage_file_cmd(path: Seq<char>) -> GitCommandView {
    workdir_spec(seq!["add"@, "--"@, path], OutputKind::Quiet, "failed to run git add"@)
}

/// `git restore --staged -- <path>`.
pub open spec fn unstage_file_cmd(path: Seq<char>) -> GitCommandView {
    workdir_spec(seq!["restore"@, "--staged"@, "--"@, path], OutputKind::Quiet, "failed to run git restore"@)
}

/// `git checkout [HEAD] -- <path>`.
pub open spec fn discard_file_cmd(path: Seq<char>, staged: bool) -> GitCommandView {
    workdir_spec(
        if staged {
            seq!["checkout"@, "HEAD"@, "--"@, path]
        } else {
            seq!["checkout"@, "--"@, path]
        },
        OutputKind::QuietRaw,
        "failed to run git checkout"@,
    )
}

pub open spec fn stage_hunk_cmd(path: Seq<char>, hunk: Hunk) -> GitCommandView {
    git_apply_spec(patch_spec(path, hunk), seq!["--cached"@], false)
}

pub open spec fn unstage_hunk_cmd(path: Seq<char>, hunk: Hunk) -> GitCommandView {
    git_apply_spec(patch_spec(path, hunk), seq!["--cached"@], true)
}

pub open spec fn discard_hunk_cmd(path: Seq<char>, hunk: Hunk, staged: bool) -> GitCommandView {
    git_apply_spec(patch_spec(path, hunk), if staged { seq!["--cached"@] } else { Seq::empty() }, true)
}

pub open spec fn stage_lines_cmd(path: Seq<char>, hunk: Hunk, lines: Seq<usize>) -> GitCommandView {
    git_apply_spec(partial_patch_spec(path, hunk, lines), seq!["--cached"@], false)
}

pub open spec fn unstage_lines_cmd(path: Seq<char>, hunk: Hunk, lines: Seq<usize>) -> GitCommandView {
    git_apply_spec(partial_patch_spec(path, hunk, lines), seq!["--cached"@], true)
}

pub open spec fn discard_lines_cmds(path: Seq<char>, hunk: Hunk, lines: Seq<usize>, staged: bool) -> Seq<GitCommandView> {
    if staged {
        seq![
            git_apply_spec(partial_patch_spec(path, hunk, lines), seq!["--cached"@], true),
            git_apply_spec(partial_patch_spec(path, hunk, lines), Seq::empty(), true),
        ]
    } else {
        seq![git_apply_spec(partial_patch_spec(path, hunk, lines), Seq::empty(), true)]
    }
}

/// `git stash push --include-untracked -- <paths>`.
pub open spec fn stash_paths_cmd(paths: Seq<Seq<char>>) -> GitCommandView {
    GitCommandView {
        context: "failed to run git stash push"@,
        ..git_output_spec(seq!["stash"@, "push"@, "--include-untracked"@, "--"@], paths, Seq::empty())
    }
}

} // verus!
