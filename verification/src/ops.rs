use vstd::prelude::*;

use crate::app::{
    item_valid, lemma_visible_valid, sections_view, App, AppView, Confirm, ConfirmKind,
    ConfirmKindView, ConfirmView, CursorItem,
};
use crate::git::repo::{
    discard_file, discard_file_cmd, discard_hunk, discard_hunk_cmd, discard_lines,
    discard_lines_cmds, stage_file, stage_file_cmd, stage_hunk, stage_hunk_cmd, stage_lines,
    stage_lines_cmd, stash_paths_cmd, stash_push_paths, trash_file, unstage_file,
    unstage_file_cmd, unstage_hunk, unstage_hunk_cmd, unstage_lines, unstage_lines_cmd,
    FileEntry, GitCommand, GitCommandView, Hunk, RepoOp, RepoOpView, SectionKind,
};
use crate::text::{decimal, push_decimal, push_str, str_eq};
use crate::git::repo::{owned, strings, strs};

verus! {

/// What a command of the status buffer asks of the repository: changes to run in
/// order (the first failure stops the rest, see `run_step`), whether to reload
/// afterwards, and whether the visual selection then ends.
pub struct Plan {
    pub ops: Vec<RepoOp>,
    pub refresh: bool,
    /// The visual selection ends once every change succeeded.
    pub end_selection: bool,
}

pub struct PlanView {
    pub ops: Seq<RepoOpView>,
    pub refresh: bool,
    pub end_selection: bool,
}

pub open spec fn ops_view(ops: Seq<RepoOp>) -> Seq<RepoOpView> {
    ops.map_values(|o: RepoOp| o@)
}

impl View for Plan {
    type V = PlanView;

    open spec fn view(&self) -> PlanView {
        PlanView { ops: ops_view(self.ops@), refresh: self.refresh, end_selection: self.end_selection }
    }
}

/// What running a plan does next.
#[derive(Debug, Clone, Copy, PartialEq, Eq, Structural)]
pub enum RunStep {
    /// Run the change at this position.
    Run(usize),
    /// A change failed: run nothing more and do not reload.
    Stop,
    /// Every change succeeded; reload the status.
    Reload,
    /// Every change succeeded; nothing to reload.
    Done,
}

/// The next step of running `p` when its first `done` changes ran and the last
/// of them succeeded (`last_ok`, true when none ran): a failure stops the plan,
/// the changes run in order, and the plan reloads once all of them succeeded.
pub open spec fn run_step_spec(p: PlanView, done: nat, last_ok: bool) -> RunStep {
    if !last_ok {
        RunStep::Stop
    } else if done < p.ops.len() {
        RunStep::Run(done as usize)
    } else if p.refresh {
        RunStep::Reload
    } else {
        RunStep::Done
    }
}

/// What running `p` step by step (`run_step_spec`) does from step `done` on, when change `i`
/// would end with `results[i]` (true for success): the positions of the
/// changes that run, in order, and whether it ends in a reload.
pub open spec fn run_from(p: PlanView, results: Seq<bool>, done: nat, last_ok: bool) -> (Seq<int>, bool)
    decreases p.ops.len() - done,
{
    match run_step_spec(p, done, last_ok) {
        RunStep::Run(_) => {
            let rest = run_from(p, results, done + 1, results[done as int]);
            (seq![done as int] + rest.0, rest.1)
        },
        RunStep::Reload => (Seq::empty(), true),
        _ => (Seq::empty(), false),
    }
}

/// The first position from `from` on whose change fails, or `len` if none does.
pub open spec fn first_failure(results: Seq<bool>, from: nat, len: nat) -> nat
    decreases len - from,
{
    if from >= len {
        len
    } else if !results[from as int] {
        from
    } else {
        first_failure(results, from + 1, len)
    }
}

proof fn lemma_first_failure_bounds(results: Seq<bool>, from: nat, len: nat)
    requires
        from <= len,
    ensures
        from <= first_failure(results, from, len) <= len,
    decreases len - from,
{
    if from < len && results[from as int] {
        lemma_first_failure_bounds(results, from + 1, len);
    }
}

/// Running a plan by its steps runs its changes in order, up to and including
/// the first that fails and none after it, and reloads exactly when every
/// change succeeded and the plan asks for a reload.
pub proof fn lemma_run_stops_at_first_failure(p: PlanView, results: Seq<bool>, done: nat)
    requires
        done <= p.ops.len(),
    ensures
        ({
            let f = first_failure(results, done, p.ops.len());
            let end: nat = if f < p.ops.len() { f + 1 } else { p.ops.len() };
            &&& run_from(p, results, done, true).0 == Seq::new((end - done) as nat, |i: int| done + i)
            &&& run_from(p, results, done, true).1 == (f == p.ops.len() && p.refresh)
        }),
    decreases p.ops.len() - done,
{
    let n = p.ops.len();
    if done < n {
        lemma_run_stops_at_first_failure(p, results, done + 1);
        let f = first_failure(results, done, n);
        let end: nat = if f < n { f + 1 } else { n };
        if results[done as int] {
            assert(f == first_failure(results, done + 1, n));
            lemma_first_failure_bounds(results, done + 1, n);
            let rest = run_from(p, results, done + 1, true);
            assert(run_from(p, results, done, true) == (seq![done as int] + rest.0, rest.1));
            assert(rest.0 =~= Seq::new((end - done - 1) as nat, |i: int| done + 1 + i));
            assert(run_from(p, results, done, true).0 =~= Seq::new((end - done) as nat, |i: int| done + i));
        } else {
            assert(run_from(p, results, done + 1, false).0 =~= Seq::<int>::empty());
            assert(run_from(p, results, done, true).0 =~= Seq::new((end - done) as nat, |i: int| done + i));
        }
    } else {
        assert(run_from(p, results, done, true).0 =~= Seq::new(0, |i: int| done + i));
    }
}

/// The next step of running `plan` (see `run_step_spec`).
pub fn run_step(plan: &Plan, done: usize, last_ok: bool) -> (r: RunStep)
    ensures
        r == run_step_spec(plan@, done as nat, last_ok),
{
    if !last_ok {
        RunStep::Stop
    } else if done < plan.ops.len() {
        RunStep::Run(done)
    } else if plan.refresh {
        RunStep::Reload
    } else {
        RunStep::Done
    }
}

impl AppView {
    pub open spec fn kind_of(&self, si: usize) -> SectionKind {
        self.sections[si as int].kind
    }

    pub open spec fn entry_of(&self, si: usize, fi: usize) -> FileEntry {
        self.sections[si as int].files[fi as int].entry
    }

    pub open spec fn path_of(&self, si: usize, fi: usize) -> Seq<char> {
        self.entry_of(si, fi).path@
    }

    pub open spec fn hunk_of(&self, si: usize, fi: usize, hi: usize) -> Hunk {
        self.entry_of(si, fi).hunks@[hi as int]
    }

    /// No hunk has more lines than a `u32` counts.
    pub open spec fn lines_fit(&self) -> bool {
        forall|si: int, fi: int, hi: int|
            0 <= si < self.sections.len() && 0 <= fi < self.sections[si].files.len() && 0 <= hi
                < self.sections[si].files[fi].entry.hunks@.len() ==> (
            #[trigger] self.sections[si].files[fi].entry.hunks@[hi]).lines@.len() <= u32::MAX
    }
}

/// Files of these sections can be staged.
pub open spec fn stageable(k: SectionKind) -> bool {
    k == SectionKind::Untracked || k == SectionKind::Unstaged
}

/// What staging the row under the cursor does: a section's or a file's paths
/// are added when they are untracked or unstaged; an unstaged hunk, or an
/// unstaged line, is applied to the index.
pub open spec fn stage_current_spec(v: AppView) -> Seq<RepoOpView> {
    match v.current() {
        Some(CursorItem::Section(si)) => if stageable(v.kind_of(si)) {
            Seq::new(
                v.sections[si as int].files.len(),
                |fi: int| RepoOpView::Git(stage_file_cmd(v.sections[si as int].files[fi].entry.path@)),
            )
        } else {
            Seq::empty()
        },
        Some(CursorItem::File(si, fi)) => if stageable(v.kind_of(si)) {
            seq![RepoOpView::Git(stage_file_cmd(v.path_of(si, fi)))]
        } else {
            Seq::empty()
        },
        Some(CursorItem::Hunk(si, fi, hi)) => if v.kind_of(si) == SectionKind::Unstaged {
            seq![RepoOpView::Git(stage_hunk_cmd(v.path_of(si, fi), v.hunk_of(si, fi, hi)))]
        } else {
            Seq::empty()
        },
        Some(CursorItem::DiffLine(si, fi, hi, li)) => if v.kind_of(si) == SectionKind::Unstaged {
            seq![RepoOpView::Git(stage_lines_cmd(v.path_of(si, fi), v.hunk_of(si, fi, hi), seq![li]))]
        } else {
            Seq::empty()
        },
        _ => Seq::empty(),
    }
}

/// What unstaging the row under the cursor does: a staged section's or file's
/// paths are restored in the index; a staged hunk or line is applied to the
/// index in reverse.
pub open spec fn unstage_current_spec(v: AppView) -> Seq<RepoOpView> {
    match v.current() {
        Some(CursorItem::Section(si)) => if v.kind_of(si) == SectionKind::Staged {
            Seq::new(
                v.sections[si as int].files.len(),
                |fi: int| RepoOpView::Git(unstage_file_cmd(v.sections[si as int].files[fi].entry.path@)),
            )
        } else {
            Seq::empty()
        },
        Some(CursorItem::File(si, fi)) => if v.kind_of(si) == SectionKind::Staged {
            seq![RepoOpView::Git(unstage_file_cmd(v.path_of(si, fi)))]
        } else {
            Seq::empty()
        },
        Some(CursorItem::Hunk(si, fi, hi)) => if v.kind_of(si) == SectionKind::Staged {
            seq![RepoOpView::Git(unstage_hunk_cmd(v.path_of(si, fi), v.hunk_of(si, fi, hi)))]
        } else {
            Seq::empty()
        },
        Some(CursorItem::DiffLine(si, fi, hi, li)) => if v.kind_of(si) == SectionKind::Staged {
            seq![RepoOpView::Git(unstage_lines_cmd(v.path_of(si, fi), v.hunk_of(si, fi, hi), seq![li]))]
        } else {
            Seq::empty()
        },
        _ => Seq::empty(),
    }
}

fn git_op(c: GitCommand) -> (r: RepoOp)
    ensures
        r@ == RepoOpView::Git(c@),
{
    RepoOp::Git(c)
}

impl App {
    fn entry(&self, si: usize, fi: usize) -> (r: &FileEntry)
        requires
            si < self.sections@.len(),
            fi < self@.sections[si as int].files.len(),
        ensures
            *r == self@.entry_of(si, fi),
    {
        assert(self@.sections[si as int] == self.sections@[si as int]@);
        assert(self@.sections[si as int].files[fi as int] == self.sections@[si as int].files@[fi as int]@);
        &self.sections[si].files[fi].entry
    }

    fn kind(&self, si: usize) -> (r: SectionKind)
        requires
            si < self.sections@.len(),
        ensures
            r == self@.kind_of(si),
    {
        assert(self@.sections[si as int] == self.sections@[si as int]@);
        self.sections[si].kind
    }

    fn all_files_op(&self, si: usize, stage: bool) -> (r: Vec<RepoOp>)
        requires
            si < self.sections@.len(),
        ensures
            ops_view(r@) == Seq::new(
                self@.sections[si as int].files.len(),
                |fi: int| RepoOpView::Git(
                    if stage {
                        stage_file_cmd(self@.sections[si as int].files[fi].entry.path@)
                    } else {
                        unstage_file_cmd(self@.sections[si as int].files[fi].entry.path@)
                    },
                ),
            ),
    {
        let ghost target = Seq::new(
            self@.sections[si as int].files.len(),
            |fi: int| RepoOpView::Git(
                if stage {
                    stage_file_cmd(self@.sections[si as int].files[fi].entry.path@)
                } else {
                    unstage_file_cmd(self@.sections[si as int].files[fi].entry.path@)
                },
            ),
        );
        assert(self@.sections[si as int] == self.sections@[si as int]@);
        let n = self.sections[si].files.len();
        let mut ops: Vec<RepoOp> = Vec::new();
        let mut fi: usize = 0;
        while fi < n
            invariant
                fi <= n,
                si < self.sections@.len(),
                n == self@.sections[si as int].files.len(),
                target.len() == n,
                forall|k: int| 0 <= k < n ==> #[trigger] target[k] == RepoOpView::Git(
                    if stage {
                        stage_file_cmd(self@.sections[si as int].files[k].entry.path@)
                    } else {
                        unstage_file_cmd(self@.sections[si as int].files[k].entry.path@)
                    },
                ),
                ops_view(ops@) == target.take(fi as int),
            decreases n - fi,
        {
            let e = self.entry(si, fi);
            let c = if stage {
                stage_file(&e.path)
            } else {
                unstage_file(&e.path)
            };
            let ghost before = ops@;
            ops.push(git_op(c));
            assert(ops_view(ops@) =~= ops_view(before).push(target[fi as int]));
            assert(target.take(fi + 1) =~= target.take(fi as int).push(target[fi as int]));
            fi = fi + 1;
        }
        assert(target.take(n as int) =~= target);
        ops
    }

    /// What staging the row under the cursor asks of the repository; the buffer
    /// reloads afterwards.
    pub fn stage_current(&self) -> (r: Plan)
        requires
            self@.wf(),
            self@.lines_fit(),
        ensures
            r@ == (PlanView { ops: stage_current_spec(self@), refresh: true, end_selection: false }),
    {
        proof {
            lemma_visible_valid(self@);
        }
        let mut ops: Vec<RepoOp> = Vec::new();
        match self.current_item() {
            Some(CursorItem::Section(si)) => {
                let k = self.kind(si);
                if k == SectionKind::Untracked || k == SectionKind::Unstaged {
                    ops = self.all_files_op(si, true);
                }
            },
            Some(CursorItem::File(si, fi)) => {
                let k = self.kind(si);
                if k == SectionKind::Untracked || k == SectionKind::Unstaged {
                    ops.push(git_op(stage_file(&self.entry(si, fi).path)));
                }
            },
            Some(CursorItem::Hunk(si, fi, hi)) => {
                if self.kind(si) == SectionKind::Unstaged {
                    let e = self.entry(si, fi);
                    ops.push(git_op(stage_hunk(e.path.as_str(), &e.hunks[hi])));
                }
            },
            Some(CursorItem::DiffLine(si, fi, hi, li)) => {
                if self.kind(si) == SectionKind::Unstaged {
                    let e = self.entry(si, fi);
                    let sel: &[usize] = &[li];
                    assert(sel@ == seq![li]);
                    ops.push(git_op(stage_lines(e.path.as_str(), &e.hunks[hi], sel)));
                }
            },
            _ => {},
        }
        assert(ops_view(ops@) =~= stage_current_spec(self@));
        Plan { ops, refresh: true, end_selection: false }
    }

    /// What unstaging the row under the cursor asks of the repository; the
    /// buffer reloads afterwards.
    pub fn unstage_current(&self) -> (r: Plan)
        requires
            self@.wf(),
            self@.lines_fit(),
        ensures
            r@ == (PlanView { ops: unstage_current_spec(self@), refresh: true, end_selection: false }),
    {
        proof {
            lemma_visible_valid(self@);
        }
        let mut ops: Vec<RepoOp> = Vec::new();
        match self.current_item() {
            Some(CursorItem::Section(si)) => {
                if self.kind(si) == SectionKind::Staged {
                    ops = self.all_files_op(si, false);
                }
            },
            Some(CursorItem::File(si, fi)) => {
                if self.kind(si) == SectionKind::Staged {
                    ops.push(git_op(unstage_file(&self.entry(si, fi).path)));
                }
            },
            Some(CursorItem::Hunk(si, fi, hi)) => {
                if self.kind(si) == SectionKind::Staged {
                    let e = self.entry(si, fi);
                    ops.push(git_op(unstage_hunk(e.path.as_str(), &e.hunks[hi])));
                }
            },
            Some(CursorItem::DiffLine(si, fi, hi, li)) => {
                if self.kind(si) == SectionKind::Staged {
                    let e = self.entry(si, fi);
                    let sel: &[usize] = &[li];
                    assert(sel@ == seq![li]);
                    ops.push(git_op(unstage_lines(e.path.as_str(), &e.hunks[hi], sel)));
                }
            },
            _ => {},
        }
        assert(ops_view(ops@) =~= unstage_current_spec(self@));
        Plan { ops, refresh: true, end_selection: false }
    }
}

/// The three things a batch of rows can be handed to.
#[derive(Debug, Clone, Copy, PartialEq, Eq, Structural)]
pub enum BatchMode {
    Stage,
    Unstage,
    Discard,
}

/// What a file or hunk row of a batch does at once: staging takes untracked or
/// unstaged files and unstaged hunks; unstaging takes staged ones; discarding
/// trashes untracked files, checks other files out, and reverses hunks.
pub open spec fn item_ops(v: AppView, mode: BatchMode, x: CursorItem) -> Seq<RepoOpView> {
    match x {
        CursorItem::File(si, fi) => match mode {
            BatchMode::Stage => if stageable(v.kind_of(si)) {
                seq![RepoOpView::Git(stage_file_cmd(v.path_of(si, fi)))]
            } else {
                Seq::empty()
            },
            BatchMode::Unstage => if v.kind_of(si) == SectionKind::Staged {
                seq![RepoOpView::Git(unstage_file_cmd(v.path_of(si, fi)))]
            } else {
                Seq::empty()
            },
            BatchMode::Discard => if v.kind_of(si) == SectionKind::Untracked {
                seq![RepoOpView::Trash(v.path_of(si, fi))]
            } else {
                seq![RepoOpView::Git(discard_file_cmd(v.path_of(si, fi), v.kind_of(si) == SectionKind::Staged))]
            },
        },
        CursorItem::Hunk(si, fi, hi) => match mode {
            BatchMode::Stage => if v.kind_of(si) == SectionKind::Unstaged {
                seq![RepoOpView::Git(stage_hunk_cmd(v.path_of(si, fi), v.hunk_of(si, fi, hi)))]
            } else {
                Seq::empty()
            },
            BatchMode::Unstage => if v.kind_of(si) == SectionKind::Staged {
                seq![RepoOpView::Git(unstage_hunk_cmd(v.path_of(si, fi), v.hunk_of(si, fi, hi)))]
            } else {
                Seq::empty()
            },
            BatchMode::Discard => seq![
                RepoOpView::Git(
                    discard_hunk_cmd(
                        v.path_of(si, fi),
                        v.hunk_of(si, fi, hi),
                        v.kind_of(si) == SectionKind::Staged,
                    ),
                ),
            ],
        },
        _ => Seq::empty(),
    }
}

/// Whether a row of a batch waits to be applied with the other lines of its hunk.
pub open spec fn joins_group(v: AppView, mode: BatchMode, x: CursorItem) -> bool {
    match x {
        CursorItem::DiffLine(si, _, _, _) => match mode {
            BatchMode::Stage => v.kind_of(si) == SectionKind::Unstaged,
            BatchMode::Unstage => v.kind_of(si) == SectionKind::Staged,
            BatchMode::Discard => true,
        },
        _ => false,
    }
}

/// The position of the group of `key`, or -1.
pub open spec fn group_pos(groups: Seq<((usize, usize, usize), Seq<usize>)>, key: (usize, usize, usize)) -> int
    decreases groups.len(),
{
    if groups.len() == 0 {
        -1
    } else if groups.last().0 == key {
        groups.len() - 1
    } else {
        group_pos(groups.drop_last(), key)
    }
}

/// The groups after line `li` of the hunk `key` joins them: appended to that
/// hunk's group, or starting a new group at the end.
pub open spec fn group_add(groups: Seq<((usize, usize, usize), Seq<usize>)>, key: (usize, usize, usize), li: usize) -> Seq<
    ((usize, usize, usize), Seq<usize>),
> {
    let p = group_pos(groups, key);
    if p < 0 {
        groups.push((key, seq![li]))
    } else {
        groups.update(p, (key, groups[p].1.push(li)))
    }
}

/// The lines of a batch, grouped by hunk, hunks in the order they first appear.
pub open spec fn batch_groups(v: AppView, mode: BatchMode, items: Seq<CursorItem>) -> Seq<
    ((usize, usize, usize), Seq<usize>),
>
    decreases items.len(),
{
    if items.len() == 0 {
        Seq::empty()
    } else {
        let g = batch_groups(v, mode, items.drop_last());
        let x = items.last();
        if joins_group(v, mode, x) {
            match x {
                CursorItem::DiffLine(si, fi, hi, li) => group_add(g, (si, fi, hi), li),
                _ => g,
            }
        } else {
            g
        }
    }
}

/// The file and hunk changes of a batch, in its order.
pub open spec fn batch_direct(v: AppView, mode: BatchMode, items: Seq<CursorItem>) -> Seq<RepoOpView>
    decreases items.len(),
{
    if items.len() == 0 {
        Seq::empty()
    } else {
        batch_direct(v, mode, items.drop_last()) + item_ops(v, mode, items.last())
    }
}

/// What a group of lines of one hunk does.
pub open spec fn group_ops(v: AppView, mode: BatchMode, key: (usize, usize, usize), lines: Seq<usize>) -> Seq<
    RepoOpView,
> {
    let path = v.path_of(key.0, key.1);
    let hunk = v.hunk_of(key.0, key.1, key.2);
    match mode {
        BatchMode::Stage => seq![RepoOpView::Git(stage_lines_cmd(path, hunk, lines))],
        BatchMode::Unstage => seq![RepoOpView::Git(unstage_lines_cmd(path, hunk, lines))],
        BatchMode::Discard => discard_lines_cmds(path, hunk, lines, v.kind_of(key.0) == SectionKind::Staged).map_values(
            |c: GitCommandView| RepoOpView::Git(c),
        ),
    }
}

pub open spec fn groups_ops(v: AppView, mode: BatchMode, groups: Seq<((usize, usize, usize), Seq<usize>)>) -> Seq<
    RepoOpView,
>
    decreases groups.len(),
{
    if groups.len() == 0 {
        Seq::empty()
    } else {
        groups_ops(v, mode, groups.drop_last()) + group_ops(v, mode, groups.last().0, groups.last().1)
    }
}

/// What a batch of rows does: its file and hunk changes in order, then one
/// change per hunk for the lines picked in it.
pub open spec fn batch_ops(v: AppView, mode: BatchMode, items: Seq<CursorItem>) -> Seq<RepoOpView> {
    batch_direct(v, mode, items) + groups_ops(v, mode, batch_groups(v, mode, items))
}

pub open spec fn groups_view(g: Seq<((usize, usize, usize), Vec<usize>)>) -> Seq<((usize, usize, usize), Seq<usize>)> {
    g.map_values(|x: ((usize, usize, usize), Vec<usize>)| (x.0, x.1@))
}

/// The hunk a group key names exists.
pub open spec fn key_valid(v: AppView, key: (usize, usize, usize)) -> bool {
    item_valid(v, CursorItem::Hunk(key.0, key.1, key.2))
}

fn same_key(a: (usize, usize, usize), b: (usize, usize, usize)) -> (r: bool)
    ensures
        r == (a == b),
{
    a.0 == b.0 && a.1 == b.1 && a.2 == b.2
}

fn add_to_groups(groups: &mut Vec<((usize, usize, usize), Vec<usize>)>, key: (usize, usize, usize), li: usize)
    ensures
        groups_view(final(groups)@) == group_add(groups_view(old(groups)@), key, li),
        forall|k: int| 0 <= k < final(groups)@.len() ==> (#[trigger] final(groups)@[k]).0 == key || exists|j: int|
            0 <= j < old(groups)@.len() && old(groups)@[j].0 == final(groups)@[k].0,
{
    let ghost gv = groups_view(groups@);
    let mut j = groups.len();
    assert(gv.take(j as int) =~= gv);
    while j > 0 && !same_key(groups[j - 1].0, key)
        invariant
            j <= groups@.len(),
            gv == groups_view(groups@),
            group_pos(gv, key) == group_pos(gv.take(j as int), key),
        decreases j,
    {
        assert(gv.take(j as int).drop_last() =~= gv.take(j - 1));
        j = j - 1;
    }
    if j == 0 {
        assert(gv.take(0) =~= Seq::<((usize, usize, usize), Seq<usize>)>::empty());
        let ghost before = groups@;
        let mut nv: Vec<usize> = Vec::new();
        nv.push(li);
        assert(nv@ =~= seq![li]);
        groups.push((key, nv));
        assert(groups_view(groups@) =~= gv.push((key, seq![li])));
        assert forall|k: int| 0 <= k < groups@.len() implies (#[trigger] groups@[k]).0 == key || exists|j2: int|
            0 <= j2 < before.len() && before[j2].0 == groups@[k].0 by {
            if k < before.len() {
                assert(before[k].0 == groups@[k].0);
            }
        }
    } else {
        assert(gv.take(j as int).last() == gv[j - 1]);
        assert(group_pos(gv.take(j as int), key) == j - 1);
        let ghost before = groups@;
        groups[j - 1].1.push(li);
        assert(groups_view(groups@) =~= gv.update(j - 1, (key, gv[j - 1].1.push(li))));
        assert forall|k: int| 0 <= k < groups@.len() implies (#[trigger] groups@[k]).0 == key || exists|j2: int|
            0 <= j2 < before.len() && before[j2].0 == groups@[k].0 by {
            assert(before[k].0 == groups@[k].0);
        }
    }
}

impl App {
    fn item_ops_exec(&self, mode: BatchMode, x: CursorItem) -> (r: Vec<RepoOp>)
        requires
            self@.wf(),
            item_valid(self@, x),
        ensures
            ops_view(r@) == item_ops(self@, mode, x),
    {
        let mut ops: Vec<RepoOp> = Vec::new();
        match x {
            CursorItem::File(si, fi) => {
                let k = self.kind(si);
                let e = self.entry(si, fi);
                match mode {
                    BatchMode::Stage => {
                        if k == SectionKind::Untracked || k == SectionKind::Unstaged {
                            ops.push(git_op(stage_file(&e.path)));
                        }
                    },
                    BatchMode::Unstage => {
                        if k == SectionKind::Staged {
                            ops.push(git_op(unstage_file(&e.path)));
                        }
                    },
                    BatchMode::Discard => {
                        if k == SectionKind::Untracked {
                            ops.push(trash_file(&e.path));
                        } else {
                            ops.push(git_op(discard_file(&e.path, k == SectionKind::Staged)));
                        }
                    },
                }
            },
            CursorItem::Hunk(si, fi, hi) => {
                let k = self.kind(si);
                let e = self.entry(si, fi);
                match mode {
                    BatchMode::Stage => {
                        if k == SectionKind::Unstaged {
                            ops.push(git_op(stage_hunk(e.path.as_str(), &e.hunks[hi])));
                        }
                    },
                    BatchMode::Unstage => {
                        if k == SectionKind::Staged {
                            ops.push(git_op(unstage_hunk(e.path.as_str(), &e.hunks[hi])));
                        }
                    },
                    BatchMode::Discard => {
                        ops.push(git_op(discard_hunk(e.path.as_str(), &e.hunks[hi], k == SectionKind::Staged)));
                    },
                }
            },
            _ => {},
        }
        assert(ops_view(ops@) =~= item_ops(self@, mode, x));
        ops
    }

    fn group_ops_exec(&self, mode: BatchMode, key: (usize, usize, usize), lines: &Vec<usize>) -> (r: Vec<RepoOp>)
        requires
            self@.wf(),
            self@.lines_fit(),
            key_valid(self@, key),
        ensures
            ops_view(r@) == group_ops(self@, mode, key, lines@),
    {
        let (si, fi, hi) = key;
        let e = self.entry(si, fi);
        let mut ops: Vec<RepoOp> = Vec::new();
        match mode {
            BatchMode::Stage => {
                ops.push(git_op(stage_lines(e.path.as_str(), &e.hunks[hi], lines.as_slice())));
            },
            BatchMode::Unstage => {
                ops.push(git_op(unstage_lines(e.path.as_str(), &e.hunks[hi], lines.as_slice())));
            },
            BatchMode::Discard => {
                let staged = self.kind(si) == SectionKind::Staged;
                let cmds = discard_lines(e.path.as_str(), &e.hunks[hi], lines.as_slice(), staged);
                let ghost cv = cmds@.map_values(|c: GitCommand| c@);
                for c in it: cmds.into_iter()
                    invariant
                        cv == it.seq().map_values(|c: GitCommand| c@),
                        ops_view(ops@) == cv.take(it.index() as int).map_values(
                            |c: GitCommandView| RepoOpView::Git(c),
                        ),
                {
                    let ghost before = ops@;
                    let ghost idx = it.index();
                    let ghost cw = c@;
                    assert(cw == cv[idx as int]);
                    ops.push(git_op(c));
                    assert(ops_view(ops@) =~= ops_view(before).push(RepoOpView::Git(cw)));
                    assert(ops_view(ops@) =~= cv.take(idx + 1).map_values(
                        |c: GitCommandView| RepoOpView::Git(c),
                    ));
                }
                assert(cv.take(cv.len() as int) =~= cv);
            },
        }
        assert(ops_view(ops@) =~= group_ops(self@, mode, key, lines@));
        ops
    }

    /// What a batch of existing rows asks of the repository (see `batch_ops`).
    pub fn batch_plan(&self, mode: BatchMode, items: &Vec<CursorItem>) -> (r: Vec<RepoOp>)
        requires
            self@.wf(),
            self@.lines_fit(),
            forall|k: int| 0 <= k < items@.len() ==> item_valid(self@, #[trigger] items@[k]),
        ensures
            ops_view(r@) == batch_ops(self@, mode, items@),
    {
        let mut ops: Vec<RepoOp> = Vec::new();
        let mut groups: Vec<((usize, usize, usize), Vec<usize>)> = Vec::new();
        let mut k: usize = 0;
        while k < items.len()
            invariant
                self@.wf(),
                self@.lines_fit(),
                k <= items@.len(),
                forall|j: int| 0 <= j < items@.len() ==> item_valid(self@, #[trigger] items@[j]),
                ops_view(ops@) == batch_direct(self@, mode, items@.take(k as int)),
                groups_view(groups@) == batch_groups(self@, mode, items@.take(k as int)),
                forall|j: int| 0 <= j < groups@.len() ==> key_valid(self@, (#[trigger] groups@[j]).0),
            decreases items@.len() - k,
        {
            let x = items[k];
            assert(items@.take(k + 1).drop_last() =~= items@.take(k as int));
            assert(items@.take(k + 1).last() == x);
            let mut more = self.item_ops_exec(mode, x);
            let ghost before = ops@;
            ops.append(&mut more);
            assert(ops_view(ops@) =~= ops_view(before) + item_ops(self@, mode, x));
            match x {
                CursorItem::DiffLine(si, fi, hi, li) => {
                    let joins = match mode {
                        BatchMode::Stage => self.kind(si) == SectionKind::Unstaged,
                        BatchMode::Unstage => self.kind(si) == SectionKind::Staged,
                        BatchMode::Discard => true,
                    };
                    if joins {
                        let ghost gb = groups@;
                        add_to_groups(&mut groups, (si, fi, hi), li);
                        assert forall|j: int| 0 <= j < groups@.len() implies key_valid(self@, (#[trigger] groups@[j]).0) by {
                            if groups@[j].0 != (si, fi, hi) {
                                let j2 = choose|j2: int| 0 <= j2 < gb.len() && gb[j2].0 == groups@[j].0;
                                assert(key_valid(self@, gb[j2].0));
                            }
                        }
                    }
                },
                _ => {},
            }
            k = k + 1;
        }
        assert(items@.take(items@.len() as int) =~= items@);
        let ghost direct = ops_view(ops@);
        let ghost gv = groups_view(groups@);
        let mut g: usize = 0;
        while g < groups.len()
            invariant
                self@.wf(),
                self@.lines_fit(),
                g <= groups@.len(),
                gv == groups_view(groups@),
                forall|j: int| 0 <= j < groups@.len() ==> key_valid(self@, (#[trigger] groups@[j]).0),
                ops_view(ops@) == direct + groups_ops(self@, mode, gv.take(g as int)),
            decreases groups@.len() - g,
        {
            let mut more = self.group_ops_exec(mode, groups[g].0, &groups[g].1);
            let ghost before = ops@;
            ops.append(&mut more);
            assert(gv.take(g + 1).drop_last() =~= gv.take(g as int));
            assert(gv.take(g + 1).last() == (groups@[g as int].0, groups@[g as int].1@));
            assert(ops_view(ops@) =~= ops_view(before) + group_ops(self@, mode, groups@[g as int].0, groups@[g as int].1@));
            g = g + 1;
        }
        assert(gv.take(gv.len() as int) =~= gv);
        ops
    }
}

/// The rows from `lo` to `hi`, both included, that exist.
pub open spec fn range_items(v: AppView, lo: usize, hi: usize) -> Seq<CursorItem> {
    let n = v.visible().len();
    let end: int = if hi < n {
        hi + 1
    } else {
        n as int
    };
    if lo < end {
        v.visible().subrange(lo as int, end)
    } else {
        Seq::empty()
    }
}

/// The rows between the visual anchor and the cursor.
pub open spec fn visual_items(v: AppView, anchor: usize) -> Seq<CursorItem> {
    if anchor <= v.cursor {
        range_items(v, anchor, v.cursor)
    } else {
        range_items(v, v.cursor, anchor)
    }
}

/// The paths of the file rows of `items`, in order.
pub open spec fn file_paths(v: AppView, items: Seq<CursorItem>) -> Seq<Seq<char>>
    decreases items.len(),
{
    if items.len() == 0 {
        Seq::empty()
    } else {
        let rest = file_paths(v, items.drop_last());
        match items.last() {
            CursorItem::File(si, fi) => rest.push(v.path_of(si, fi)),
            _ => rest,
        }
    }
}

/// The rows of `items` that discarding can take: files, hunks and lines.
pub open spec fn discardable(items: Seq<CursorItem>) -> Seq<CursorItem>
    decreases items.len(),
{
    if items.len() == 0 {
        Seq::empty()
    } else {
        let rest = discardable(items.drop_last());
        let x = items.last();
        if x is File || x is Hunk || x is DiffLine {
            rest.push(x)
        } else {
            rest
        }
    }
}

/// The question asked before discarding the row under the cursor: trash an
/// untracked file, check out another file, reverse a hunk, or drop an added or
/// removed line; other rows ask nothing.
pub open spec fn discard_current_spec(v: AppView) -> AppView {
    match v.current() {
        Some(CursorItem::File(si, fi)) => AppView {
            confirm: Some(
                ConfirmView {
                    kind: if v.kind_of(si) == SectionKind::Untracked {
                        ConfirmKindView::Trash
                    } else {
                        ConfirmKindView::Discard
                    },
                    section: si,
                    file: fi,
                    hunk: None,
                    prompt: if v.kind_of(si) == SectionKind::Untracked {
                        "Trash \""@ + v.path_of(si, fi) + "\"? (y or n)"@
                    } else {
                        "Discard unstaged changes in \""@ + v.path_of(si, fi) + "\"? (y or n)"@
                    },
                },
            ),
            ..v
        },
        Some(CursorItem::Hunk(si, fi, hi)) => AppView {
            confirm: Some(
                ConfirmView {
                    kind: ConfirmKindView::DiscardHunk,
                    section: si,
                    file: fi,
                    hunk: Some(hi),
                    prompt: "Discard hunk from \""@ + v.path_of(si, fi) + "\"? (y or n)"@,
                },
            ),
            ..v
        },
        Some(CursorItem::DiffLine(si, fi, hi, li)) => {
            let o = v.hunk_of(si, fi, hi).lines@[li as int].origin;
            if o == '+' || o == '-' {
                AppView {
                    confirm: Some(
                        ConfirmView {
                            kind: ConfirmKindView::DiscardBatch(seq![CursorItem::DiffLine(si, fi, hi, li)]),
                            section: si,
                            file: fi,
                            hunk: None,
                            prompt: "Discard this line? (y or n)"@,
                        },
                    ),
                    ..v
                }
            } else {
                v
            }
        },
        _ => v,
    }
}

/// The question asked before discarding the visual selection: how many of its
/// rows will go, if any can; the selection ends either way. Without a
/// selection it is the question about the row under the cursor.
pub open spec fn discard_visual_spec(v: AppView) -> AppView {
    match v.visual_anchor {
        None => discard_current_spec(v),
        Some(a) => {
            let batch = discardable(visual_items(v, a));
            if batch.len() == 0 {
                AppView { visual_anchor: None, ..v }
            } else {
                AppView {
                    visual_anchor: None,
                    confirm: Some(
                        ConfirmView {
                            kind: ConfirmKindView::DiscardBatch(batch),
                            section: 0,
                            file: 0,
                            hunk: None,
                            prompt: "Discard "@ + decimal(batch.len()) + " item(s)? (y or n)"@,
                        },
                    ),
                    ..v
                }
            }
        },
    }
}

impl AppView {
    /// The pending question names things that exist.
    pub open spec fn confirm_ok(&self) -> bool {
        match self.confirm {
            None => true,
            Some(c) => match c.kind {
                ConfirmKindView::Discard => item_valid(*self, CursorItem::File(c.section, c.file)),
                ConfirmKindView::Trash => item_valid(*self, CursorItem::File(c.section, c.file)),
                ConfirmKindView::DiscardHunk => c.hunk is Some && item_valid(
                    *self,
                    CursorItem::Hunk(c.section, c.file, c.hunk->0),
                ),
                ConfirmKindView::DiscardBatch(items) => forall|k: int|
                    0 <= k < items.len() ==> item_valid(*self, #[trigger] items[k]),
            },
        }
    }
}

/// What answering `y` to a question does.
pub open spec fn confirm_ops(v: AppView, c: ConfirmView) -> Seq<RepoOpView> {
    match c.kind {
        ConfirmKindView::Discard => seq![
            RepoOpView::Git(
                discard_file_cmd(v.path_of(c.section, c.file), v.kind_of(c.section) == SectionKind::Staged),
            ),
        ],
        ConfirmKindView::Trash => seq![RepoOpView::Trash(v.path_of(c.section, c.file))],
        ConfirmKindView::DiscardHunk => seq![
            RepoOpView::Git(
                discard_hunk_cmd(
                    v.path_of(c.section, c.file),
                    v.hunk_of(c.section, c.file, c.hunk->0),
                    v.kind_of(c.section) == SectionKind::Staged,
                ),
            ),
        ],
        ConfirmKindView::DiscardBatch(items) => batch_ops(v, BatchMode::Discard, items),
    }
}

/// Whether a commit can be made: something is staged, or the switches stage
/// everything or allow an empty commit.
pub open spec fn can_commit_spec(v: AppView, flags: Seq<Seq<char>>) -> bool {
    (exists|si: int| 0 <= si < v.sections.len() && v.sections[si].kind == SectionKind::Staged)
        || flags.contains("--all"@) || flags.contains("--allow-empty"@)
}

fn no_plan() -> (r: Plan)
    ensures
        r@ == (PlanView { ops: Seq::empty(), refresh: false, end_selection: false }),
{
    let ops: Vec<RepoOp> = Vec::new();
    assert(ops_view(ops@) =~= Seq::<RepoOpView>::empty());
    Plan { ops, refresh: false, end_selection: false }
}

fn quoted_prompt(before: &str, path: &String) -> (r: String)
    ensures
        r@ == before@ + path@ + "\"? (y or n)"@,
{
    let mut s = owned(before);
    push_str(&mut s, path.as_str());
    push_str(&mut s, "\"? (y or n)");
    s
}

impl App {
    fn range_vec(&self, lo: usize, hi: usize) -> (r: Vec<CursorItem>)
        requires
            self@.wf(),
        ensures
            r@ == range_items(self@, lo, hi),
    {
        let items = self.visible_items();
        let n = items.len();
        let end = if hi < n {
            hi + 1
        } else {
            n
        };
        let mut out: Vec<CursorItem> = Vec::new();
        if lo < end {
            let mut i = lo;
            while i < end
                invariant
                    lo <= i <= end <= items@.len(),
                    out@ == items@.subrange(lo as int, i as int),
                decreases end - i,
            {
                out.push(items[i]);
                i = i + 1;
                assert(out@ =~= items@.subrange(lo as int, i as int));
            }
        }
        assert(out@ =~= range_items(self@, lo, hi));
        out
    }

    fn visual_vec(&self, anchor: usize) -> (r: Vec<CursorItem>)
        requires
            self@.wf(),
        ensures
            r@ == visual_items(self@, anchor),
            forall|k: int| 0 <= k < r@.len() ==> item_valid(self@, #[trigger] r@[k]),
    {
        proof {
            lemma_visible_valid(self@);
        }
        let r = if anchor <= self.cursor {
            self.range_vec(anchor, self.cursor)
        } else {
            self.range_vec(self.cursor, anchor)
        };
        assert forall|k: int| 0 <= k < r@.len() implies item_valid(self@, #[trigger] r@[k]) by {
            let lo: int = if anchor <= self.cursor { anchor as int } else { self.cursor as int };
            assert(r@[k] == self@.visible()[lo + k]);
        }
        r
    }

    /// What stageing the visual selection asks of the repository (stageing
    /// the row under the cursor when there is no selection). The buffer stays
    /// as it is: with a selection, the plan ends it once every change succeeded.
    pub fn stage_visual(&self) -> (r: Plan)
        requires
            self@.wf(),
            self@.lines_fit(),
        ensures
            r@ == match self.visual_anchor {
                None => PlanView { ops: stage_current_spec(self@), refresh: true, end_selection: false },
                Some(a) => PlanView {
                    ops: batch_ops(self@, BatchMode::Stage, visual_items(self@, a)),
                    refresh: true,
                    end_selection: true,
                },
            },
    {
        match self.visual_anchor {
            None => self.stage_current(),
            Some(a) => {
                let items = self.visual_vec(a);
                let ops = self.batch_plan(BatchMode::Stage, &items);
                Plan { ops, refresh: true, end_selection: true }
            },
        }
    }

    /// What unstageing the visual selection asks of the repository (unstageing
    /// the row under the cursor when there is no selection). The buffer stays
    /// as it is: with a selection, the plan ends it once every change succeeded.
    pub fn unstage_visual(&self) -> (r: Plan)
        requires
            self@.wf(),
            self@.lines_fit(),
        ensures
            r@ == match self.visual_anchor {
                None => PlanView { ops: unstage_current_spec(self@), refresh: true, end_selection: false },
                Some(a) => PlanView {
                    ops: batch_ops(self@, BatchMode::Unstage, visual_items(self@, a)),
                    refresh: true,
                    end_selection: true,
                },
            },
    {
        match self.visual_anchor {
            None => self.unstage_current(),
            Some(a) => {
                let items = self.visual_vec(a);
                let ops = self.batch_plan(BatchMode::Unstage, &items);
                Plan { ops, refresh: true, end_selection: true }
            },
        }
    }

    /// What stashing the files of the visual selection asks of the repository:
    /// one `git stash push` of their paths, then a reload; nothing when there
    /// is no selection or no file in it. A selection ends either way.
    pub fn stash_visual(&mut self) -> (r: Plan)
        requires
            old(self)@.wf(),
        ensures
            match old(self).visual_anchor {
                None => final(self)@ == old(self)@ && r@ == (PlanView { ops: Seq::empty(), refresh: false, end_selection: false }),
                Some(a) => final(self)@ == (AppView { visual_anchor: None, ..old(self)@ }) && r@ == if file_paths(
                    old(self)@,
                    visual_items(old(self)@, a),
                ).len() == 0 {
                    PlanView { ops: Seq::empty(), refresh: false, end_selection: false }
                } else {
                    PlanView {
                        ops: seq![RepoOpView::Git(stash_paths_cmd(file_paths(old(self)@, visual_items(old(self)@, a))))],
                        refresh: true,
                        end_selection: false,
                    }
                },
            },
    {
        match self.visual_anchor {
            None => no_plan(),
            Some(a) => {
                let items = self.visual_vec(a);
                let mut paths: Vec<String> = Vec::new();
                let mut k: usize = 0;
                while k < items.len()
                    invariant
                        k <= items@.len(),
                        forall|j: int| 0 <= j < items@.len() ==> item_valid(self@, #[trigger] items@[j]),
                        strings(paths@) == file_paths(self@, items@.take(k as int)),
                    decreases items@.len() - k,
                {
                    assert(items@.take(k + 1).drop_last() =~= items@.take(k as int));
                    assert(items@.take(k + 1).last() == items@[k as int]);
                    match items[k] {
                        CursorItem::File(si, fi) => {
                            let ghost before = paths@;
                            paths.push(self.entry(si, fi).path.clone());
                            assert(strings(paths@) =~= strings(before).push(self@.path_of(si, fi)));
                        },
                        _ => {},
                    }
                    k = k + 1;
                }
                assert(items@.take(items@.len() as int) =~= items@);
                self.visual_anchor = None;
                if paths.len() == 0 {
                    no_plan()
                } else {
                    let c = stash_push_paths(paths.as_slice());
                    let mut ops: Vec<RepoOp> = Vec::new();
                    ops.push(git_op(c));
                    assert(ops_view(ops@) =~= seq![RepoOpView::Git(stash_paths_cmd(strings(paths@)))]);
                    Plan { ops, refresh: true, end_selection: false }
                }
            },
        }
    }

    /// Asks before discarding the row under the cursor (see `discard_current_spec`).
    pub fn discard_current(&mut self)
        requires
            old(self)@.wf(),
        ensures
            final(self)@ == discard_current_spec(old(self)@),
            old(self)@.confirm_ok() ==> final(self)@.confirm_ok(),
    {
        proof {
            lemma_visible_valid(self@);
        }
        match self.current_item() {
            Some(CursorItem::File(si, fi)) => {
                let k = self.kind(si);
                let path = &self.entry(si, fi).path;
                let (kind, prompt) = if k == SectionKind::Untracked {
                    (ConfirmKind::Trash, quoted_prompt("Trash \"", path))
                } else {
                    (ConfirmKind::Discard, quoted_prompt("Discard unstaged changes in \"", path))
                };
                self.confirm = Some(Confirm { kind, section: si, file: fi, hunk: None, prompt });
            },
            Some(CursorItem::Hunk(si, fi, hi)) => {
                let prompt = quoted_prompt("Discard hunk from \"", &self.entry(si, fi).path);
                self.confirm = Some(
                    Confirm { kind: ConfirmKind::DiscardHunk, section: si, file: fi, hunk: Some(hi), prompt },
                );
            },
            Some(CursorItem::DiffLine(si, fi, hi, li)) => {
                let origin = self.entry(si, fi).hunks[hi].lines[li].origin;
                if origin == '+' || origin == '-' {
                    let mut batch: Vec<CursorItem> = Vec::new();
                    batch.push(CursorItem::DiffLine(si, fi, hi, li));
                    assert(batch@ =~= seq![CursorItem::DiffLine(si, fi, hi, li)]);
                    self.confirm = Some(
                        Confirm {
                            kind: ConfirmKind::DiscardBatch(batch),
                            section: si,
                            file: fi,
                            hunk: None,
                            prompt: owned("Discard this line? (y or n)"),
                        },
                    );
                }
            },
            _ => {},
        }
    }

    /// Asks before discarding the visual selection (see `discard_visual_spec`).
    #[verifier::spinoff_prover]
    pub fn discard_visual(&mut self)
        requires
            old(self)@.wf(),
        ensures
            final(self)@ == discard_visual_spec(old(self)@),
            old(self)@.confirm_ok() ==> final(self)@.confirm_ok(),
    {
        match self.visual_anchor {
            None => self.discard_current(),
            Some(a) => {
                let items = self.visual_vec(a);
                let mut batch: Vec<CursorItem> = Vec::new();
                let mut k: usize = 0;
                while k < items.len()
                    invariant
                        k <= items@.len(),
                        forall|j: int| 0 <= j < items@.len() ==> item_valid(self@, #[trigger] items@[j]),
                        forall|j: int| 0 <= j < batch@.len() ==> item_valid(self@, #[trigger] batch@[j]),
                        batch@ == discardable(items@.take(k as int)),
                    decreases items@.len() - k,
                {
                    assert(items@.take(k + 1).drop_last() =~= items@.take(k as int));
                    assert(items@.take(k + 1).last() == items@[k as int]);
                    let x = items[k];
                    match x {
                        CursorItem::File(..) | CursorItem::Hunk(..) | CursorItem::DiffLine(..) => {
                            batch.push(x);
                        },
                        _ => {},
                    }
                    k = k + 1;
                }
                assert(items@.take(items@.len() as int) =~= items@);
                self.visual_anchor = None;
                if batch.len() > 0 {
                    let mut prompt = owned("Discard ");
                    push_decimal(&mut prompt, batch.len() as u64);
                    push_str(&mut prompt, " item(s)? (y or n)");
                    self.confirm = Some(
                        Confirm {
                            kind: ConfirmKind::DiscardBatch(batch),
                            section: 0,
                            file: 0,
                            hunk: None,
                            prompt,
                        },
                    );
                }
            },
        }
    }

    /// What answering `y` to the pending question asks of the repository; the
    /// question goes. With a question, the buffer reloads afterwards.
    pub fn execute_confirm(&mut self) -> (r: Plan)
        requires
            old(self)@.wf(),
            old(self)@.lines_fit(),
            old(self)@.confirm_ok(),
        ensures
            final(self)@ == (AppView { confirm: None, ..old(self)@ }),
            r@ == match old(self)@.confirm {
                None => PlanView { ops: Seq::empty(), refresh: false, end_selection: false },
                Some(c) => PlanView { ops: confirm_ops(old(self)@, c), refresh: true, end_selection: false },
            },
    {
        let ghost v = self@;
        let plan = match &self.confirm {
            None => no_plan(),
            Some(c) => {
                let ghost cv = c@;
                assert(v.confirm == Some(cv));
                let mut ops: Vec<RepoOp> = Vec::new();
                match &c.kind {
                    ConfirmKind::Discard => {
                        let staged = self.kind(c.section) == SectionKind::Staged;
                        ops.push(git_op(discard_file(&self.entry(c.section, c.file).path, staged)));
                    },
                    ConfirmKind::Trash => {
                        ops.push(trash_file(&self.entry(c.section, c.file).path));
                    },
                    ConfirmKind::DiscardHunk => {
                        let staged = self.kind(c.section) == SectionKind::Staged;
                        let hi = match c.hunk {
                            Some(h) => h,
                            None => 0,
                        };
                        let e = self.entry(c.section, c.file);
                        ops.push(git_op(discard_hunk(e.path.as_str(), &e.hunks[hi], staged)));
                    },
                    ConfirmKind::DiscardBatch(items) => {
                        ops = self.batch_plan(BatchMode::Discard, items);
                    },
                }
                assert(ops_view(ops@) =~= confirm_ops(v, cv));
                Plan { ops, refresh: true, end_selection: false }
            },
        };
        self.confirm = None;
        plan
    }

    /// Whether a commit can be made with these switches (see `can_commit_spec`).
    pub fn can_commit(&self, flags: &[&str]) -> (r: bool)
        ensures
            r == can_commit_spec(self@, strs(flags@)),
    {
        let mut i: usize = 0;
        while i < self.sections.len()
            invariant
                i <= self.sections@.len(),
                forall|j: int| 0 <= j < i ==> self@.sections[j].kind != SectionKind::Staged,
            decreases self.sections@.len() - i,
        {
            assert(self@.sections[i as int] == self.sections@[i as int]@);
            if self.sections[i].kind == SectionKind::Staged {
                return true;
            }
            i = i + 1;
        }
        let mut k: usize = 0;
        while k < flags.len()
            invariant
                k <= flags@.len(),
                forall|j: int| 0 <= j < k ==> flags@[j]@ != "--all"@ && flags@[j]@ != "--allow-empty"@,
            decreases flags@.len() - k,
        {
            if str_eq(flags[k], "--all") || str_eq(flags[k], "--allow-empty") {
                assert(strs(flags@)[k as int] == flags@[k as int]@);
                return true;
            }
            k = k + 1;
        }
        assert(!strs(flags@).contains("--all"@));
        assert(!strs(flags@).contains("--allow-empty"@));
        false
    }

    /// What the user is told in place of a commit that cannot be made with these
    /// switches; nothing when it can (see `can_commit_spec`).
    pub fn commit_refusal(&self, flags: &[&str]) -> (r: Option<String>)
        ensures
            r is None <==> can_commit_spec(self@, strs(flags@)),
            r matches Some(m) ==> m@ == "Nothing staged (use -a to stage all)"@,
    {
        if self.can_commit(flags) {
            None
        } else {
            Some(owned("Nothing staged (use -a to stage all)"))
        }
    }
}

impl App {
    /// Whether no hunk has more lines than a `u32` counts (see `AppView::lines_fit`).
    pub fn lines_fit(&self) -> (r: bool)
        ensures
            r == self@.lines_fit(),
    {
        let mut si: usize = 0;
        while si < self.sections.len()
            invariant
                si <= self.sections@.len(),
                forall|a: int, fi: int, hi: int|
                    0 <= a < si && 0 <= fi < self@.sections[a].files.len() && 0 <= hi
                        < self@.sections[a].files[fi].entry.hunks@.len() ==> (
                    #[trigger] self@.sections[a].files[fi].entry.hunks@[hi]).lines@.len() <= u32::MAX,
            decreases self.sections@.len() - si,
        {
            assert(self@.sections[si as int] == self.sections@[si as int]@);
            let files = &self.sections[si].files;
            let mut fi: usize = 0;
            while fi < files.len()
                invariant
                    si < self.sections@.len(),
                    files == &self.sections@[si as int].files,
                    self@.sections[si as int] == self.sections@[si as int]@,
                    fi <= files@.len(),
                    forall|a: int, f: int, hi: int|
                        0 <= a < si && 0 <= f < self@.sections[a].files.len() && 0 <= hi
                            < self@.sections[a].files[f].entry.hunks@.len() ==> (
                        #[trigger] self@.sections[a].files[f].entry.hunks@[hi]).lines@.len() <= u32::MAX,
                    forall|f: int, hi: int|
                        0 <= f < fi && 0 <= hi < self@.sections[si as int].files[f].entry.hunks@.len() ==> (
                        #[trigger] self@.sections[si as int].files[f].entry.hunks@[hi]).lines@.len() <= u32::MAX,
                decreases files@.len() - fi,
            {
                assert(self@.sections[si as int].files[fi as int] == files@[fi as int]@);
                let hunks = &files[fi].entry.hunks;
                let mut hi: usize = 0;
                while hi < hunks.len()
                    invariant
                        si < self.sections@.len(),
                        fi < files@.len(),
                        files == &self.sections@[si as int].files,
                        self@.sections[si as int] == self.sections@[si as int]@,
                        hunks == &files@[fi as int].entry.hunks,
                        self@.sections[si as int].files[fi as int] == files@[fi as int]@,
                        hi <= hunks@.len(),
                        forall|a: int, f: int, h: int|
                            0 <= a < si && 0 <= f < self@.sections[a].files.len() && 0 <= h
                                < self@.sections[a].files[f].entry.hunks@.len() ==> (
                            #[trigger] self@.sections[a].files[f].entry.hunks@[h]).lines@.len() <= u32::MAX,
                        forall|f: int, h: int|
                            0 <= f < fi && 0 <= h < self@.sections[si as int].files[f].entry.hunks@.len() ==> (
                            #[trigger] self@.sections[si as int].files[f].entry.hunks@[h]).lines@.len() <= u32::MAX,
                        forall|h: int| 0 <= h < hi ==> (#[trigger] hunks@[h]).lines@.len() <= u32::MAX,
                    decreases hunks@.len() - hi,
                {
                    if hunks[hi].lines.len() > 4294967295 {
                        assert(self@.sections[si as int].files[fi as int].entry.hunks@[hi as int] == hunks@[hi as int]);
                        return false;
                    }
                    hi = hi + 1;
                }
                fi = fi + 1;
            }
            si = si + 1;
        }
        true
    }

    /// Whether the pending question names things that exist (see `AppView::confirm_ok`).
    pub fn confirm_valid(&self) -> (r: bool)
        ensures
            r == self@.confirm_ok(),
    {
        match &self.confirm {
            None => true,
            Some(c) => {
                assert(self@.confirm == Some(c@));
                match &c.kind {
                    ConfirmKind::Discard | ConfirmKind::Trash => self.names(CursorItem::File(c.section, c.file)),
                    ConfirmKind::DiscardHunk => match c.hunk {
                        Some(h) => self.names(CursorItem::Hunk(c.section, c.file, h)),
                        None => false,
                    },
                    ConfirmKind::DiscardBatch(items) => {
                        let mut k: usize = 0;
                        assert(c@.kind == ConfirmKindView::DiscardBatch(items@));
                        while k < items.len()
                            invariant
                                k <= items@.len(),
                                self@.confirm == Some(c@),
                                c@.kind == ConfirmKindView::DiscardBatch(items@),
                                forall|j: int| 0 <= j < k ==> item_valid(self@, #[trigger] items@[j]),
                            decreases items@.len() - k,
                        {
                            if !self.names(items[k]) {
                                assert(!item_valid(self@, items@[k as int]));
                                assert(!self@.confirm_ok()) by {
                                    match self@.confirm {
                                        Some(cc) => match cc.kind {
                                            ConfirmKindView::DiscardBatch(its) => {
                                                assert(its[k as int] == items@[k as int]);
                                            },
                                            _ => {},
                                        },
                                        None => {},
                                    }
                                }
                                return false;
                            }
                            k = k + 1;
                        }
                        true
                    },
                }
            },
        }
    }

    /// Whether a row names things that exist (see `item_valid`).
    pub fn names(&self, x: CursorItem) -> (r: bool)
        ensures
            r == item_valid(self@, x),
    {
        match x {
            CursorItem::Section(si) => {
                if si >= self.sections.len() {
                    return false;
                }
                assert(self@.sections[si as int] == self.sections@[si as int]@);
                self.sections[si].files.len() > 0
            },
            CursorItem::File(si, fi) => {
                if si >= self.sections.len() {
                    return false;
                }
                assert(self@.sections[si as int] == self.sections@[si as int]@);
                fi < self.sections[si].files.len()
            },
            CursorItem::Hunk(si, fi, hi) => {
                if si >= self.sections.len() {
                    return false;
                }
                assert(self@.sections[si as int] == self.sections@[si as int]@);
                if fi >= self.sections[si].files.len() {
                    return false;
                }
                assert(self@.sections[si as int].files[fi as int] == self.sections@[si as int].files@[fi as int]@);
                hi < self.sections[si].files[fi].entry.hunks.len()
            },
            CursorItem::DiffLine(si, fi, hi, li) => {
                if si >= self.sections.len() {
                    return false;
                }
                assert(self@.sections[si as int] == self.sections@[si as int]@);
                if fi >= self.sections[si].files.len() {
                    return false;
                }
                assert(self@.sections[si as int].files[fi as int] == self.sections@[si as int].files@[fi as int]@);
                if hi >= self.sections[si].files[fi].entry.hunks.len() {
                    return false;
                }
                li < self.sections[si].files[fi].entry.hunks[hi].lines.len()
            },
            CursorItem::CommitHeader => self.commits.len() > 0,
            CursorItem::Commit(i) => i < self.commits.len(),
        }
    }

    /// Ends the visual selection.
    pub fn end_selection(&mut self)
        ensures
            final(self)@ == (AppView { visual_anchor: None, ..old(self)@ }),
    {
        self.visual_anchor = None;
    }

    /// Closes the open menu and gives the git arguments of its switches that
    /// were on (none without a menu).
    pub fn take_flags(&mut self) -> (r: Vec<&'static str>)
        requires
            old(self)@.wf(),
        ensures
            final(self)@ == (AppView { transient: None, ..old(self)@ }),
            r@.map_values(|s: &'static str| s@) == match old(self)@.transient {
                Some(t) => crate::transient::active_git_flags(
                    crate::transient::flag_table(t.kind),
                    t.active_flags,
                    crate::transient::flag_table(t.kind).len(),
                ),
                None => Seq::empty(),
            },
    {
        match self.transient.take() {
            Some(t) => t.flags_vec(),
            None => {
                let v: Vec<&'static str> = Vec::new();
                assert(v@.map_values(|s: &'static str| s@) =~= Seq::<Seq<char>>::empty());
                v
            },
        }
    }
}

} // verus!
