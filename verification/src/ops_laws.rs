use vstd::prelude::*;

use crate::app::{
    carried_file, carried_section, first_file_at, first_section_of, initial_sections, refresh_spec,
    AppView, FileView, SectionView,
};
use crate::app::{lemma_visible_valid, toggle_spec, ConfirmKindView, CursorItem};
use crate::git::repo::{
    partial_body, HunkLine,
    apply_event, is_change_origin, partial_patch_spec, patch_spec, DiffEvent, FileEntryView,
    GitCommandView, HunkLineView, HunkView, OutputKind, RepoOpView, RepoStatus, SectionKind,
};
use crate::ops::{
    batch_direct, batch_groups, batch_ops, confirm_ops, discard_current_spec, discard_visual_spec,
    discardable, groups_ops, stage_current_spec, unstage_current_spec, visual_items, BatchMode,
};
use crate::text::trim_end_spec;

verus! {

/// A line event only ever extends the most recent hunk of the most recent file:
/// that hunk gains the line at its end, and every other file, every earlier
/// hunk, and the hunk's own header and ranges stay as they were.
pub proof fn lemma_line_extends_last_hunk(files: Seq<FileEntryView>, origin: char, content: String)
    requires
        is_change_origin(origin),
        files.len() > 0,
        files.last().hunks.len() > 0,
    ensures
        ({
            let r = apply_event(files, DiffEvent::Line { origin, content });
            let n = files.len() - 1;
            let m = files.last().hunks.len() - 1;
            &&& r.len() == files.len()
            &&& forall|i: int| 0 <= i < n ==> #[trigger] r[i] == files[i]
            &&& r[n].path == files[n].path && r[n].kind == files[n].kind
            &&& r[n].hunks.len() == files[n].hunks.len()
            &&& forall|j: int| 0 <= j < m ==> #[trigger] r[n].hunks[j] == files[n].hunks[j]
            &&& r[n].hunks[m].header == files[n].hunks[m].header
            &&& r[n].hunks[m].old_start == files[n].hunks[m].old_start
            &&& r[n].hunks[m].old_lines == files[n].hunks[m].old_lines
            &&& r[n].hunks[m].new_start == files[n].hunks[m].new_start
            &&& r[n].hunks[m].new_lines == files[n].hunks[m].new_lines
            &&& r[n].hunks[m].lines == files[n].hunks[m].lines.push(
                HunkLineView { origin, content: trim_end_spec(content@) },
            )
        }),
{
}

/// A hunk event starts a new, empty hunk at the end of the most recent file and
/// changes nothing else.
pub proof fn lemma_hunk_starts_new_hunk(
    files: Seq<FileEntryView>,
    header: String,
    old_start: u32,
    old_lines: u32,
    new_start: u32,
    new_lines: u32,
)
    requires
        files.len() > 0,
    ensures
        ({
            let r = apply_event(files, DiffEvent::Hunk { header, old_start, old_lines, new_start, new_lines });
            let n = files.len() - 1;
            let m: int = files.last().hunks.len() as int;
            &&& r.len() == files.len()
            &&& forall|i: int| 0 <= i < n ==> #[trigger] r[i] == files[i]
            &&& r[n].path == files[n].path && r[n].kind == files[n].kind
            &&& r[n].hunks.len() == m + 1
            &&& forall|j: int| 0 <= j < m ==> #[trigger] r[n].hunks[j] == files[n].hunks[j]
            &&& r[n].hunks[m] == (HunkView {
                header: trim_end_spec(header@),
                old_start,
                old_lines,
                new_start,
                new_lines,
                lines: Seq::empty(),
            })
        }),
{
}

/// A file event adds a file with no hunks after the others.
pub proof fn lemma_file_starts_new_file(files: Seq<FileEntryView>, path: String, kind: crate::git::repo::ChangeKind)
    ensures
        ({
            let r = apply_event(files, DiffEvent::File { path, kind });
            &&& r.len() == files.len() + 1
            &&& forall|i: int| 0 <= i < files.len() ==> #[trigger] r[i] == files[i]
            &&& r.last() == (FileEntryView { path: path@, kind, hunks: Seq::empty() })
        }),
{
}

proof fn lemma_first_section_is(old: Seq<SectionView>, kind: crate::git::repo::SectionKind, j: int)
    requires
        0 <= j < old.len(),
        old[j].kind == kind,
        forall|i: int| 0 <= i < j ==> (#[trigger] old[i]).kind != kind,
    ensures
        first_section_of(old, kind) == Some(j),
{
    let c = first_section_of(old, kind)->0;
    assert(old[c].kind == kind);
    if c < j {
        assert(old[c].kind != kind);
    }
    if j < c {
        assert(old[j].kind != kind);
    }
}

proof fn lemma_first_file_is(old: Seq<FileView>, path: Seq<char>, g: int)
    requires
        0 <= g < old.len(),
        old[g].entry.path@ == path,
        forall|i: int| 0 <= i < g ==> (#[trigger] old[i]).entry.path@ != path,
    ensures
        first_file_at(old, path) == Some(g),
{
    let c = first_file_at(old, path)->0;
    assert(old[c].entry.path@ == path);
    if c < g {
        assert(old[c].entry.path@ != path);
    }
    if g < c {
        assert(old[g].entry.path@ != path);
    }
}

/// A reload keeps the fold of each section: a reloaded section is folded
/// exactly when the first old section of its kind was.
pub proof fn lemma_refresh_keeps_section_fold(old: AppView, status: RepoStatus, si: int, j: int)
    requires
        0 <= si < status.sections@.len(),
        0 <= j < old.sections.len(),
        old.sections[j].kind == status.sections@[si].0,
        forall|i: int| 0 <= i < j ==> (#[trigger] old.sections[i]).kind != status.sections@[si].0,
    ensures
        refresh_spec(old, status).sections[si].kind == old.sections[j].kind,
        refresh_spec(old, status).sections[si].collapsed == old.sections[j].collapsed,
{
    let fresh = initial_sections(status.sections@);
    assert(refresh_spec(old, status).sections[si] == carried_section(fresh[si], old.sections));
    lemma_first_section_is(old.sections, status.sections@[si].0, j);
}

/// A section of a kind the old buffer did not show comes back unfolded.
pub proof fn lemma_refresh_unfolds_new_section(old: AppView, status: RepoStatus, si: int)
    requires
        0 <= si < status.sections@.len(),
        forall|i: int| 0 <= i < old.sections.len() ==> (#[trigger] old.sections[i]).kind != status.sections@[si].0,
    ensures
        !refresh_spec(old, status).sections[si].collapsed,
{
    let fresh = initial_sections(status.sections@);
    assert(refresh_spec(old, status).sections[si] == carried_section(fresh[si], old.sections));
}

/// A reload keeps the folds of each file: a file of a reloaded section is
/// folded exactly when the first file at its path in the first old section of
/// that kind was, and its hunks keep that file's hunk folds as far as it had them.
pub proof fn lemma_refresh_keeps_file_fold(old: AppView, status: RepoStatus, si: int, j: int, fi: int, g: int, hi: int)
    requires
        0 <= si < status.sections@.len(),
        0 <= j < old.sections.len(),
        old.sections[j].kind == status.sections@[si].0,
        forall|i: int| 0 <= i < j ==> (#[trigger] old.sections[i]).kind != status.sections@[si].0,
        0 <= fi < status.sections@[si].1@.len(),
        0 <= g < old.sections[j].files.len(),
        old.sections[j].files[g].entry.path@ == status.sections@[si].1@[fi].path@,
        forall|h: int|
            0 <= h < g ==> (#[trigger] old.sections[j].files[h]).entry.path@
                != status.sections@[si].1@[fi].path@,
    ensures
        refresh_spec(old, status).sections[si].files[fi].entry == status.sections@[si].1@[fi],
        refresh_spec(old, status).sections[si].files[fi].collapsed == old.sections[j].files[g].collapsed,
        0 <= hi < status.sections@[si].1@[fi].hunks@.len() && hi < old.sections[j].files[g].hunk_collapsed.len()
            ==> refresh_spec(old, status).sections[si].files[fi].hunk_collapsed[hi]
            == old.sections[j].files[g].hunk_collapsed[hi],
{
    let fresh = initial_sections(status.sections@);
    let kind = status.sections@[si].0;
    assert(refresh_spec(old, status).sections[si] == carried_section(fresh[si], old.sections));
    lemma_first_section_is(old.sections, kind, j);
    let ofs = old.sections[j].files;
    let nf = fresh[si].files[fi];
    assert(nf.entry == status.sections@[si].1@[fi]);
    assert(refresh_spec(old, status).sections[si].files[fi] == carried_file(nf, ofs));
    lemma_first_file_is(ofs, nf.entry.path@, g);
}

/// `git apply <args>` in the work tree, fed `patch`.
pub open spec fn apply_with(args: Seq<Seq<char>>, patch: Seq<char>) -> RepoOpView {
    RepoOpView::Git(
        GitCommandView {
            args,
            stdin: Some(patch),
            message: None,
            in_workdir: true,
            output: OutputKind::Apply,
            context: "failed to run git apply"@,
        },
    )
}

proof fn lemma_apply_args()
    ensures
        seq!["apply"@] + seq!["--cached"@] + Seq::<Seq<char>>::empty() + seq!["-"@] == seq![
            "apply"@,
            "--cached"@,
            "-"@,
        ],
        seq!["apply"@] + seq!["--cached"@] + seq!["--reverse"@] + seq!["-"@] == seq![
            "apply"@,
            "--cached"@,
            "--reverse"@,
            "-"@,
        ],
        seq!["apply"@] + Seq::<Seq<char>>::empty() + seq!["--reverse"@] + seq!["-"@] == seq![
            "apply"@,
            "--reverse"@,
            "-"@,
        ],
{
    assert(seq!["apply"@] + seq!["--cached"@] + Seq::<Seq<char>>::empty() + seq!["-"@] =~= seq![
        "apply"@,
        "--cached"@,
        "-"@,
    ]);
    assert(seq!["apply"@] + seq!["--cached"@] + seq!["--reverse"@] + seq!["-"@] =~= seq![
        "apply"@,
        "--cached"@,
        "--reverse"@,
        "-"@,
    ]);
    assert(seq!["apply"@] + Seq::<Seq<char>>::empty() + seq!["--reverse"@] + seq!["-"@] =~= seq![
        "apply"@,
        "--reverse"@,
        "-"@,
    ]);
}

/// Staging or unstaging a diff-line row moves that one line and no other: git
/// applies to the index the patch that selects only that line of its hunk,
/// forwards for an unstaged line and in reverse for a staged one; the other
/// direction, and an untracked file's line, ask for nothing.
pub proof fn lemma_line_row_moves_one_line(v: AppView, si: usize, fi: usize, hi: usize, li: usize)
    requires
        v.current() == Some(CursorItem::DiffLine(si, fi, hi, li)),
    ensures
        ({
            let patch = partial_patch_spec(v.path_of(si, fi), v.hunk_of(si, fi, hi), seq![li]);
            &&& v.kind_of(si) == SectionKind::Unstaged ==> stage_current_spec(v) == seq![
                apply_with(seq!["apply"@, "--cached"@, "-"@], patch),
            ] && unstage_current_spec(v).len() == 0
            &&& v.kind_of(si) == SectionKind::Staged ==> unstage_current_spec(v) == seq![
                apply_with(seq!["apply"@, "--cached"@, "--reverse"@, "-"@], patch),
            ] && stage_current_spec(v).len() == 0
            &&& v.kind_of(si) == SectionKind::Untracked ==> stage_current_spec(v).len() == 0
                && unstage_current_spec(v).len() == 0
        }),
{
    lemma_apply_args();
}

/// Staging or unstaging a hunk row moves that whole hunk: git applies the
/// hunk's own patch to the index, forwards for an unstaged hunk and in reverse
/// for a staged one; the other direction asks for nothing.
pub proof fn lemma_hunk_row_moves_hunk(v: AppView, si: usize, fi: usize, hi: usize)
    requires
        v.current() == Some(CursorItem::Hunk(si, fi, hi)),
    ensures
        ({
            let patch = patch_spec(v.path_of(si, fi), v.hunk_of(si, fi, hi));
            &&& v.kind_of(si) == SectionKind::Unstaged ==> stage_current_spec(v) == seq![
                apply_with(seq!["apply"@, "--cached"@, "-"@], patch),
            ] && unstage_current_spec(v).len() == 0
            &&& v.kind_of(si) == SectionKind::Staged ==> unstage_current_spec(v) == seq![
                apply_with(seq!["apply"@, "--cached"@, "--reverse"@, "-"@], patch),
            ] && stage_current_spec(v).len() == 0
            &&& v.kind_of(si) == SectionKind::Untracked ==> stage_current_spec(v).len() == 0
                && unstage_current_spec(v).len() == 0
        }),
{
    lemma_apply_args();
}

/// Discarding a hunk row, once answered, reverses the hunk's own patch: in the
/// index (`--cached`) for a staged hunk, in the work tree otherwise.
pub proof fn lemma_discard_hunk_reverses_it(v: AppView, si: usize, fi: usize, hi: usize)
    requires
        v.current() == Some(CursorItem::Hunk(si, fi, hi)),
    ensures
        ({
            let w = discard_current_spec(v);
            let patch = patch_spec(v.path_of(si, fi), v.hunk_of(si, fi, hi));
            &&& w.confirm is Some
            &&& confirm_ops(v, w.confirm->0) == seq![
                apply_with(
                    if v.kind_of(si) == SectionKind::Staged {
                        seq!["apply"@, "--cached"@, "--reverse"@, "-"@]
                    } else {
                        seq!["apply"@, "--reverse"@, "-"@]
                    },
                    patch,
                ),
            ]
        }),
{
    lemma_apply_args();
}

/// Answering yes to discarding the row under the cursor asks the repository for
/// the same changes as discarding a batch made of that row alone.
pub proof fn lemma_discard_row_is_batch_of_row(v: AppView)
    requires
        v.current() is Some,
        discard_current_spec(v).confirm is Some,
        v.confirm is None,
    ensures
        confirm_ops(v, discard_current_spec(v).confirm->0) == batch_ops(
            v,
            BatchMode::Discard,
            seq![v.current()->0],
        ),
{
    let x = v.current()->0;
    let items = seq![x];
    assert(items.drop_last() =~= Seq::<CursorItem>::empty());
    assert(items.last() == x);
    let d = batch_direct(v, BatchMode::Discard, items);
    assert(d == batch_direct(v, BatchMode::Discard, Seq::empty()) + crate::ops::item_ops(v, BatchMode::Discard, x));
    assert(d =~= crate::ops::item_ops(v, BatchMode::Discard, x));
    let g = batch_groups(v, BatchMode::Discard, items);
    assert(batch_groups(v, BatchMode::Discard, Seq::<CursorItem>::empty()) =~= Seq::empty());
    match x {
        CursorItem::DiffLine(si, fi, hi, li) => {},
        _ => {
            assert(g =~= Seq::empty());
            assert(groups_ops(v, BatchMode::Discard, g) =~= Seq::empty());
            assert(batch_ops(v, BatchMode::Discard, items) =~= crate::ops::item_ops(v, BatchMode::Discard, x));
        },
    }
}

/// The batch kept from a list of rows holds every file, hunk and diff-line row
/// of it, and nothing else.
pub proof fn lemma_discardable_members(items: Seq<CursorItem>)
    ensures
        discardable(items).len() <= items.len(),
        forall|k: int|
            0 <= k < items.len() && (items[k] is File || items[k] is Hunk || items[k] is DiffLine)
                ==> discardable(items).contains(#[trigger] items[k]),
        forall|k: int|
            0 <= k < discardable(items).len() ==> items.contains(#[trigger] discardable(items)[k]) && (
            discardable(items)[k] is File || discardable(items)[k] is Hunk
                || discardable(items)[k] is DiffLine),
    decreases items.len(),
{
    if items.len() > 0 {
        let init = items.drop_last();
        lemma_discardable_members(init);
        let d = discardable(items);
        let di = discardable(init);
        assert forall|k: int|
            0 <= k < items.len() && (items[k] is File || items[k] is Hunk || items[k] is DiffLine)
                implies d.contains(#[trigger] items[k]) by {
            if k < items.len() - 1 {
                assert(init[k] == items[k]);
                let j = choose|j: int| 0 <= j < di.len() && di[j] == init[k];
                assert(d[j] == di[j]);
            } else {
                assert(d[d.len() - 1] == items[k]);
            }
        }
        assert forall|k: int| 0 <= k < d.len() implies items.contains(#[trigger] d[k]) && (d[k] is File
            || d[k] is Hunk || d[k] is DiffLine) by {
            if k < di.len() {
                assert(d[k] == di[k]);
                let j = choose|j: int| 0 <= j < init.len() && init[j] == di[k];
                assert(items[j] == init[j]);
            } else {
                assert(d[k] == items.last());
                assert(items[items.len() - 1] == items.last());
            }
        }
    }
}

/// Discarding a visual selection asks about a batch that holds every file, hunk
/// and diff-line row between the anchor and the cursor and nothing else, as soon
/// as there is one; the selection ends either way.
pub proof fn lemma_selection_batch_holds_its_changes(v: AppView, a: usize, k: int)
    requires
        v.visual_anchor == Some(a),
        0 <= k < visual_items(v, a).len(),
        visual_items(v, a)[k] is File || visual_items(v, a)[k] is Hunk || visual_items(v, a)[k] is DiffLine,
    ensures
        ({
            let w = discard_visual_spec(v);
            &&& w.visual_anchor is None
            &&& w.confirm is Some
            &&& w.confirm->0.kind is DiscardBatch
            &&& w.confirm->0.kind->0.contains(visual_items(v, a)[k])
            &&& forall|j: int|
                0 <= j < w.confirm->0.kind->0.len() ==> visual_items(v, a).contains(
                    #[trigger] w.confirm->0.kind->0[j],
                ) && !(w.confirm->0.kind->0[j] is Section) && !(w.confirm->0.kind->0[j] is CommitHeader)
                    && !(w.confirm->0.kind->0[j] is Commit)
        }),
{
    let items = visual_items(v, a);
    lemma_discardable_members(items);
    assert(discardable(items).contains(items[k]));
    assert(discardable(items).len() > 0);
}

/// Selecting a single added or removed line and discarding the selection asks
/// about the same batch as discarding that line under the cursor.
pub proof fn lemma_one_line_selection_is_that_line(v: AppView, si: usize, fi: usize, hi: usize, li: usize)
    requires
        v.visual_anchor == Some(v.cursor),
        v.current() == Some(CursorItem::DiffLine(si, fi, hi, li)),
        v.hunk_of(si, fi, hi).lines@[li as int].origin == '+' || v.hunk_of(si, fi, hi).lines@[li as int].origin
            == '-',
    ensures
        discard_visual_spec(v).confirm is Some,
        discard_current_spec(v).confirm is Some,
        discard_visual_spec(v).confirm->0.kind == discard_current_spec(v).confirm->0.kind,
{
    let x = CursorItem::DiffLine(si, fi, hi, li);
    let items = visual_items(v, v.cursor);
    assert(items =~= seq![x]);
    assert(items.drop_last() =~= Seq::<CursorItem>::empty());
    assert(items.last() == x);
    assert(discardable(Seq::<CursorItem>::empty()) =~= Seq::empty());
    assert(discardable(items) == discardable(items.drop_last()).push(x));
    assert(discardable(items) =~= seq![x]);
}

/// Staging, unstaging or discarding a file row acts on that file's path alone:
/// `git add -- <path>` for an untracked or unstaged file, `git restore --staged
/// -- <path>` for a staged one; discarding, once answered, deletes an untracked
/// file and checks any other out (from HEAD when it is staged).
pub proof fn lemma_file_row_acts_on_its_path(v: AppView, si: usize, fi: usize)
    requires
        v.current() == Some(CursorItem::File(si, fi)),
    ensures
        ({
            let path = v.path_of(si, fi);
            let k = v.kind_of(si);
            let w = discard_current_spec(v);
            &&& k != SectionKind::Staged ==> stage_current_spec(v).len() == 1
                && stage_current_spec(v)[0] is Git && stage_current_spec(v)[0]->Git_0.args == seq![
                "add"@,
                "--"@,
                path,
            ] && stage_current_spec(v)[0]->Git_0.in_workdir && unstage_current_spec(v).len() == 0
            &&& k == SectionKind::Staged ==> unstage_current_spec(v).len() == 1
                && unstage_current_spec(v)[0] is Git && unstage_current_spec(v)[0]->Git_0.args == seq![
                "restore"@,
                "--staged"@,
                "--"@,
                path,
            ] && unstage_current_spec(v)[0]->Git_0.in_workdir && stage_current_spec(v).len() == 0
            &&& w.confirm is Some
            &&& k == SectionKind::Untracked ==> confirm_ops(v, w.confirm->0) == seq![RepoOpView::Trash(path)]
            &&& k == SectionKind::Unstaged ==> confirm_ops(v, w.confirm->0).len() == 1 && confirm_ops(
                v,
                w.confirm->0,
            )[0] is Git && confirm_ops(v, w.confirm->0)[0]->Git_0.args == seq!["checkout"@, "--"@, path]
            &&& k == SectionKind::Staged ==> confirm_ops(v, w.confirm->0).len() == 1 && confirm_ops(
                v,
                w.confirm->0,
            )[0] is Git && confirm_ops(v, w.confirm->0)[0]->Git_0.args == seq![
                "checkout"@,
                "HEAD"@,
                "--"@,
                path,
            ]
        }),
{
}

/// Staging a section row adds the path of each of its files, in order, when it
/// is untracked or unstaged; unstaging a staged section restores each of them.
pub proof fn lemma_section_row_acts_on_each_file(v: AppView, si: usize, fi: int)
    requires
        v.current() == Some(CursorItem::Section(si)),
        0 <= fi < v.sections[si as int].files.len(),
    ensures
        ({
            let path = v.sections[si as int].files[fi].entry.path@;
            let k = v.kind_of(si);
            &&& k != SectionKind::Staged ==> stage_current_spec(v).len() == v.sections[si as int].files.len()
                && stage_current_spec(v)[fi] is Git && stage_current_spec(v)[fi]->Git_0.args == seq![
                "add"@,
                "--"@,
                path,
            ] && unstage_current_spec(v).len() == 0
            &&& k == SectionKind::Staged ==> unstage_current_spec(v).len() == v.sections[si as int].files.len()
                && unstage_current_spec(v)[fi] is Git && unstage_current_spec(v)[fi]->Git_0.args == seq![
                "restore"@,
                "--staged"@,
                "--"@,
                path,
            ] && stage_current_spec(v).len() == 0
        }),
{
}

/// Folding flips the fold of exactly the row under the cursor (a section, a
/// file, a hunk, or the commit list) and changes nothing else; on any other row
/// it changes nothing.
pub proof fn lemma_toggle_flips_only_its_row(v: AppView)
    requires
        v.wf(),
    ensures
        ({
            let r = toggle_spec(v);
            &&& r.cursor == v.cursor && r.commits == v.commits && r.sections.len() == v.sections.len()
            &&& match v.current() {
                Some(CursorItem::Section(si)) => {
                    &&& r.sections[si as int].collapsed == !v.sections[si as int].collapsed
                    &&& r.sections[si as int].files == v.sections[si as int].files
                    &&& r.sections[si as int].kind == v.sections[si as int].kind
                    &&& forall|i: int| 0 <= i < v.sections.len() && i != si ==> #[trigger] r.sections[i] == v.sections[i]
                    &&& r.commits_collapsed == v.commits_collapsed
                },
                Some(CursorItem::File(si, fi)) => {
                    &&& r.sections[si as int].files[fi as int].collapsed == !v.sections[si as int].files[fi as int].collapsed
                    &&& r.sections[si as int].files[fi as int].hunk_collapsed == v.sections[si as int].files[fi as int].hunk_collapsed
                    &&& r.sections[si as int].files[fi as int].entry == v.sections[si as int].files[fi as int].entry
                    &&& r.sections[si as int].files.len() == v.sections[si as int].files.len()
                    &&& forall|j: int| 0 <= j < v.sections[si as int].files.len() && j != fi ==> #[trigger] r.sections[si as int].files[j] == v.sections[si as int].files[j]
                    &&& r.sections[si as int].collapsed == v.sections[si as int].collapsed
                    &&& forall|i: int| 0 <= i < v.sections.len() && i != si ==> #[trigger] r.sections[i] == v.sections[i]
                    &&& r.commits_collapsed == v.commits_collapsed
                },
                Some(CursorItem::Hunk(si, fi, hi)) => {
                    let h = v.sections[si as int].files[fi as int].hunk_collapsed;
                    &&& r.sections[si as int].files[fi as int].hunk_collapsed.len() == h.len()
                    &&& r.sections[si as int].files[fi as int].hunk_collapsed[hi as int] == !h[hi as int]
                    &&& forall|k: int| 0 <= k < h.len() && k != hi ==> #[trigger] r.sections[si as int].files[fi as int].hunk_collapsed[k] == h[k]
                    &&& r.sections[si as int].files[fi as int].collapsed == v.sections[si as int].files[fi as int].collapsed
                    &&& forall|j: int| 0 <= j < v.sections[si as int].files.len() && j != fi ==> #[trigger] r.sections[si as int].files[j] == v.sections[si as int].files[j]
                    &&& r.sections[si as int].collapsed == v.sections[si as int].collapsed
                    &&& forall|i: int| 0 <= i < v.sections.len() && i != si ==> #[trigger] r.sections[i] == v.sections[i]
                    &&& r.commits_collapsed == v.commits_collapsed
                },
                Some(CursorItem::CommitHeader) => r.commits_collapsed == !v.commits_collapsed && r.sections == v.sections,
                _ => r == v,
            }
        }),
{
    lemma_visible_valid(v);
}

/// The old side of a partial patch never depends on which lines are picked:
/// every context and deletion line of the hunk stays on it, so its old line
/// count is the same for any two selections.
pub proof fn lemma_partial_old_side_is_fixed(lines: Seq<HunkLine>, a: Seq<usize>, b: Seq<usize>)
    ensures
        partial_body(lines, a).1 == partial_body(lines, b).1,
    decreases lines.len(),
{
    if lines.len() > 0 {
        lemma_partial_old_side_is_fixed(lines.drop_last(), a, b);
    }
}

/// A partial patch that picks no line changes nothing: its old and new line
/// counts are equal.
pub proof fn lemma_partial_nothing_picked_changes_nothing(lines: Seq<HunkLine>)
    ensures
        partial_body(lines, Seq::empty()).1 == partial_body(lines, Seq::empty()).2,
    decreases lines.len(),
{
    if lines.len() > 0 {
        lemma_partial_nothing_picked_changes_nothing(lines.drop_last());
        assert(!Seq::<usize>::empty().contains((lines.len() - 1) as usize));
    }
}

} // verus!
