use vstd::prelude::*;

use crate::app::{
    carried_file, carried_flags, carried_section, concat_blocks, file_block, file_blocks_fn,
    first_file_at, first_section_of, hunk_blocks_fn, initial_file, initial_sections,
    initial_view, lemma_concat_all, move_down_spec, move_up_spec, refresh_spec, section_block,
    section_blocks_fn, AppView, CursorItem, FileView, SectionView,
};
use crate::git::repo::{
    discard_hunk_cmd, discard_lines_cmds, line_text, lines_text, partial_body, partial_step,
    stage_hunk_cmd, stage_lines_cmd, status_sections, unstage_hunk_cmd, unstage_lines_cmd,
    FileEntry, Hunk, HunkLine, RepoStatus, SectionKind,
};
use crate::keys::{handle_spec, KeyAction, KeyCode, KeyInput};
use crate::rows::{
    lemma_concat_locate, lemma_row_in_sections, lemma_section_block_shape, lemma_section_keys,
    lemma_toggle_keeps_current, sec_key,
};
use crate::transient::{flag_table, toggled, TransientView};
use crate::ui::status::{in_selection, item_spans, layout};

verus! {

/// Moving down and then up comes back to the same row, whenever moving down moved.
pub proof fn lemma_down_then_up(v: AppView)
    requires
        v.cursor + 1 < v.visible().len() <= usize::MAX,
    ensures
        move_up_spec(move_down_spec(v)) == v,
{
}

/// Moving up and then down comes back to the same row, whenever moving up moved
/// and the cursor was on a row.
pub proof fn lemma_up_then_down(v: AppView)
    requires
        0 < v.cursor < v.visible().len(),
    ensures
        move_down_spec(move_up_spec(v)) == v,
{
}

/// Moving never takes a cursor that is on a row off the rows: never above the
/// first row, never below the last.
pub proof fn lemma_moves_stay_on_rows(v: AppView)
    requires
        v.cursor < v.visible().len() <= usize::MAX,
    ensures
        move_down_spec(v).cursor < v.visible().len(),
        move_up_spec(v).cursor < v.visible().len(),
        move_down_spec(v).cursor >= v.cursor,
        move_up_spec(v).cursor <= v.cursor,
{
}

/// On the status screen, each row of the buffer is drawn at the drawn row the
/// layout gives for it, with that row's text and selection, and later rows of
/// the buffer are drawn further down.
pub proof fn lemma_layout_places_rows(v: AppView, n: nat)
    requires
        n <= v.visible().len(),
        2 * v.visible().len() + 2 <= usize::MAX,
    ensures
        ({
            let (rows, at) = layout(v, n);
            &&& at.len() == n
            &&& rows.len() <= 2 * n + 2
            &&& forall|k: int|
                0 <= k < n ==> #[trigger] at[k] < rows.len() && rows[at[k] as int].spans == item_spans(
                    v,
                    v.visible()[k],
                ) && rows[at[k] as int].selected == in_selection(v, k)
            &&& forall|j: int, k: int| 0 <= j < k < n ==> #[trigger] at[j] < #[trigger] at[k]
        }),
    decreases n,
{
    if n > 0 {
        lemma_layout_places_rows(v, (n - 1) as nat);
        let (prev_rows, prev_at) = layout(v, (n - 1) as nat);
        let (rows, at) = layout(v, n);
        assert(at.len() == n);
        assert forall|k: int| 0 <= k < n implies #[trigger] at[k] < rows.len() && rows[at[k] as int].spans
            == item_spans(v, v.visible()[k]) && rows[at[k] as int].selected == in_selection(v, k) by {
            if k < n - 1 {
                assert(at[k] == prev_at[k]);
            }
        }
        assert forall|j: int, k: int| 0 <= j < k < n implies #[trigger] at[j] < #[trigger] at[k] by {
            if k < n - 1 {
                assert(at[j] == prev_at[j]);
                assert(at[k] == prev_at[k]);
            } else {
                assert(at[j] == prev_at[j]);
                assert(prev_at[j] < prev_rows.len());
            }
        }
    }
}

/// A key press never takes a cursor that is on a row off the rows.
pub proof fn lemma_key_keeps_cursor_on_row(v: AppView, key: KeyInput)
    requires
        v.wf(),
        v.cursor < v.visible().len(),
    ensures
        ({
            let v1 = handle_spec(v, key).0;
            v1.cursor < v1.visible().len()
        }),
{
    let w = AppView { message: None, ..v };
    assert(w.visible() == v.visible());
    lemma_toggle_keeps_current(w);
}

/// After a reload the cursor is on a row, or at 0 when there are none.
pub proof fn lemma_refresh_cursor_on_row(old: AppView, status: RepoStatus)
    ensures
        ({
            let v = refresh_spec(old, status);
            (v.visible().len() == 0 && v.cursor == 0) || v.cursor < v.visible().len()
        }),
{
}

/// The status lists each kind of section once, and each path once in a section.
pub open spec fn status_distinct(status: RepoStatus) -> bool {
    let s = status.sections@;
    &&& forall|i: int, j: int| 0 <= i < j < s.len() ==> (#[trigger] s[i]).0 != (#[trigger] s[j]).0
    &&& forall|si: int, a: int, b: int|
        0 <= si < s.len() && 0 <= a < b < s[si].1@.len() ==> (#[trigger] s[si].1@[a]).path@ != (
        #[trigger] s[si].1@[b]).path@
}

/// Reloading the same status a second time changes nothing: every fold and the
/// cursor stay where the first reload left them.
pub proof fn lemma_refresh_twice(v: AppView, status: RepoStatus)
    requires
        status_distinct(status),
    ensures
        refresh_spec(refresh_spec(v, status), status) == refresh_spec(v, status),
{
    let fresh = initial_sections(status.sections@);
    let secs1 = Seq::new(fresh.len(), |si: int| carried_section(fresh[si], v.sections));
    let r1 = refresh_spec(v, status);
    assert(r1.sections == secs1);
    let secs2 = Seq::new(fresh.len(), |si: int| carried_section(fresh[si], secs1));
    assert forall|si: int| 0 <= si < fresh.len() implies #[trigger] secs2[si] == secs1[si] by {
        lemma_section_carried_again(status, v.sections, si);
    }
    assert(secs2 =~= secs1);
    let r2 = refresh_spec(r1, status);
    assert(r2.sections == secs2);
}

proof fn lemma_carried_file_shape(n: FileView, olds: Seq<FileView>)
    ensures
        carried_file(n, olds).entry == n.entry,
        carried_file(n, olds).hunk_collapsed.len() == n.hunk_collapsed.len(),
{
}

proof fn lemma_carried_section_shape(n: SectionView, olds: Seq<SectionView>)
    ensures
        carried_section(n, olds).kind == n.kind,
        carried_section(n, olds).files.len() == n.files.len(),
        forall|fi: int|
            0 <= fi < n.files.len() ==> (#[trigger] carried_section(n, olds).files[fi]).entry
                == n.files[fi].entry && carried_section(n, olds).files[fi].hunk_collapsed.len()
                == n.files[fi].hunk_collapsed.len(),
{
    match first_section_of(olds, n.kind) {
        Some(j) => {
            assert forall|fi: int| 0 <= fi < n.files.len() implies (#[trigger] carried_section(
                n,
                olds,
            ).files[fi]).entry == n.files[fi].entry && carried_section(n, olds).files[fi].hunk_collapsed.len()
                == n.files[fi].hunk_collapsed.len() by {
                lemma_carried_file_shape(n.files[fi], olds[j].files);
            }
        },
        None => {},
    }
}

proof fn lemma_section_carried_again(status: RepoStatus, old: Seq<SectionView>, si: int)
    requires
        status_distinct(status),
        0 <= si < status.sections@.len(),
    ensures
        ({
            let fresh = initial_sections(status.sections@);
            let secs1 = Seq::new(fresh.len(), |i: int| carried_section(fresh[i], old));
            carried_section(fresh[si], secs1) == secs1[si]
        }),
{
    let fresh = initial_sections(status.sections@);
    let secs1 = Seq::new(fresh.len(), |i: int| carried_section(fresh[i], old));
    let k = fresh[si].kind;
    assert forall|i: int| 0 <= i < secs1.len() implies (#[trigger] secs1[i]).kind == fresh[i].kind by {
        lemma_carried_section_shape(fresh[i], old);
    }
    assert(secs1[si].kind == k);
    assert(exists|i: int| 0 <= i < secs1.len() && secs1[i].kind == k);
    let j = first_section_of(secs1, k)->0;
    assert(secs1[j].kind == k);
    assert(j == si) by {
        if j != si {
            assert(status.sections@[j].0 == k);
            if j < si {
                assert(status.sections@[j].0 != status.sections@[si].0);
            } else {
                assert(status.sections@[si].0 != status.sections@[j].0);
            }
        }
    }
    let nf = fresh[si].files;
    let of = secs1[si].files;
    lemma_carried_section_shape(fresh[si], old);
    assert(of.len() == nf.len());
    assert forall|fi: int| 0 <= fi < nf.len() implies #[trigger] carried_file(nf[fi], of) == of[fi] by {
        lemma_file_carried_again(status, si, nf, of, fi);
    }
    assert(carried_section(fresh[si], secs1).files =~= of);
}

proof fn lemma_file_carried_again(status: RepoStatus, si: int, nf: Seq<FileView>, of: Seq<FileView>, fi: int)
    requires
        status_distinct(status),
        0 <= si < status.sections@.len(),
        nf == initial_sections(status.sections@)[si].files,
        of.len() == nf.len(),
        forall|k: int| 0 <= k < of.len() ==> (#[trigger] of[k]).entry == nf[k].entry,
        forall|k: int| 0 <= k < of.len() ==> (#[trigger] of[k]).hunk_collapsed.len() == nf[k].hunk_collapsed.len(),
        0 <= fi < nf.len(),
    ensures
        carried_file(nf[fi], of) == of[fi],
{
    let p = nf[fi].entry.path@;
    assert(of[fi].entry == nf[fi].entry);
    assert(exists|i: int| 0 <= i < of.len() && of[i].entry.path@ == p);
    let g = first_file_at(of, p)->0;
    assert(of[g].entry.path@ == p);
    assert(g == fi) by {
        if g != fi {
            assert(of[g].entry == nf[g].entry);
            assert(nf[g].entry == status.sections@[si].1@[g]);
            assert(nf[fi].entry == status.sections@[si].1@[fi]);
            if g < fi {
                assert(status.sections@[si].1@[g].path@ != status.sections@[si].1@[fi].path@);
            } else {
                assert(status.sections@[si].1@[fi].path@ != status.sections@[si].1@[g].path@);
            }
        }
    }
    assert(carried_flags(nf[fi].hunk_collapsed, of[fi].hunk_collapsed) =~= of[fi].hunk_collapsed);
}

/// Right after loading, every file is folded: no hunk or diff line shows.
pub proof fn lemma_fresh_hides_hunks(status: RepoStatus)
    requires
        initial_view(status).wf(),
    ensures
        forall|k: int|
            0 <= k < initial_view(status).visible().len() ==> !(#[trigger] initial_view(
                status,
            ).visible()[k] is Hunk) && !(initial_view(status).visible()[k] is DiffLine),
{
    let v = initial_view(status);
    let p = |x: CursorItem| !(x is Hunk) && !(x is DiffLine);
    let sf = section_blocks_fn(v.sections);
    assert forall|si: nat, k: int| si < v.sections.len() && 0 <= k < sf(si).len() implies #[trigger] p(
        #[trigger] sf(si)[k],
    ) by {
        let sec = v.sections[si as int];
        if sec.files.len() > 0 && !sec.collapsed {
            let ff = file_blocks_fn(si as usize, sec);
            assert forall|fi: nat, k2: int| fi < sec.files.len() && 0 <= k2 < ff(fi).len() implies #[trigger] p(
                #[trigger] ff(fi)[k2],
            ) by {
                assert(sec.files[fi as int].collapsed);
            }
            lemma_concat_all(ff, sec.files.len(), p);
            assert(sf(si) == seq![CursorItem::Section(si as usize)] + concat_blocks(ff, sec.files.len()));
            if k > 0 {
                assert(sf(si)[k] == concat_blocks(ff, sec.files.len())[k - 1]);
            }
        }
    }
    lemma_concat_all(sf, v.sections.len(), p);
    let a = concat_blocks(sf, v.sections.len());
    assert forall|k: int| 0 <= k < v.visible().len() implies !(#[trigger] v.visible()[k] is Hunk) && !(
    v.visible()[k] is DiffLine) by {
        if k < a.len() {
            assert(v.visible()[k] == a[k]);
            assert(p(a[k]));
        }
    }
}

/// A folded section shows only its title: no row of its files, hunks or lines.
pub proof fn lemma_folded_section_shows_title_only(v: AppView, si: usize)
    requires
        v.wf(),
        si < v.sections.len(),
        v.sections[si as int].collapsed,
    ensures
        forall|k: int|
            0 <= k < v.visible().len() && sec_key(#[trigger] v.visible()[k]) == si ==> v.visible()[k]
                == CursorItem::Section(si),
{
    let sf = section_blocks_fn(v.sections);
    let n = v.sections.len();
    let ks = |x: CursorItem| sec_key(x);
    assert forall|k: int|
        0 <= k < v.visible().len() && sec_key(#[trigger] v.visible()[k]) == si implies v.visible()[k]
        == CursorItem::Section(si) by {
        let x = v.visible()[k];
        if !(x is CommitHeader) && !(x is Commit) {
            lemma_row_in_sections(v, k);
            lemma_section_keys(v.sections);
            lemma_concat_locate(sf, n, ks, k);
            let off = k - concat_blocks(sf, si as nat).len();
            lemma_section_block_shape(si, v.sections[si as int]);
            assert(off == 0);
        }
    }
}

/// A patch of a hunk's lines with every line selected has the body of the
/// patch of the whole hunk.
pub proof fn lemma_all_lines_selected(lines: Seq<HunkLine>, selected: Seq<usize>)
    requires
        forall|i: int| 0 <= i < lines.len() ==> #[trigger] lines[i].origin == '+' || lines[i].origin == '-'
            || lines[i].origin == ' ',
        forall|i: usize| (i as int) < lines.len() ==> #[trigger] selected.contains(i),
        lines.len() <= usize::MAX,
    ensures
        partial_body(lines, selected).0 == lines_text(lines),
    decreases lines.len(),
{
    if lines.len() > 0 {
        let init = lines.drop_last();
        assert forall|i: int| 0 <= i < init.len() implies #[trigger] init[i].origin == '+' || init[i].origin
            == '-' || init[i].origin == ' ' by {
            assert(init[i] == lines[i]);
        }
        assert forall|i: usize| (i as int) < init.len() implies #[trigger] selected.contains(i) by {
            assert((i as int) < lines.len());
        }
        lemma_all_lines_selected(init, selected);
        let l = lines.last();
        assert(lines[lines.len() - 1] == l);
        let last = (lines.len() - 1) as usize;
        assert(selected.contains(last));
    }
}

/// Unstaging a hunk, or lines of it, feeds git the very patch that staging them
/// feeds it, and applies it to the index in reverse; so does discarding them
/// from the index.
pub proof fn lemma_unstage_reverses_stage(path: Seq<char>, h: Hunk, lines: Seq<usize>)
    ensures
        stage_hunk_cmd(path, h).stdin == unstage_hunk_cmd(path, h).stdin,
        stage_hunk_cmd(path, h).args == seq!["apply"@, "--cached"@, "-"@],
        unstage_hunk_cmd(path, h).args == seq!["apply"@, "--cached"@, "--reverse"@, "-"@],
        discard_hunk_cmd(path, h, true) == unstage_hunk_cmd(path, h),
        stage_lines_cmd(path, h, lines).stdin == unstage_lines_cmd(path, h, lines).stdin,
        stage_lines_cmd(path, h, lines).args == seq!["apply"@, "--cached"@, "-"@],
        unstage_lines_cmd(path, h, lines).args == seq!["apply"@, "--cached"@, "--reverse"@, "-"@],
        discard_lines_cmds(path, h, lines, true)[0] == unstage_lines_cmd(path, h, lines),
{
    assert(seq!["apply"@] + seq!["--cached"@] + Seq::<Seq<char>>::empty() + seq!["-"@] =~= seq![
        "apply"@,
        "--cached"@,
        "-"@,
    ]);
    assert(seq!["apply"@] + seq!["--cached"@] + seq!["--reverse"@] + seq!["-"@] =~= seq![
        "apply"@,
        "--cached"@,
        "--reverse"@,
        "-"@,
    ]);
}

/// The status lists staged files before unstaged ones, and untracked ones first.
pub proof fn lemma_section_order(untracked: Vec<FileEntry>, staged: Vec<FileEntry>, unstaged: Vec<FileEntry>)
    ensures
        ({
            let s = status_sections(untracked, staged, unstaged);
            forall|i: int, j: int|
                0 <= i < j < s.len() ==> (#[trigger] s[i]).0 == SectionKind::Untracked || (
                s[i].0 == SectionKind::Staged && (#[trigger] s[j]).0 == SectionKind::Unstaged)
        }),
{
}

/// In an open menu, `-` and then a key flip the switch bound to that key and
/// nothing else; the menu then waits for actions again.
pub proof fn lemma_dash_then_key_flips_switch(v: AppView, c: char)
    requires
        v.confirm is None,
        !v.show_help,
        v.transient matches Some(t) && !t.awaiting_flag,
    ensures
        ({
            let t = v.transient->0;
            let (v1, a1) = handle_spec(v, KeyInput { code: KeyCode::Char('-'), control: false });
            let (v2, a2) = handle_spec(v1, KeyInput { code: KeyCode::Char(c), control: false });
            &&& a1 == KeyAction::Continue
            &&& a2 == KeyAction::Continue
            &&& v2.transient == Some(
                TransientView {
                    active_flags: toggled(flag_table(t.kind), t.active_flags, c),
                    awaiting_flag: false,
                    ..t
                },
            )
        }),
{
}

/// A pending question is answered by the very next key: `y` runs it, any other
/// key drops it; either way nothing else changes but the message.
pub proof fn lemma_question_takes_next_key(v: AppView, key: KeyInput)
    requires
        v.confirm is Some,
    ensures
        ({
            let (v1, a) = handle_spec(v, key);
            if key.code == KeyCode::Char('y') {
                a == KeyAction::ConfirmYes && v1 == AppView { message: None, ..v }
            } else {
                a == KeyAction::Continue && v1 == AppView { message: None, confirm: None, ..v }
            }
        }),
{
}

} // verus!
