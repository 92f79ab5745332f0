use vstd::prelude::*;

use crate::app::{
    commit_block, lemma_visible_valid, toggle_spec, AppView, concat_blocks, file_block, file_blocks_fn, hunk_block, hunk_blocks_fn, lemma_concat_all,
    section_block, section_blocks_fn, sections_wf, CursorItem, FileView, SectionView,
};

verus! {

/// The section a row belongs to (-1 for commit rows).
pub open spec fn sec_key(x: CursorItem) -> int {
    match x {
        CursorItem::Section(si) => si as int,
        CursorItem::File(si, _) => si as int,
        CursorItem::Hunk(si, _, _) => si as int,
        CursorItem::DiffLine(si, _, _, _) => si as int,
        _ => -1,
    }
}

/// The file a row belongs to (-1 for section and commit rows).
pub open spec fn file_key(x: CursorItem) -> int {
    match x {
        CursorItem::File(_, fi) => fi as int,
        CursorItem::Hunk(_, fi, _) => fi as int,
        CursorItem::DiffLine(_, fi, _, _) => fi as int,
        _ => -1,
    }
}

/// The hunk a row belongs to (-1 for rows above hunks).
pub open spec fn hunk_key(x: CursorItem) -> int {
    match x {
        CursorItem::Hunk(_, _, hi) => hi as int,
        CursorItem::DiffLine(_, _, hi, _) => hi as int,
        _ => -1,
    }
}

pub proof fn lemma_concat_prefix(f: spec_fn(nat) -> Seq<CursorItem>, n: nat, m: nat)
    requires
        n <= m,
    ensures
        concat_blocks(f, n).len() <= concat_blocks(f, m).len(),
        forall|k: int|
            0 <= k < concat_blocks(f, n).len() ==> concat_blocks(f, m)[k] == concat_blocks(f, n)[k],
    decreases m,
{
    if m > n {
        lemma_concat_prefix(f, n, (m - 1) as nat);
    }
}

pub proof fn lemma_concat_block_at(f: spec_fn(nat) -> Seq<CursorItem>, n: nat, j: nat, k: int)
    requires
        j < n,
        0 <= k < f(j).len(),
    ensures
        concat_blocks(f, j).len() + k < concat_blocks(f, n).len(),
        concat_blocks(f, n)[concat_blocks(f, j).len() + k] == f(j)[k],
{
    lemma_concat_prefix(f, j + 1, n);
    assert(concat_blocks(f, j + 1) == concat_blocks(f, j) + f(j));
}

pub proof fn lemma_concat_congruent(f: spec_fn(nat) -> Seq<CursorItem>, g: spec_fn(nat) -> Seq<CursorItem>, n: nat)
    requires
        forall|i: nat| i < n ==> #[trigger] f(i) == g(i),
    ensures
        concat_blocks(f, n) == concat_blocks(g, n),
    decreases n,
{
    if n > 0 {
        lemma_concat_congruent(f, g, (n - 1) as nat);
        assert(f((n - 1) as nat) == g((n - 1) as nat));
    }
}

pub proof fn lemma_concat_locate(
    f: spec_fn(nat) -> Seq<CursorItem>,
    n: nat,
    key: spec_fn(CursorItem) -> int,
    c: int,
)
    requires
        forall|i: nat, k: int| i < n && 0 <= k < f(i).len() ==> #[trigger] key(#[trigger] f(i)[k]) == i,
        0 <= c < concat_blocks(f, n).len(),
    ensures
        ({
            let j = key(concat_blocks(f, n)[c]);
            &&& 0 <= j < n
            &&& concat_blocks(f, j as nat).len() <= c < concat_blocks(f, j as nat).len() + f(
                j as nat,
            ).len()
            &&& concat_blocks(f, n)[c] == f(j as nat)[c - concat_blocks(f, j as nat).len()]
        }),
    decreases n,
{
    let a = concat_blocks(f, (n - 1) as nat);
    if c < a.len() {
        lemma_concat_locate(f, (n - 1) as nat, key, c);
        assert(concat_blocks(f, n)[c] == a[c]);
    } else {
        let k = c - a.len();
        assert(concat_blocks(f, n)[c] == f((n - 1) as nat)[k]);
        assert(key(f((n - 1) as nat)[k]) == n - 1);
    }
}

pub proof fn lemma_hunk_block_shape(si: usize, fi: usize, hi: usize, file: FileView)
    ensures
        hunk_block(si, fi, hi, file).len() >= 1,
        hunk_block(si, fi, hi, file)[0] == CursorItem::Hunk(si, fi, hi),
        forall|k: int|
            0 <= k < hunk_block(si, fi, hi, file).len() ==> {
                let x = #[trigger] hunk_block(si, fi, hi, file)[k];
                &&& sec_key(x) == si
                &&& file_key(x) == fi
                &&& hunk_key(x) == hi
                &&& k > 0 ==> x is DiffLine
            },
{
}

pub proof fn lemma_file_block_shape(si: usize, fi: usize, file: FileView)
    requires
        file.wf(),
    ensures
        file_block(si, fi, file).len() >= 1,
        file_block(si, fi, file)[0] == CursorItem::File(si, fi),
        forall|k: int|
            0 <= k < file_block(si, fi, file).len() ==> {
                let x = #[trigger] file_block(si, fi, file)[k];
                &&& sec_key(x) == si
                &&& file_key(x) == fi
                &&& k > 0 ==> (x is Hunk || x is DiffLine)
            },
{
    let hf = hunk_blocks_fn(si, fi, file);
    let n = file.entry.hunks@.len();
    let p = |x: CursorItem| sec_key(x) == si && file_key(x) == fi && (x is Hunk || x is DiffLine);
    assert forall|i: nat, k: int| i < n && 0 <= k < hf(i).len() implies #[trigger] p(
        #[trigger] hf(i)[k],
    ) by {
        lemma_hunk_block_shape(si, fi, i as usize, file);
    }
    lemma_concat_all(hf, n, p);
    assert forall|k: int| 0 <= k < file_block(si, fi, file).len() implies {
        let x = #[trigger] file_block(si, fi, file)[k];
        &&& sec_key(x) == si
        &&& file_key(x) == fi
        &&& k > 0 ==> (x is Hunk || x is DiffLine)
    } by {
        if k > 0 {
            assert(file_block(si, fi, file)[k] == concat_blocks(hf, n)[k - 1]);
            assert(p(concat_blocks(hf, n)[k - 1]));
        }
    }
}

pub proof fn lemma_section_block_shape(si: usize, sec: SectionView)
    requires
        sec.wf(),
    ensures
        sec.files.len() > 0 ==> section_block(si, sec)[0] == CursorItem::Section(si),
        forall|k: int|
            0 <= k < section_block(si, sec).len() ==> {
                let x = #[trigger] section_block(si, sec)[k];
                &&& sec_key(x) == si
                &&& k > 0 ==> (x is File || x is Hunk || x is DiffLine)
            },
{
    if sec.files.len() > 0 {
        let ff = file_blocks_fn(si, sec);
        let n = sec.files.len();
        let p = |x: CursorItem| sec_key(x) == si && (x is File || x is Hunk || x is DiffLine);
        assert forall|i: nat, k: int| i < n && 0 <= k < ff(i).len() implies #[trigger] p(
            #[trigger] ff(i)[k],
        ) by {
            lemma_file_block_shape(si, i as usize, sec.files[i as int]);
        }
        lemma_concat_all(ff, n, p);
        assert forall|k: int| 0 <= k < section_block(si, sec).len() implies {
            let x = #[trigger] section_block(si, sec)[k];
            &&& sec_key(x) == si
            &&& k > 0 ==> (x is File || x is Hunk || x is DiffLine)
        } by {
            if k > 0 {
                assert(section_block(si, sec)[k] == concat_blocks(ff, n)[k - 1]);
                assert(p(concat_blocks(ff, n)[k - 1]));
            }
        }
    }
}

/// The key of every row of the `i`-th section block is `i`.
pub proof fn lemma_section_keys(sections: Seq<SectionView>)
    requires
        sections_wf(sections),
    ensures
        forall|i: nat, k: int|
            i < sections.len() && 0 <= k < section_blocks_fn(sections)(i).len() ==> #[trigger] sec_key(
                #[trigger] section_blocks_fn(sections)(i)[k],
            ) == i,
{
    assert forall|i: nat, k: int|
        i < sections.len() && 0 <= k < section_blocks_fn(sections)(i).len() implies #[trigger] sec_key(
        #[trigger] section_blocks_fn(sections)(i)[k],
    ) == i by {
        lemma_section_block_shape(i as usize, sections[i as int]);
    }
}

/// The key of every row of the `i`-th file block of a section is `i`.
pub proof fn lemma_file_keys(si: usize, sec: SectionView)
    requires
        sec.wf(),
    ensures
        forall|i: nat, k: int|
            i < sec.files.len() && 0 <= k < file_blocks_fn(si, sec)(i).len() ==> #[trigger] file_key(
                #[trigger] file_blocks_fn(si, sec)(i)[k],
            ) == i,
{
    assert forall|i: nat, k: int|
        i < sec.files.len() && 0 <= k < file_blocks_fn(si, sec)(i).len() implies #[trigger] file_key(
        #[trigger] file_blocks_fn(si, sec)(i)[k],
    ) == i by {
        lemma_file_block_shape(si, i as usize, sec.files[i as int]);
    }
}

/// The key of every row of the `i`-th hunk block of a file is `i`.
pub proof fn lemma_hunk_keys(si: usize, fi: usize, file: FileView)
    requires
        file.wf(),
    ensures
        forall|i: nat, k: int|
            i < file.entry.hunks@.len() && 0 <= k < hunk_blocks_fn(si, fi, file)(i).len() ==> #[trigger] hunk_key(
                #[trigger] hunk_blocks_fn(si, fi, file)(i)[k],
            ) == i,
{
    assert forall|i: nat, k: int|
        i < file.entry.hunks@.len() && 0 <= k < hunk_blocks_fn(si, fi, file)(i).len() implies #[trigger] hunk_key(
        #[trigger] hunk_blocks_fn(si, fi, file)(i)[k],
    ) == i by {
        assert(file.entry.hunks.len() == file.entry.hunks@.len());
        lemma_hunk_block_shape(si, fi, i as usize, file);
    }
}

/// A row of the buffer that is not a commit row lies in the sections' part.
pub proof fn lemma_row_in_sections(v: AppView, c: int)
    requires
        v.wf(),
        0 <= c < v.visible().len(),
        !(v.visible()[c] is CommitHeader),
        !(v.visible()[c] is Commit),
    ensures
        c < concat_blocks(section_blocks_fn(v.sections), v.sections.len()).len(),
        v.visible()[c] == concat_blocks(section_blocks_fn(v.sections), v.sections.len())[c],
{
    let a = concat_blocks(section_blocks_fn(v.sections), v.sections.len());
    if c >= a.len() {
        assert(v.visible()[c] == commit_block(v.commits.len(), v.commits_collapsed)[c - a.len()]);
    }
}

proof fn lemma_toggle_keeps_section(v: AppView, si: usize)
    requires
        v.wf(),
        v.current() == Some(CursorItem::Section(si)),
    ensures
        toggle_spec(v).current() == v.current(),
{
    let v2 = toggle_spec(v);
    let c = v.cursor as int;
    let sf = section_blocks_fn(v.sections);
    let sf2 = section_blocks_fn(v2.sections);
    let n = v.sections.len();
    let ks = |x: CursorItem| sec_key(x);
    let kf = |x: CursorItem| file_key(x);
    let kh = |x: CursorItem| hunk_key(x);

            lemma_row_in_sections(v, c);
            lemma_section_keys(v.sections);
            lemma_concat_locate(sf, n, ks, c);
            let off = c - concat_blocks(sf, si as nat).len();
            lemma_section_block_shape(si, v.sections[si as int]);
            assert(off == 0);
            assert forall|i: nat| i < si implies #[trigger] sf(i) == sf2(i) by {}
            lemma_concat_congruent(sf, sf2, si as nat);
            lemma_section_block_shape(si, v2.sections[si as int]);
            lemma_concat_block_at(sf2, n, si as nat, 0);
            assert(v2.visible()[c] == concat_blocks(sf2, n)[c]);
        }

proof fn lemma_toggle_keeps_file(v: AppView, si: usize, fi: usize)
    requires
        v.wf(),
        v.current() == Some(CursorItem::File(si, fi)),
    ensures
        toggle_spec(v).current() == v.current(),
{
    let v2 = toggle_spec(v);
    let c = v.cursor as int;
    let sf = section_blocks_fn(v.sections);
    let sf2 = section_blocks_fn(v2.sections);
    let n = v.sections.len();
    let ks = |x: CursorItem| sec_key(x);
    let kf = |x: CursorItem| file_key(x);
    let kh = |x: CursorItem| hunk_key(x);

            lemma_row_in_sections(v, c);
            lemma_section_keys(v.sections);
            lemma_concat_locate(sf, n, ks, c);
            let sec = v.sections[si as int];
            let sec2 = v2.sections[si as int];
            let off = c - concat_blocks(sf, si as nat).len();
            lemma_section_block_shape(si, sec);
            assert(off > 0);
            assert(!sec.collapsed);
            let ff = file_blocks_fn(si, sec);
            let ff2 = file_blocks_fn(si, sec2);
            let nf = sec.files.len();
            assert(section_block(si, sec)[off] == concat_blocks(ff, nf)[off - 1]);
            lemma_file_keys(si, sec);
            lemma_concat_locate(ff, nf, kf, off - 1);
            let off2 = off - 1 - concat_blocks(ff, fi as nat).len();
            lemma_file_block_shape(si, fi, sec.files[fi as int]);
            assert(off2 == 0);
            assert forall|i: nat| i < fi implies #[trigger] ff(i) == ff2(i) by {}
            lemma_concat_congruent(ff, ff2, fi as nat);
            assert(sec2.wf());
            lemma_file_block_shape(si, fi, sec2.files[fi as int]);
            lemma_concat_block_at(ff2, nf, fi as nat, 0);
            assert(section_block(si, sec2)[off] == concat_blocks(ff2, nf)[off - 1]);
            assert forall|i: nat| i < si implies #[trigger] sf(i) == sf2(i) by {}
            lemma_concat_congruent(sf, sf2, si as nat);
            lemma_concat_block_at(sf2, n, si as nat, off);
            assert(v2.visible()[c] == concat_blocks(sf2, n)[c]);
        }

proof fn lemma_toggle_keeps_hunk(v: AppView, si: usize, fi: usize, hi: usize)
    requires
        v.wf(),
        v.current() == Some(CursorItem::Hunk(si, fi, hi)),
    ensures
        toggle_spec(v).current() == v.current(),
{
    let v2 = toggle_spec(v);
    let c = v.cursor as int;
    let sf = section_blocks_fn(v.sections);
    let sf2 = section_blocks_fn(v2.sections);
    let n = v.sections.len();
    let ks = |x: CursorItem| sec_key(x);
    let kf = |x: CursorItem| file_key(x);
    let kh = |x: CursorItem| hunk_key(x);

            lemma_row_in_sections(v, c);
            lemma_section_keys(v.sections);
            lemma_concat_locate(sf, n, ks, c);
            let sec = v.sections[si as int];
            let sec2 = v2.sections[si as int];
            let off = c - concat_blocks(sf, si as nat).len();
            lemma_section_block_shape(si, sec);
            assert(off > 0);
            assert(!sec.collapsed);
            let ff = file_blocks_fn(si, sec);
            let ff2 = file_blocks_fn(si, sec2);
            let nf = sec.files.len();
            assert(section_block(si, sec)[off] == concat_blocks(ff, nf)[off - 1]);
            lemma_file_keys(si, sec);
            lemma_concat_locate(ff, nf, kf, off - 1);
            let file = sec.files[fi as int];
            let file2 = sec2.files[fi as int];
            let off2 = off - 1 - concat_blocks(ff, fi as nat).len();
            lemma_file_block_shape(si, fi, file);
            assert(off2 > 0);
            assert(!file.collapsed);
            let hf = hunk_blocks_fn(si, fi, file);
            let hf2 = hunk_blocks_fn(si, fi, file2);
            let nh = file.entry.hunks@.len();
            assert(file_block(si, fi, file)[off2] == concat_blocks(hf, nh)[off2 - 1]);
            lemma_hunk_keys(si, fi, file);
            lemma_concat_locate(hf, nh, kh, off2 - 1);
            let off3 = off2 - 1 - concat_blocks(hf, hi as nat).len();
            lemma_hunk_block_shape(si, fi, hi, file);
            assert(off3 == 0);
            assert forall|i: nat| i < hi implies #[trigger] hf(i) == hf2(i) by {}
            lemma_concat_congruent(hf, hf2, hi as nat);
            lemma_hunk_block_shape(si, fi, hi, file2);
            lemma_concat_block_at(hf2, nh, hi as nat, 0);
            assert(file_block(si, fi, file2)[off2] == concat_blocks(hf2, nh)[off2 - 1]);
            assert forall|i: nat| i < fi implies #[trigger] ff(i) == ff2(i) by {}
            lemma_concat_congruent(ff, ff2, fi as nat);
            assert(sec2.wf());
            lemma_file_block_shape(si, fi, file2);
            lemma_concat_block_at(ff2, nf, fi as nat, off2);
            assert(section_block(si, sec2)[off] == concat_blocks(ff2, nf)[off - 1]);
            assert forall|i: nat| i < si implies #[trigger] sf(i) == sf2(i) by {}
            lemma_concat_congruent(sf, sf2, si as nat);
            lemma_concat_block_at(sf2, n, si as nat, off);
            assert(v2.visible()[c] == concat_blocks(sf2, n)[c]);
        }

proof fn lemma_toggle_keeps_commitheader(v: AppView)
    requires
        v.wf(),
        v.current() == Some(CursorItem::CommitHeader),
    ensures
        toggle_spec(v).current() == v.current(),
{
    let v2 = toggle_spec(v);
    let c = v.cursor as int;
    let sf = section_blocks_fn(v.sections);
    let sf2 = section_blocks_fn(v2.sections);
    let n = v.sections.len();
    let ks = |x: CursorItem| sec_key(x);
    let kf = |x: CursorItem| file_key(x);
    let kh = |x: CursorItem| hunk_key(x);

            let a = concat_blocks(sf, n);
            if c < a.len() {
                lemma_section_keys(v.sections);
                lemma_concat_locate(sf, n, ks, c);
                assert(v.visible()[c] == a[c]);
            }
            let cb = commit_block(v.commits.len(), v.commits_collapsed);
            assert(v.visible()[c] == cb[c - a.len()]);
            assert(c - a.len() == 0);
            assert(v2.visible()[c] == commit_block(v.commits.len(), !v.commits_collapsed)[0]);
        }

/// Folding or unfolding the row under the cursor leaves the cursor on that row.
pub proof fn lemma_toggle_keeps_current(v: AppView)
    requires
        v.wf(),
    ensures
        toggle_spec(v).current() == v.current(),
{
    match v.current() {
        Some(CursorItem::Section(si)) => lemma_toggle_keeps_section(v, si),
        Some(CursorItem::File(si, fi)) => lemma_toggle_keeps_file(v, si, fi),
        Some(CursorItem::Hunk(si, fi, hi)) => lemma_toggle_keeps_hunk(v, si, fi, hi),
        Some(CursorItem::CommitHeader) => lemma_toggle_keeps_commitheader(v),
        _ => {},
    }
}

/// Toggling the fold of the row under the cursor twice changes nothing.
pub proof fn lemma_toggle_twice(v: AppView)
    requires
        v.wf(),
    ensures
        toggle_spec(toggle_spec(v)) == v,
{
    lemma_toggle_keeps_current(v);
    lemma_visible_valid(v);
    let v2 = toggle_spec(v);
    match v.current() {
        Some(CursorItem::Section(si)) => {
            assert(toggle_spec(v2).sections =~= v.sections);
        },
        Some(CursorItem::File(si, fi)) => {
            assert(toggle_spec(v2).sections[si as int].files =~= v.sections[si as int].files);
            assert(toggle_spec(v2).sections =~= v.sections);
        },
        Some(CursorItem::Hunk(si, fi, hi)) => {
            assert(toggle_spec(v2).sections[si as int].files[fi as int].hunk_collapsed
                =~= v.sections[si as int].files[fi as int].hunk_collapsed);
            assert(toggle_spec(v2).sections[si as int].files =~= v.sections[si as int].files);
            assert(toggle_spec(v2).sections =~= v.sections);
        },
        _ => {},
    }
}

} // verus!
