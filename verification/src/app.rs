use vstd::prelude::*;

use crate::git::repo::{CommitInfo, FileEntry, RepoStatus, SectionKind};
use crate::transient::{all_off, all_off_vec, flag_table, Transient, TransientView};

verus! {

/// What a pending confirmation prompt will do when answered with `y`.
pub enum ConfirmKind {
    Discard,
    Trash,
    DiscardHunk,
    DiscardBatch(Vec<CursorItem>),
}

/// A question shown in the footer, and what it is about.
pub struct Confirm {
    pub kind: ConfirmKind,
    pub section: usize,
    pub file: usize,
    pub hunk: Option<usize>,
    pub prompt: String,
}

/// The state of the status buffer.
pub struct App {
    pub branch: String,
    pub sections: Vec<Section>,
    pub commits: Vec<CommitInfo>,
    pub commits_collapsed: bool,
    pub cursor: usize,
    pub visual_anchor: Option<usize>,
    pub transient: Option<Transient>,
    pub confirm: Option<Confirm>,
    pub message: Option<String>,
    pub show_help: bool,
}

/// A group of files of one kind, folded or unfolded.
pub struct Section {
    pub kind: SectionKind,
    pub collapsed: bool,
    pub files: Vec<FileNode>,
}

/// A file of a section; `hunk_collapsed[i]` folds its `i`-th hunk.
pub struct FileNode {
    pub entry: FileEntry,
    pub collapsed: bool,
    pub hunk_collapsed: Vec<bool>,
}

/// A row the cursor can stand on.
#[derive(Debug, Clone, Copy, PartialEq, Eq, Structural)]
pub enum CursorItem {
    Section(usize),
    File(usize, usize),
    Hunk(usize, usize, usize),
    DiffLine(usize, usize, usize, usize),
    CommitHeader,
    Commit(usize),
}

/// What a file row holds of the fold state: the entry, whether the file is
/// folded, and which of its hunks are folded.
pub struct FileView {
    pub entry: FileEntry,
    pub collapsed: bool,
    pub hunk_collapsed: Seq<bool>,
}

/// A section as the fold state sees it.
pub struct SectionView {
    pub kind: SectionKind,
    pub collapsed: bool,
    pub files: Seq<FileView>,
}

/// The whole state of the buffer, with the sections taken by their views.
pub struct AppView {
    pub branch: Seq<char>,
    pub sections: Seq<SectionView>,
    pub commits: Seq<CommitInfo>,
    pub commits_collapsed: bool,
    pub cursor: usize,
    pub visual_anchor: Option<usize>,
    pub transient: Option<TransientView>,
    pub confirm: Option<ConfirmView>,
    pub message: Option<Seq<char>>,
    pub show_help: bool,
}

pub enum ConfirmKindView {
    Discard,
    Trash,
    DiscardHunk,
    DiscardBatch(Seq<CursorItem>),
}

pub struct ConfirmView {
    pub kind: ConfirmKindView,
    pub section: usize,
    pub file: usize,
    pub hunk: Option<usize>,
    pub prompt: Seq<char>,
}

impl View for ConfirmKind {
    type V = ConfirmKindView;

    open spec fn view(&self) -> ConfirmKindView {
        match self {
            ConfirmKind::Discard => ConfirmKindView::Discard,
            ConfirmKind::Trash => ConfirmKindView::Trash,
            ConfirmKind::DiscardHunk => ConfirmKindView::DiscardHunk,
            ConfirmKind::DiscardBatch(items) => ConfirmKindView::DiscardBatch(items@),
        }
    }
}

impl View for Confirm {
    type V = ConfirmView;

    open spec fn view(&self) -> ConfirmView {
        ConfirmView {
            kind: self.kind@,
            section: self.section,
            file: self.file,
            hunk: self.hunk,
            prompt: self.prompt@,
        }
    }
}

impl View for FileNode {
    type V = FileView;

    open spec fn view(&self) -> FileView {
        FileView { entry: self.entry, collapsed: self.collapsed, hunk_collapsed: self.hunk_collapsed@ }
    }
}

impl View for Section {
    type V = SectionView;

    open spec fn view(&self) -> SectionView {
        SectionView {
            kind: self.kind,
            collapsed: self.collapsed,
            files: self.files@.map_values(|f: FileNode| f@),
        }
    }
}

/// The views of a list of sections.
pub open spec fn sections_view(sections: Seq<Section>) -> Seq<SectionView> {
    sections.map_values(|s: Section| s@)
}

impl View for App {
    type V = AppView;

    open spec fn view(&self) -> AppView {
        AppView {
            branch: self.branch@,
            sections: sections_view(self.sections@),
            commits: self.commits@,
            commits_collapsed: self.commits_collapsed,
            cursor: self.cursor,
            visual_anchor: self.visual_anchor,
            transient: match self.transient {
                Some(t) => Some(t@),
                None => None,
            },
            confirm: match self.confirm {
                Some(c) => Some(c@),
                None => None,
            },
            message: match self.message {
                Some(m) => Some(m@),
                None => None,
            },
            show_help: self.show_help,
        }
    }
}

/// `f(0) + f(1) + ... + f(n - 1)`.
pub open spec fn concat_blocks(f: spec_fn(nat) -> Seq<CursorItem>, n: nat) -> Seq<CursorItem>
    decreases n,
{
    if n == 0 {
        Seq::empty()
    } else {
        concat_blocks(f, (n - 1) as nat) + f((n - 1) as nat)
    }
}

/// The rows of the lines of a hunk.
pub open spec fn diff_line_items(si: usize, fi: usize, hi: usize, n: nat) -> Seq<CursorItem> {
    Seq::new(n, |li: int| CursorItem::DiffLine(si, fi, hi, li as usize))
}

/// The rows of a hunk: its header, then its lines unless it is folded.
pub open spec fn hunk_block(si: usize, fi: usize, hi: usize, file: FileView) -> Seq<CursorItem> {
    seq![CursorItem::Hunk(si, fi, hi)] + if file.hunk_collapsed[hi as int] {
        Seq::empty()
    } else {
        diff_line_items(si, fi, hi, file.entry.hunks@[hi as int].lines@.len())
    }
}

pub open spec fn hunk_blocks_fn(si: usize, fi: usize, file: FileView) -> spec_fn(nat) -> Seq<CursorItem> {
    |hi: nat| hunk_block(si, fi, hi as usize, file)
}

/// The rows of a file: its name, then its hunks unless it is folded.
pub open spec fn file_block(si: usize, fi: usize, file: FileView) -> Seq<CursorItem> {
    seq![CursorItem::File(si, fi)] + if file.collapsed {
        Seq::empty()
    } else {
        concat_blocks(hunk_blocks_fn(si, fi, file), file.entry.hunks@.len())
    }
}

pub open spec fn file_blocks_fn(si: usize, sec: SectionView) -> spec_fn(nat) -> Seq<CursorItem> {
    |fi: nat| file_block(si, fi as usize, sec.files[fi as int])
}

/// The rows of a section: none when it has no files, else its title, then its
/// files unless it is folded.
pub open spec fn section_block(si: usize, sec: SectionView) -> Seq<CursorItem> {
    if sec.files.len() == 0 {
        Seq::empty()
    } else {
        seq![CursorItem::Section(si)] + if sec.collapsed {
            Seq::empty()
        } else {
            concat_blocks(file_blocks_fn(si, sec), sec.files.len())
        }
    }
}

pub open spec fn section_blocks_fn(sections: Seq<SectionView>) -> spec_fn(nat) -> Seq<CursorItem> {
    |si: nat| section_block(si as usize, sections[si as int])
}

/// The rows of the commit list: none without commits, else its title, then
/// one row per commit unless it is folded.
pub open spec fn commit_block(n: nat, collapsed: bool) -> Seq<CursorItem> {
    if n == 0 {
        Seq::empty()
    } else {
        seq![CursorItem::CommitHeader] + if collapsed {
            Seq::empty()
        } else {
            Seq::new(n, |i: int| CursorItem::Commit(i as usize))
        }
    }
}

/// Every row of the buffer, top to bottom.
pub open spec fn visible_of(sections: Seq<SectionView>, n_commits: nat, commits_collapsed: bool) -> Seq<
    CursorItem,
> {
    concat_blocks(section_blocks_fn(sections), sections.len()) + commit_block(
        n_commits,
        commits_collapsed,
    )
}

impl FileView {
    /// A fold flag for each hunk; flags past the last hunk are never read.
    pub open spec fn wf(&self) -> bool {
        self.hunk_collapsed.len() >= self.entry.hunks@.len()
    }
}

impl SectionView {
    pub open spec fn wf(&self) -> bool {
        &&& self.files.len() <= usize::MAX
        &&& forall|fi: int| 0 <= fi < self.files.len() ==> (#[trigger] self.files[fi]).wf()
    }
}

/// Every file of every section has a fold flag for each of its hunks.
pub open spec fn sections_wf(sections: Seq<SectionView>) -> bool {
    &&& sections.len() <= usize::MAX
    &&& forall|si: int| 0 <= si < sections.len() ==> (#[trigger] sections[si]).wf()
}

impl AppView {
    /// Each file has a fold flag for each of its hunks, and an open menu one flag per switch.
    pub open spec fn wf(&self) -> bool {
        &&& sections_wf(self.sections)
        &&& match self.transient {
            Some(t) => t.active_flags.len() == flag_table(t.kind).len(),
            None => true,
        }
    }

    /// The rows of the buffer.
    pub open spec fn visible(&self) -> Seq<CursorItem> {
        visible_of(self.sections, self.commits.len(), self.commits_collapsed)
    }

    /// The row under the cursor, if the cursor is on a row.
    pub open spec fn current(&self) -> Option<CursorItem> {
        if self.cursor < self.visible().len() {
            Some(self.visible()[self.cursor as int])
        } else {
            None
        }
    }
}

/// Whether a row names things that exist in the buffer.
pub open spec fn item_valid(v: AppView, x: CursorItem) -> bool {
    match x {
        CursorItem::Section(si) => si < v.sections.len() && v.sections[si as int].files.len() > 0,
        CursorItem::File(si, fi) => si < v.sections.len() && fi < v.sections[si as int].files.len(),
        CursorItem::Hunk(si, fi, hi) => si < v.sections.len() && fi < v.sections[si as int].files.len()
            && hi < v.sections[si as int].files[fi as int].entry.hunks@.len(),
        CursorItem::DiffLine(si, fi, hi, li) => si < v.sections.len() && fi < v.sections[
            si as int
        ].files.len() && hi < v.sections[si as int].files[fi as int].entry.hunks@.len() && li
            < v.sections[si as int].files[fi as int].entry.hunks@[hi as int].lines@.len(),
        CursorItem::CommitHeader => v.commits.len() > 0,
        CursorItem::Commit(i) => i < v.commits.len(),
    }
}

/// The cursor one row up, unless it is on the first row.
pub open spec fn move_up_spec(v: AppView) -> AppView {
    AppView { cursor: if v.cursor > 0 { (v.cursor - 1) as usize } else { v.cursor }, ..v }
}

/// The cursor one row down, unless it is on the last row.
pub open spec fn move_down_spec(v: AppView) -> AppView {
    AppView {
        cursor: if v.cursor + 1 < v.visible().len() {
            (v.cursor + 1) as usize
        } else {
            v.cursor
        },
        ..v
    }
}

/// Flips the fold state of the row under the cursor, when that row can fold.
pub open spec fn toggle_spec(v: AppView) -> AppView {
    match v.current() {
        Some(CursorItem::Section(si)) => {
            let sec = v.sections[si as int];
            AppView {
                sections: v.sections.update(si as int, SectionView { collapsed: !sec.collapsed, ..sec }),
                ..v
            }
        },
        Some(CursorItem::File(si, fi)) => {
            let sec = v.sections[si as int];
            let f = sec.files[fi as int];
            AppView {
                sections: v.sections.update(
                    si as int,
                    SectionView {
                        files: sec.files.update(fi as int, FileView { collapsed: !f.collapsed, ..f }),
                        ..sec
                    },
                ),
                ..v
            }
        },
        Some(CursorItem::Hunk(si, fi, hi)) => {
            let sec = v.sections[si as int];
            let f = sec.files[fi as int];
            AppView {
                sections: v.sections.update(
                    si as int,
                    SectionView {
                        files: sec.files.update(
                            fi as int,
                            FileView {
                                hunk_collapsed: f.hunk_collapsed.update(
                                    hi as int,
                                    !f.hunk_collapsed[hi as int],
                                ),
                                ..f
                            },
                        ),
                        ..sec
                    },
                ),
                ..v
            }
        },
        Some(CursorItem::CommitHeader) => AppView { commits_collapsed: !v.commits_collapsed, ..v },
        _ => v,
    }
}

/// If every block holds only rows with property `p`, so does their concatenation.
pub proof fn lemma_concat_all(f: spec_fn(nat) -> Seq<CursorItem>, n: nat, p: spec_fn(CursorItem) -> bool)
    requires
        forall|i: nat, k: int| i < n && 0 <= k < f(i).len() ==> #[trigger] p(#[trigger] f(i)[k]),
    ensures
        forall|k: int| 0 <= k < concat_blocks(f, n).len() ==> #[trigger] p(concat_blocks(f, n)[k]),
    decreases n,
{
    if n > 0 {
        lemma_concat_all(f, (n - 1) as nat, p);
        let a = concat_blocks(f, (n - 1) as nat);
        let b = f((n - 1) as nat);
        assert forall|k: int| 0 <= k < concat_blocks(f, n).len() implies #[trigger] p(
            concat_blocks(f, n)[k],
        ) by {
            if k < a.len() {
                assert(concat_blocks(f, n)[k] == a[k]);
            } else {
                assert(concat_blocks(f, n)[k] == b[k - a.len()]);
            }
        }
    }
}

/// Every row of the buffer names things that exist.
pub proof fn lemma_visible_valid(v: AppView)
    requires
        v.wf(),
    ensures
        forall|k: int| 0 <= k < v.visible().len() ==> item_valid(v, #[trigger] v.visible()[k]),
{
    let p = |x: CursorItem| item_valid(v, x);
    let sf = section_blocks_fn(v.sections);
    assert forall|si: nat, k: int| si < v.sections.len() && 0 <= k < sf(si).len() implies #[trigger] p(
        #[trigger] sf(si)[k],
    ) by {
        let sec = v.sections[si as int];
        let ff = file_blocks_fn(si as usize, sec);
        assert forall|fi: nat, k2: int| fi < sec.files.len() && 0 <= k2 < ff(fi).len() implies #[trigger] p(
            #[trigger] ff(fi)[k2],
        ) by {
            let file = sec.files[fi as int];
            let hf = hunk_blocks_fn(si as usize, fi as usize, file);
            assert forall|hi: nat, k3: int| hi < file.entry.hunks@.len() && 0 <= k3 < hf(hi).len() implies #[trigger] p(
                #[trigger] hf(hi)[k3],
            ) by {
                assert(sec.wf());
                assert(file.wf());
                let h = file.entry.hunks@[hi as int];
                assert(h.lines.len() == h.lines@.len());
                assert(file.entry.hunks.len() == file.entry.hunks@.len());
            }
            lemma_concat_all(hf, file.entry.hunks@.len(), p);
        }
        lemma_concat_all(ff, sec.files.len(), p);
    }
    lemma_concat_all(sf, v.sections.len(), p);
    let a = concat_blocks(sf, v.sections.len());
    assert forall|k: int| 0 <= k < v.visible().len() implies item_valid(v, #[trigger] v.visible()[k]) by {
        if k < a.len() {
            assert(v.visible()[k] == a[k]);
            assert(p(a[k]));
        }
    }
}

/// A freshly loaded file: folded, with every hunk unfolded.
pub open spec fn initial_file(entry: FileEntry) -> FileView {
    FileView { entry, collapsed: true, hunk_collapsed: all_off(entry.hunks@.len()) }
}

/// A freshly loaded section: unfolded, its files freshly loaded.
pub open spec fn initial_section(kind: SectionKind, files: Seq<FileEntry>) -> SectionView {
    SectionView {
        kind,
        collapsed: false,
        files: Seq::new(files.len(), |fi: int| initial_file(files[fi])),
    }
}

/// The sections of a freshly loaded status, in the order the status lists them.
pub open spec fn initial_sections(sections: Seq<(SectionKind, Vec<FileEntry>)>) -> Seq<SectionView> {
    Seq::new(sections.len(), |si: int| initial_section(sections[si].0, sections[si].1@))
}

/// The buffer right after loading `status`: everything unfolded but the files,
/// the cursor on the first row, no menu, prompt, message or help.
pub open spec fn initial_view(status: RepoStatus) -> AppView {
    AppView {
        branch: status.branch@,
        sections: initial_sections(status.sections@),
        commits: status.commits@,
        commits_collapsed: false,
        cursor: 0,
        visual_anchor: None,
        transient: None,
        confirm: None,
        message: None,
        show_help: false,
    }
}

fn file_node_of(entry: FileEntry) -> (r: FileNode)
    ensures
        r@ == initial_file(entry),
{
    let n = entry.hunks.len();
    FileNode { entry, collapsed: true, hunk_collapsed: all_off_vec(n) }
}

fn section_of(kind: SectionKind, files: Vec<FileEntry>) -> (r: Section)
    ensures
        r@ == initial_section(kind, files@),
{
    let ghost src = files@;
    let mut nodes: Vec<FileNode> = Vec::new();
    for e in it: files.into_iter()
        invariant
            it.seq() == src,
            nodes@.len() == it.index(),
            forall|k: int| 0 <= k < nodes@.len() ==> (#[trigger] nodes@[k])@ == initial_file(src[k]),
    {
        nodes.push(file_node_of(e));
    }
    let r = Section { kind, collapsed: false, files: nodes };
    assert(r@.files =~= initial_section(kind, src).files);
    r
}

/// The first section of `kind`, if there is one.
pub open spec fn first_section_of(secs: Seq<SectionView>, kind: SectionKind) -> Option<int> {
    if exists|i: int| 0 <= i < secs.len() && secs[i].kind == kind {
        Some(
            choose|i: int|
                0 <= i < secs.len() && secs[i].kind == kind && forall|j: int|
                    0 <= j < i ==> secs[j].kind != kind,
        )
    } else {
        None
    }
}

/// The first file at `path`, if there is one.
pub open spec fn first_file_at(files: Seq<FileView>, path: Seq<char>) -> Option<int> {
    if exists|i: int| 0 <= i < files.len() && files[i].entry.path@ == path {
        Some(
            choose|i: int|
                0 <= i < files.len() && files[i].entry.path@ == path && forall|j: int|
                    0 <= j < i ==> files[j].entry.path@ != path,
        )
    } else {
        None
    }
}

/// New hunk fold flags, taking the old flag wherever the old file had as many hunks.
pub open spec fn carried_flags(new: Seq<bool>, old: Seq<bool>) -> Seq<bool> {
    Seq::new(new.len(), |i: int| if i < old.len() { old[i] } else { new[i] })
}

/// A reloaded file keeps the fold state of the first old file at its path.
pub open spec fn carried_file(new: FileView, old_files: Seq<FileView>) -> FileView {
    match first_file_at(old_files, new.entry.path@) {
        Some(j) => FileView {
            collapsed: old_files[j].collapsed,
            hunk_collapsed: carried_flags(new.hunk_collapsed, old_files[j].hunk_collapsed),
            ..new
        },
        None => new,
    }
}

/// A reloaded section keeps the fold state of the first old section of its kind,
/// and so do its files.
pub open spec fn carried_section(new: SectionView, old: Seq<SectionView>) -> SectionView {
    match first_section_of(old, new.kind) {
        Some(j) => SectionView {
            collapsed: old[j].collapsed,
            files: Seq::new(new.files.len(), |fi: int| carried_file(new.files[fi], old[j].files)),
            ..new
        },
        None => new,
    }
}

/// The cursor moved onto the last row when it is past it (onto 0 when there are no rows).
pub open spec fn clamp_cursor(cursor: usize, n: nat) -> usize {
    if n == 0 {
        0
    } else if cursor < n {
        cursor
    } else {
        (n - 1) as usize
    }
}

/// The buffer after reloading `status`: new contents, the old fold state where
/// sections and files persist, the cursor kept on a row.
pub open spec fn refresh_spec(old: AppView, status: RepoStatus) -> AppView {
    let fresh = initial_sections(status.sections@);
    let mid = AppView {
        branch: status.branch@,
        sections: Seq::new(fresh.len(), |si: int| carried_section(fresh[si], old.sections)),
        commits: status.commits@,
        ..old
    };
    AppView { cursor: clamp_cursor(old.cursor, mid.visible().len()), ..mid }
}

fn find_section(secs: &Vec<Section>, kind: SectionKind) -> (r: Option<usize>)
    ensures
        match r {
            Some(i) => i < secs@.len() && first_section_of(sections_view(secs@), kind) == Some(i as int),
            None => first_section_of(sections_view(secs@), kind) is None,
        },
{
    let ghost sv = sections_view(secs@);
    let mut i: usize = 0;
    while i < secs.len()
        invariant
            i <= secs@.len(),
            sv == sections_view(secs@),
            forall|j: int| 0 <= j < i ==> sv[j].kind != kind,
        decreases secs.len() - i,
    {
        if secs[i].kind == kind {
            assert(sv[i as int].kind == kind);
            let ghost c = choose|k: int|
                0 <= k < sv.len() && sv[k].kind == kind && forall|j: int|
                    0 <= j < k ==> sv[j].kind != kind;
            assert(c == i) by {
                if c < i {
                } else if c > i {
                }
            }
            return Some(i);
        }
        i = i + 1;
    }
    None
}

fn find_file(files: &Vec<FileNode>, path: &String) -> (r: Option<usize>)
    ensures
        match r {
            Some(i) => i < files@.len() && first_file_at(files@.map_values(|f: FileNode| f@), path@) == Some(i as int),
            None => first_file_at(files@.map_values(|f: FileNode| f@), path@) is None,
        },
{
    let ghost fv = files@.map_values(|f: FileNode| f@);
    let mut i: usize = 0;
    while i < files.len()
        invariant
            i <= files@.len(),
            fv == files@.map_values(|f: FileNode| f@),
            forall|j: int| 0 <= j < i ==> fv[j].entry.path@ != path@,
        decreases files.len() - i,
    {
        if files[i].entry.path == *path {
            assert(fv[i as int].entry.path@ == path@);
            let ghost c = choose|k: int|
                0 <= k < fv.len() && fv[k].entry.path@ == path@ && forall|j: int|
                    0 <= j < k ==> fv[j].entry.path@ != path@;
            assert(c == i) by {
                if c < i {
                } else if c > i {
                }
            }
            return Some(i);
        }
        i = i + 1;
    }
    None
}

fn carry_flags(flags: &mut Vec<bool>, prev: &Vec<bool>)
    ensures
        final(flags)@ == carried_flags(old(flags)@, prev@),
{
    let ghost orig = flags@;
    let ghost target = carried_flags(flags@, prev@);
    let n = flags.len();
    let mut i: usize = 0;
    while i < n
        invariant
            i <= n,
            n == flags@.len(),
            n == orig.len(),
            target == carried_flags(orig, prev@),
            forall|k: int| 0 <= k < i ==> flags@[k] == target[k],
            forall|k: int| i <= k < n ==> flags@[k] == orig[k],
        decreases n - i,
    {
        if i < prev.len() {
            let b = prev[i];
            flags.set(i, b);
        }
        i = i + 1;
    }
    assert(flags@ =~= target);
}

fn carry_file(new: FileNode, old_files: &Vec<FileNode>) -> (r: FileNode)
    requires
        new@.wf(),
    ensures
        r@ == carried_file(new@, old_files@.map_values(|f: FileNode| f@)),
        r@.wf(),
{
    let ghost ofv = old_files@.map_values(|f: FileNode| f@);
    let mut node = new;
    match find_file(old_files, &node.entry.path) {
        Some(j) => {
            let old = &old_files[j];
            assert(ofv[j as int] == old@);
            node.collapsed = old.collapsed;
            carry_flags(&mut node.hunk_collapsed, &old.hunk_collapsed);
            assert(node@ == carried_file(new@, ofv));
            node
        },
        None => node,
    }
}

fn carry_files(files: Vec<FileNode>, old_files: &Vec<FileNode>) -> (r: Vec<FileNode>)
    requires
        forall|k: int| 0 <= k < files@.len() ==> (#[trigger] files@[k])@.wf(),
    ensures
        r@.len() == files@.len(),
        forall|k: int|
            0 <= k < r@.len() ==> (#[trigger] r@[k])@ == carried_file(
                files@[k]@,
                old_files@.map_values(|f: FileNode| f@),
            ),
        forall|k: int| 0 <= k < r@.len() ==> (#[trigger] r@[k])@.wf(),
{
    let ghost src = files@;
    let ghost ofv = old_files@.map_values(|f: FileNode| f@);
    let mut nodes: Vec<FileNode> = Vec::new();
    for f in it: files.into_iter()
        invariant
            it.seq() == src,
            ofv == old_files@.map_values(|f: FileNode| f@),
            forall|k: int| 0 <= k < src.len() ==> (#[trigger] src[k])@.wf(),
            nodes@.len() == it.index(),
            forall|k: int| 0 <= k < nodes@.len() ==> (#[trigger] nodes@[k])@ == carried_file(src[k]@, ofv),
            forall|k: int| 0 <= k < nodes@.len() ==> (#[trigger] nodes@[k])@.wf(),
    {
        assert(src[it.index() as int]@.wf());
        nodes.push(carry_file(f, old_files));
    }
    nodes
}

fn carry_section(new: Section, old_secs: &Vec<Section>) -> (r: Section)
    requires
        new@.wf(),
    ensures
        r@ == carried_section(new@, sections_view(old_secs@)),
        r@.wf(),
{
    let ghost osv = sections_view(old_secs@);
    match find_section(old_secs, new.kind) {
        Some(j) => {
            let prev = &old_secs[j];
            assert(osv[j as int] == prev@);
            let Section { kind, collapsed: _, files } = new;
            assert forall|k: int| 0 <= k < files@.len() implies (#[trigger] files@[k])@.wf() by {
                assert(new@.files[k] == files@[k]@);
            }
            let nodes = carry_files(files, &prev.files);
            let r = Section { kind, collapsed: prev.collapsed, files: nodes };
            assert(r@.files =~= carried_section(new@, osv).files);
            r
        },
        None => new,
    }
}

fn push_hunk_block(items: &mut Vec<CursorItem>, si: usize, fi: usize, hi: usize, file: &FileNode)
    requires
        file@.wf(),
        hi < file.entry.hunks@.len(),
    ensures
        final(items)@ == old(items)@ + hunk_block(si, fi, hi, file@),
{
    let ghost pre = items@;
    items.push(CursorItem::Hunk(si, fi, hi));
    if !file.hunk_collapsed[hi] {
        let n = file.entry.hunks[hi].lines.len();
        let mut li: usize = 0;
        while li < n
            invariant
                li <= n,
                n == file.entry.hunks@[hi as int].lines@.len(),
                items@ == pre + seq![CursorItem::Hunk(si, fi, hi)] + diff_line_items(
                    si,
                    fi,
                    hi,
                    li as nat,
                ),
            decreases n - li,
        {
            items.push(CursorItem::DiffLine(si, fi, hi, li));
            li = li + 1;
            assert(items@ =~= pre + seq![CursorItem::Hunk(si, fi, hi)] + diff_line_items(
                si,
                fi,
                hi,
                li as nat,
            ));
        }
        assert(items@ =~= pre + hunk_block(si, fi, hi, file@));
    } else {
        assert(items@ =~= pre + hunk_block(si, fi, hi, file@));
    }
}

fn push_file_block(items: &mut Vec<CursorItem>, si: usize, fi: usize, file: &FileNode)
    requires
        file@.wf(),
    ensures
        final(items)@ == old(items)@ + file_block(si, fi, file@),
{
    let ghost pre = items@;
    items.push(CursorItem::File(si, fi));
    if !file.collapsed {
        let n = file.entry.hunks.len();
        let mut hi: usize = 0;
        while hi < n
            invariant
                file@.wf(),
                hi <= n,
                n == file.entry.hunks@.len(),
                items@ == pre + seq![CursorItem::File(si, fi)] + concat_blocks(
                    hunk_blocks_fn(si, fi, file@),
                    hi as nat,
                ),
            decreases n - hi,
        {
            push_hunk_block(items, si, fi, hi, file);
            hi = hi + 1;
            assert(items@ =~= pre + seq![CursorItem::File(si, fi)] + concat_blocks(
                hunk_blocks_fn(si, fi, file@),
                hi as nat,
            ));
        }
    }
    assert(items@ =~= pre + file_block(si, fi, file@));
}

fn push_section_block(items: &mut Vec<CursorItem>, si: usize, sec: &Section)
    requires
        sec@.wf(),
    ensures
        final(items)@ == old(items)@ + section_block(si, sec@),
{
    let ghost pre = items@;
    if sec.files.len() == 0 {
        assert(items@ =~= pre + section_block(si, sec@));
        return;
    }
    items.push(CursorItem::Section(si));
    if !sec.collapsed {
        let n = sec.files.len();
        let mut fi: usize = 0;
        while fi < n
            invariant
                sec@.wf(),
                fi <= n,
                n == sec.files@.len(),
                items@ == pre + seq![CursorItem::Section(si)] + concat_blocks(
                    file_blocks_fn(si, sec@),
                    fi as nat,
                ),
            decreases n - fi,
        {
            assert(sec@.files[fi as int] == sec.files@[fi as int]@);
            push_file_block(items, si, fi, &sec.files[fi]);
            fi = fi + 1;
            assert(items@ =~= pre + seq![CursorItem::Section(si)] + concat_blocks(
                file_blocks_fn(si, sec@),
                fi as nat,
            ));
        }
    }
    assert(items@ =~= pre + section_block(si, sec@));
}

impl App {
    /// The buffer showing `status`.
    pub fn from_status(status: RepoStatus) -> (r: Self)
        ensures
            r@ == initial_view(status),
            r@.wf(),
    {
        let ghost st = status;
        let RepoStatus { branch, sections, commits } = status;
        let ghost src = sections@;
        let mut secs: Vec<Section> = Vec::new();
        for pair in it: sections.into_iter()
            invariant
                it.seq() == src,
                secs@.len() == it.index(),
                forall|k: int|
                    0 <= k < secs@.len() ==> (#[trigger] secs@[k])@ == initial_section(
                        src[k].0,
                        src[k].1@,
                    ),
        {
            let (kind, files) = pair;
            secs.push(section_of(kind, files));
        }
        let r = App {
            branch,
            sections: secs,
            commits,
            commits_collapsed: false,
            cursor: 0,
            visual_anchor: None,
            transient: None,
            confirm: None,
            message: None,
            show_help: false,
        };
        assert(r@.sections =~= initial_sections(st.sections@));
        assert(r.sections.len() == r.sections@.len());
        assert forall|si: int| 0 <= si < r@.sections.len() implies (#[trigger] r@.sections[si]).wf() by {
            let files = src[si].1;
            assert(files.len() == files@.len());
            assert forall|fi: int| 0 <= fi < r@.sections[si].files.len() implies (#[trigger] r@.sections[si].files[fi]).wf() by {
                assert(files@[fi].hunks.len() == files@[fi].hunks@.len());
            }
        }
        r
    }

    /// Shows `status` in place of what the buffer showed, keeping the fold state
    /// of the sections and files that are still there and keeping the cursor on
    /// a row.
    pub fn refresh(&mut self, status: RepoStatus)
        requires
            old(self)@.wf(),
        ensures
            final(self)@ == refresh_spec(old(self)@, status),
            final(self)@.wf(),
    {
        let ghost st = status;
        let rebuilt = Self::from_status(status);
        let App { branch, sections, commits, .. } = rebuilt;
        let ghost fresh = sections_view(sections@);
        let mut merged: Vec<Section> = Vec::new();
        for sec in it: sections.into_iter()
            invariant
                it.seq().map_values(|s: Section| s@) == fresh,
                sections_wf(fresh),
                merged@.len() == it.index(),
                forall|k: int|
                    0 <= k < merged@.len() ==> (#[trigger] merged@[k])@ == carried_section(
                        fresh[k],
                        sections_view(self.sections@),
                    ),
                forall|k: int| 0 <= k < merged@.len() ==> (#[trigger] merged@[k])@.wf(),
        {
            assert(fresh[it.index() as int] == sec@);
            merged.push(carry_section(sec, &self.sections));
        }
        self.branch = branch;
        self.sections = merged;
        self.commits = commits;
        assert(self@.sections =~= refresh_spec(old(self)@, st).sections);
        assert(self.sections.len() == self.sections@.len());
        let n = self.visible_count();
        if n == 0 {
            self.cursor = 0;
        } else if self.cursor >= n {
            self.cursor = n - 1;
        }
    }

    /// The rows of the buffer, top to bottom.
    pub fn visible_items(&self) -> (r: Vec<CursorItem>)
        requires
            self@.wf(),
        ensures
            r@ == self@.visible(),
    {
        let mut items: Vec<CursorItem> = Vec::new();
        let n = self.sections.len();
        let mut si: usize = 0;
        while si < n
            invariant
                self@.wf(),
                si <= n,
                n == self.sections@.len(),
                items@ == concat_blocks(section_blocks_fn(self@.sections), si as nat),
            decreases n - si,
        {
            assert(self@.sections[si as int] == self.sections@[si as int]@);
            push_section_block(&mut items, si, &self.sections[si]);
            si = si + 1;
            assert(items@ =~= concat_blocks(section_blocks_fn(self@.sections), si as nat));
        }
        let ghost pre = items@;
        let nc = self.commits.len();
        if nc > 0 {
            items.push(CursorItem::CommitHeader);
            if !self.commits_collapsed {
                let mut i: usize = 0;
                while i < nc
                    invariant
                        i <= nc,
                        items@ == pre + seq![CursorItem::CommitHeader] + Seq::new(
                            i as nat,
                            |k: int| CursorItem::Commit(k as usize),
                        ),
                    decreases nc - i,
                {
                    items.push(CursorItem::Commit(i));
                    i = i + 1;
                    assert(items@ =~= pre + seq![CursorItem::CommitHeader] + Seq::new(
                        i as nat,
                        |k: int| CursorItem::Commit(k as usize),
                    ));
                }
            }
        }
        assert(items@ =~= self@.visible());
        items
    }

    /// The number of rows of the buffer.
    pub fn visible_count(&self) -> (r: usize)
        requires
            self@.wf(),
        ensures
            r == self@.visible().len(),
    {
        self.visible_items().len()
    }

    /// The row under the cursor.
    pub fn current_item(&self) -> (r: Option<CursorItem>)
        requires
            self@.wf(),
        ensures
            r == self@.current(),
    {
        let items = self.visible_items();
        if self.cursor < items.len() {
            Some(items[self.cursor])
        } else {
            None
        }
    }

    /// Moves the cursor one row up, unless it is on the first row.
    pub fn move_up(&mut self)
        ensures
            final(self)@ == move_up_spec(old(self)@),
    {
        if self.cursor > 0 {
            self.cursor = self.cursor - 1;
        }
    }

    /// Moves the cursor one row down, unless it is on the last row.
    pub fn move_down(&mut self)
        requires
            old(self)@.wf(),
        ensures
            final(self)@ == move_down_spec(old(self)@),
    {
        let n = self.visible_count();
        if n > 0 && self.cursor < n - 1 {
            self.cursor = self.cursor + 1;
        }
    }

    /// Folds or unfolds the section, file, hunk or commit list under the cursor.
    pub fn toggle_collapse(&mut self)
        requires
            old(self)@.wf(),
        ensures
            final(self)@ == toggle_spec(old(self)@),
            final(self)@.wf(),
    {
        proof {
            lemma_visible_valid(self@);
        }
        let ghost v = self@;
        match self.current_item() {
            Some(CursorItem::Section(si)) => {
                let c = self.sections[si].collapsed;
                self.sections[si].collapsed = !c;
                assert(self@.sections =~= toggle_spec(v).sections);
            },
            Some(CursorItem::File(si, fi)) => {
                let c = self.sections[si].files[fi].collapsed;
                self.sections[si].files[fi].collapsed = !c;
                assert(self@.sections[si as int].files =~= toggle_spec(v).sections[si as int].files);
                assert(self@.sections =~= toggle_spec(v).sections);
            },
            Some(CursorItem::Hunk(si, fi, hi)) => {
                let c = self.sections[si].files[fi].hunk_collapsed[hi];
                self.sections[si].files[fi].hunk_collapsed.set(hi, !c);
                assert(self@.sections[si as int].files[fi as int].hunk_collapsed =~= toggle_spec(
                    v,
                ).sections[si as int].files[fi as int].hunk_collapsed);
                assert(self@.sections[si as int].files =~= toggle_spec(v).sections[si as int].files);
                assert(self@.sections =~= toggle_spec(v).sections);
            },
            Some(CursorItem::CommitHeader) => {
                self.commits_collapsed = !self.commits_collapsed;
            },
            _ => {},
        }
    }

    /// The rows between the visual anchor and the cursor, both included.
    pub fn visual_range(&self) -> (r: Option<(usize, usize)>)
        ensures
            r == match self.visual_anchor {
                Some(a) => Some(
                    (
                        if a <= self.cursor { a } else { self.cursor },
                        if a <= self.cursor { self.cursor } else { a },
                    ),
                ),
                None => None,
            },
    {
        match self.visual_anchor {
            Some(a) => {
                if a <= self.cursor {
                    Some((a, self.cursor))
                } else {
                    Some((self.cursor, a))
                }
            },
            None => None,
        }
    }
}

} // verus!
