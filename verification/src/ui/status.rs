use vstd::prelude::*;

use crate::app::{item_valid, lemma_visible_valid, App, AppView, CursorItem};
use crate::git::repo::{change_label, owned, ChangeKind, SectionKind};
use crate::text::{decimal, push_char, push_decimal, push_str};

verus! {

/// How a piece of text is drawn.
#[derive(Debug, Clone, Copy, PartialEq, Eq, Structural)]
pub enum Tone {
    Plain,
    /// The `Head:` label.
    HeadLabel,
    Bold,
    /// Section and menu titles.
    Title,
    /// The change before a path.
    KindLabel,
    Path,
    StagedPath,
    HunkHeader,
    Added,
    Removed,
    Context,
    Sha,
    FlagKey,
    ActiveFlagKey,
    FlagArgument,
    ActiveFlagArgument,
    ActionKey,
}

/// A piece of a row.
pub struct Span {
    pub tone: Tone,
    pub text: String,
}

/// A row of text; `selected` marks a row of the visual selection.
pub struct Row {
    pub spans: Vec<Span>,
    pub selected: bool,
}

pub struct SpanView {
    pub tone: Tone,
    pub text: Seq<char>,
}

pub struct RowView {
    pub spans: Seq<SpanView>,
    pub selected: bool,
}

impl View for Span {
    type V = SpanView;

    open spec fn view(&self) -> SpanView {
        SpanView { tone: self.tone, text: self.text@ }
    }
}

impl View for Row {
    type V = RowView;

    open spec fn view(&self) -> RowView {
        RowView { spans: self.spans@.map_values(|s: Span| s@), selected: self.selected }
    }
}

pub open spec fn rows_view(rows: Seq<Row>) -> Seq<RowView> {
    rows.map_values(|r: Row| r@)
}

pub open spec fn sp(tone: Tone, text: Seq<char>) -> SpanView {
    SpanView { tone, text }
}

/// `s` padded with spaces on the right to `width` characters, as `{:<width}` pads.
pub open spec fn pad_right(s: Seq<char>, width: nat) -> Seq<char> {
    if s.len() < width {
        s + Seq::new((width - s.len()) as nat, |i: int| ' ')
    } else {
        s
    }
}

/// The words that open a section's title.
pub open spec fn section_title(k: SectionKind) -> Seq<char> {
    match k {
        SectionKind::Untracked => "Untracked files ("@,
        SectionKind::Staged => "Staged changes ("@,
        SectionKind::Unstaged => "Unstaged changes ("@,
    }
}

/// The text of a row of the buffer.
pub open spec fn item_spans(v: AppView, x: CursorItem) -> Seq<SpanView> {
    match x {
        CursorItem::Section(si) => seq![
            sp(
                Tone::Title,
                section_title(v.sections[si as int].kind) + decimal(v.sections[si as int].files.len())
                    + ")"@,
            ),
        ],
        CursorItem::File(si, fi) => {
            let e = v.sections[si as int].files[fi as int].entry;
            let label = change_label(e.kind);
            seq![
                sp(Tone::KindLabel, if label.len() == 0 { label } else { pad_right(label, 10) }),
                sp(
                    if v.sections[si as int].kind == SectionKind::Staged {
                        Tone::StagedPath
                    } else {
                        Tone::Path
                    },
                    e.path@,
                ),
            ]
        },
        CursorItem::Hunk(si, fi, hi) => seq![
            sp(Tone::HunkHeader, v.sections[si as int].files[fi as int].entry.hunks@[hi as int].header@),
        ],
        CursorItem::DiffLine(si, fi, hi, li) => {
            let l = v.sections[si as int].files[fi as int].entry.hunks@[hi as int].lines@[li as int];
            if l.origin == '+' {
                seq![sp(Tone::Added, seq!['+'] + l.content@)]
            } else if l.origin == '-' {
                seq![sp(Tone::Removed, seq!['-'] + l.content@)]
            } else {
                seq![sp(Tone::Context, seq![' '] + l.content@)]
            }
        },
        CursorItem::CommitHeader => seq![sp(Tone::Title, "Recent commits"@)],
        CursorItem::Commit(i) => seq![
            sp(Tone::Sha, v.commits[i as int].sha@),
            sp(Tone::Plain, " "@),
            sp(Tone::Plain, v.commits[i as int].message@),
        ],
    }
}

/// Section titles after the first, and the commit list's title, follow a blank row.
pub open spec fn needs_gap(x: CursorItem) -> bool {
    match x {
        CursorItem::Section(si) => si > 0,
        CursorItem::CommitHeader => true,
        _ => false,
    }
}

/// Whether row `ci` of the buffer is in the visual selection.
pub open spec fn in_selection(v: AppView, ci: int) -> bool {
    match v.visual_anchor {
        Some(a) => (if a <= v.cursor { a as int } else { v.cursor as int }) <= ci && ci <= (if a
            <= v.cursor {
            v.cursor as int
        } else {
            a as int
        }),
        None => false,
    }
}

pub open spec fn blank_row() -> RowView {
    RowView { spans: Seq::empty(), selected: false }
}

/// The head line and the blank row under it.
pub open spec fn header_rows(v: AppView) -> Seq<RowView> {
    seq![
        RowView { spans: seq![sp(Tone::HeadLabel, "Head:     "@), sp(Tone::Bold, v.branch)], selected: false },
        blank_row(),
    ]
}

/// The rows drawn for the first `n` rows of the buffer, and at which drawn row
/// each of them stands.
pub open spec fn layout(v: AppView, n: nat) -> (Seq<RowView>, Seq<usize>)
    decreases n,
{
    if n == 0 {
        (header_rows(v), Seq::empty())
    } else {
        let prev = layout(v, (n - 1) as nat);
        let x = v.visible()[n - 1];
        let rows = if needs_gap(x) {
            prev.0.push(blank_row())
        } else {
            prev.0
        };
        (
            rows.push(RowView { spans: item_spans(v, x), selected: in_selection(v, n - 1) }),
            prev.1.push(rows.len() as usize),
        )
    }
}

/// What the status screen draws: its rows, and for each row of the buffer the
/// drawn row it stands at (the cursor is drawn at `cursor_rows[cursor]`).
pub struct StatusLayout {
    pub rows: Vec<Row>,
    pub cursor_rows: Vec<usize>,
}

fn span(tone: Tone, text: String) -> (r: Span)
    ensures
        r@ == sp(tone, text@),
{
    Span { tone, text }
}

fn row_of(spans: Vec<Span>, selected: bool) -> (r: Row)
    ensures
        r@ == (RowView { spans: spans@.map_values(|s: Span| s@), selected }),
{
    Row { spans, selected }
}

fn one(s: Span) -> (r: Vec<Span>)
    ensures
        r@.map_values(|x: Span| x@) == seq![s@],
{
    let mut v: Vec<Span> = Vec::new();
    v.push(s);
    assert(v@.map_values(|x: Span| x@) =~= seq![s@]);
    v
}

fn blank() -> (r: Row)
    ensures
        r@ == blank_row(),
{
    let v: Vec<Span> = Vec::new();
    assert(v@.map_values(|x: Span| x@) =~= Seq::<SpanView>::empty());
    Row { spans: v, selected: false }
}

/// `s` padded with spaces on the right to `width` characters.
pub fn pad_right_str(s: &str, width: usize) -> (r: String)
    ensures
        r@ == pad_right(s@, width as nat),
{
    let mut out = owned(s);
    let n = crate::text::chars_of(s).len();
    if n < width {
        let mut i = n;
        while i < width
            invariant
                n <= i <= width,
                n == s@.len(),
                out@ == s@ + Seq::new((i - n) as nat, |k: int| ' '),
            decreases width - i,
        {
            push_char(&mut out, ' ');
            i = i + 1;
            assert(out@ =~= s@ + Seq::new((i - n) as nat, |k: int| ' '));
        }
    }
    out
}

impl App {
    fn item_row_spans(&self, x: CursorItem) -> (r: Vec<Span>)
        requires
            self@.wf(),
            item_valid(self@, x),
        ensures
            r@.map_values(|s: Span| s@) == item_spans(self@, x),
    {
        match x {
            CursorItem::Section(si) => {
                assert(self@.sections[si as int] == self.sections@[si as int]@);
                let sec = &self.sections[si];
                let mut t = owned(match sec.kind {
                    SectionKind::Untracked => "Untracked files (",
                    SectionKind::Staged => "Staged changes (",
                    SectionKind::Unstaged => "Unstaged changes (",
                });
                push_decimal(&mut t, sec.files.len() as u64);
                push_str(&mut t, ")");
                one(span(Tone::Title, t))
            },
            CursorItem::File(si, fi) => {
                assert(self@.sections[si as int] == self.sections@[si as int]@);
                assert(self@.sections[si as int].files[fi as int] == self.sections@[si as int].files@[fi as int]@);
                let sec = &self.sections[si];
                let e = &sec.files[fi].entry;
                let label = e.kind.label();
                let prefix = if crate::text::chars_of(label).len() == 0 {
                    owned(label)
                } else {
                    pad_right_str(label, 10)
                };
                let tone = if sec.kind == SectionKind::Staged {
                    Tone::StagedPath
                } else {
                    Tone::Path
                };
                let mut v: Vec<Span> = Vec::new();
                v.push(span(Tone::KindLabel, prefix));
                v.push(span(tone, e.path.clone()));
                assert(v@.map_values(|s: Span| s@) =~= item_spans(self@, x));
                v
            },
            CursorItem::Hunk(si, fi, hi) => {
                assert(self@.sections[si as int] == self.sections@[si as int]@);
                assert(self@.sections[si as int].files[fi as int] == self.sections@[si as int].files@[fi as int]@);
                let h = &self.sections[si].files[fi].entry.hunks[hi];
                one(span(Tone::HunkHeader, h.header.clone()))
            },
            CursorItem::DiffLine(si, fi, hi, li) => {
                assert(self@.sections[si as int] == self.sections@[si as int]@);
                assert(self@.sections[si as int].files[fi as int] == self.sections@[si as int].files@[fi as int]@);
                let l = &self.sections[si].files[fi].entry.hunks[hi].lines[li];
                let (tone, c) = if l.origin == '+' {
                    (Tone::Added, '+')
                } else if l.origin == '-' {
                    (Tone::Removed, '-')
                } else {
                    (Tone::Context, ' ')
                };
                let mut t = String::new();
                push_char(&mut t, c);
                push_str(&mut t, l.content.as_str());
                one(span(tone, t))
            },
            CursorItem::CommitHeader => one(span(Tone::Title, owned("Recent commits"))),
            CursorItem::Commit(i) => {
                let c = &self.commits[i];
                let mut v: Vec<Span> = Vec::new();
                v.push(span(Tone::Sha, c.sha.clone()));
                v.push(span(Tone::Plain, owned(" ")));
                v.push(span(Tone::Plain, c.message.clone()));
                assert(v@.map_values(|s: Span| s@) =~= item_spans(self@, x));
                v
            },
        }
    }

    /// The rows of the status screen and where the buffer's rows stand in them
    /// (see `layout`).
    pub fn status_layout(&self) -> (r: StatusLayout)
        requires
            self@.wf(),
        ensures
            rows_view(r.rows@) == layout(self@, self@.visible().len()).0,
            r.cursor_rows@ == layout(self@, self@.visible().len()).1,
    {
        proof {
            lemma_visible_valid(self@);
        }
        let items = self.visible_items();
        let mut rows: Vec<Row> = Vec::new();
        let mut head: Vec<Span> = Vec::new();
        head.push(span(Tone::HeadLabel, owned("Head:     ")));
        head.push(span(Tone::Bold, self.branch.clone()));
        rows.push(row_of(head, false));
        rows.push(blank());
        let mut map: Vec<usize> = Vec::new();
        assert(rows_view(rows@) =~= header_rows(self@)) by {
            assert(rows@[0]@.spans =~= header_rows(self@)[0].spans);
        }
        let range = self.visual_range();
        let mut ci: usize = 0;
        while ci < items.len()
            invariant
                self@.wf(),
                ci <= items@.len(),
                items@ == self@.visible(),
                forall|k: int| 0 <= k < items@.len() ==> item_valid(self@, #[trigger] items@[k]),
                range == match self.visual_anchor {
                    Some(a) => Some(
                        (
                            if a <= self.cursor { a } else { self.cursor },
                            if a <= self.cursor { self.cursor } else { a },
                        ),
                    ),
                    None => None,
                },
                rows_view(rows@) == layout(self@, ci as nat).0,
                map@ == layout(self@, ci as nat).1,
            decreases items@.len() - ci,
        {
            let x = items[ci];
            let gap = match x {
                CursorItem::Section(si) => si > 0,
                CursorItem::CommitHeader => true,
                _ => false,
            };
            if gap {
                let ghost before = rows@;
                rows.push(blank());
                assert(rows_view(rows@) =~= rows_view(before).push(blank_row()));
            }
            map.push(rows.len());
            let selected = match range {
                Some((lo, hi)) => lo <= ci && ci <= hi,
                None => false,
            };
            let spans = self.item_row_spans(x);
            let ghost before = rows@;
            rows.push(row_of(spans, selected));
            assert(rows_view(rows@) =~= rows_view(before).push(
                RowView { spans: item_spans(self@, x), selected: in_selection(self@, ci as int) },
            ));
            ci = ci + 1;
        }
        StatusLayout { rows, cursor_rows: map }
    }

    /// The footer: the pending question, else the message.
    pub fn footer_text(&self) -> (r: Option<&String>)
        ensures
            r == match self.confirm {
                Some(c) => Some(&c.prompt),
                None => match &self.message {
                    Some(m) => Some(m),
                    None => None,
                },
            },
    {
        match &self.confirm {
            Some(c) => Some(&c.prompt),
            None => match &self.message {
                Some(m) => Some(m),
                None => None,
            },
        }
    }
}

/// A rectangle of the screen.
#[derive(Debug, Clone, Copy, PartialEq, Eq, Structural)]
pub struct Area {
    pub x: u16,
    pub y: u16,
    pub width: u16,
    pub height: u16,
}

/// The bottom `height` rows of `r` (all of `r` when it is lower).
pub open spec fn bottom_spec(r: Area, height: u16) -> Area {
    let y = if r.height >= height { r.height - height } else { 0 };
    Area { x: r.x, y: (r.y + y) as u16, width: r.width, height: if height <= r.height { height } else { r.height } }
}

/// The bottom `height` rows of `r` (all of `r` when it is lower).
pub fn bottom_rect(r: Area, height: u16) -> (a: Area)
    requires
        r.y + r.height <= u16::MAX,
    ensures
        a == bottom_spec(r, height),
{
    let y = r.height.saturating_sub(height);
    Area { x: r.x, y: r.y + y, width: r.width, height: if height <= r.height { height } else { r.height } }
}

/// How tall the help panel is.
pub const HELP_HEIGHT: u16 = 14;

fn help_title(s: &str) -> (r: Row)
    ensures
        r@ == (RowView { spans: seq![sp(Tone::Title, s@)], selected: false }),
{
    row_of(one(span(Tone::Title, owned(s))), false)
}

/// A row of the help panel: a key and what it does.
pub open spec fn help_row_spec(k: Seq<char>, desc: Seq<char>) -> RowView {
    RowView {
        spans: seq![
            sp(Tone::Plain, " "@),
            sp(Tone::Bold, k),
            sp(Tone::Plain, if k.len() < 8 { Seq::new((8 - k.len()) as nat, |i: int| ' ') } else { Seq::empty() }),
            sp(Tone::Plain, desc),
        ],
        selected: false,
    }
}

fn help_row(k: &str, desc: &str) -> (r: Row)
    ensures
        r@ == help_row_spec(k@, desc@),
{
    let n = crate::text::chars_of(k).len();
    let mut pad = String::new();
    let mut i = n;
    while i < 8
        invariant
            n == k@.len(),
            n <= i || i == n,
            i >= n,
            i <= 8 || i == n,
            pad@ == Seq::new((i - n) as nat, |j: int| ' '),
        decreases 8 - i,
    {
        push_char(&mut pad, ' ');
        i = i + 1;
        assert(pad@ =~= Seq::new((i - n) as nat, |j: int| ' '));
    }
    assert(k@.len() >= 8 ==> pad@ =~= Seq::<char>::empty());
    assert(k@.len() < 8 ==> pad@ =~= Seq::new((8 - k@.len()) as nat, |j: int| ' '));
    let mut v: Vec<Span> = Vec::new();
    v.push(span(Tone::Plain, owned(" ")));
    v.push(span(Tone::Bold, owned(k)));
    v.push(span(Tone::Plain, pad));
    v.push(span(Tone::Plain, owned(desc)));
    assert(v@.map_values(|s: Span| s@) =~= help_row_spec(k@, desc@).spans);
    row_of(v, false)
}

/// The rows of the help panel, in order.
pub fn help_rows() -> (r: Vec<Row>)
    ensures
        rows_view(r@) == seq![
            RowView { spans: seq![sp(Tone::Title, "Transient and dwim commands"@)], selected: false },
            help_row_spec("c"@, "Commit"@),
            help_row_spec("f"@, "Fetch"@),
            help_row_spec("F"@, "Pull"@),
            help_row_spec("P"@, "Push"@),
            help_row_spec("z"@, "Stash"@),
            blank_row(),
            RowView { spans: seq![sp(Tone::Title, "Applying changes"@)], selected: false },
            help_row_spec("s"@, "Stage"@),
            help_row_spec("u"@, "Unstage"@),
            blank_row(),
            RowView { spans: seq![sp(Tone::Title, "Essential commands"@)], selected: false },
            help_row_spec("g"@, "Refresh current buffer"@),
            help_row_spec("q"@, "Bury current buffer"@),
            help_row_spec("<tab>"@, "Toggle section at point"@),
        ],
{
    let mut v: Vec<Row> = Vec::new();
    v.push(help_title("Transient and dwim commands"));
    v.push(help_row("c", "Commit"));
    v.push(help_row("f", "Fetch"));
    v.push(help_row("F", "Pull"));
    v.push(help_row("P", "Push"));
    v.push(help_row("z", "Stash"));
    v.push(blank());
    v.push(help_title("Applying changes"));
    v.push(help_row("s", "Stage"));
    v.push(help_row("u", "Unstage"));
    v.push(blank());
    v.push(help_title("Essential commands"));
    v.push(help_row("g", "Refresh current buffer"));
    v.push(help_row("q", "Bury current buffer"));
    v.push(help_row("<tab>", "Toggle section at point"));
    assert(rows_view(v@) =~= seq![
        RowView { spans: seq![sp(Tone::Title, "Transient and dwim commands"@)], selected: false },
        help_row_spec("c"@, "Commit"@),
        help_row_spec("f"@, "Fetch"@),
        help_row_spec("F"@, "Pull"@),
        help_row_spec("P"@, "Push"@),
        help_row_spec("z"@, "Stash"@),
        blank_row(),
        RowView { spans: seq![sp(Tone::Title, "Applying changes"@)], selected: false },
        help_row_spec("s"@, "Stage"@),
        help_row_spec("u"@, "Unstage"@),
        blank_row(),
        RowView { spans: seq![sp(Tone::Title, "Essential commands"@)], selected: false },
        help_row_spec("g"@, "Refresh current buffer"@),
        help_row_spec("q"@, "Bury current buffer"@),
        help_row_spec("<tab>"@, "Toggle section at point"@),
    ]);
    v
}

} // verus!
