use vstd::prelude::*;

use crate::git::repo::owned;
use crate::text::{push_char, push_str};
use crate::transient::{
    action_table, actions_of, describes_actions, flag_table, flags_of, ActionDef, FlagDef, Transient,
    TransientKind, TransientView,
};
use crate::ui::status::{blank_row, pad_right, pad_right_str, rows_view, sp, Row, RowView, Span, SpanView, Tone};

verus! {

/// The row of a switch: its short form (bold when on), its label, and its git
/// argument in brackets (highlighted when on).
pub open spec fn flag_row_spec(short: Seq<char>, label: Seq<char>, git_flag: Seq<char>, active: bool) -> RowView {
    RowView {
        spans: seq![
            sp(Tone::Plain, "  "@),
            sp(if active { Tone::ActiveFlagKey } else { Tone::FlagKey }, short),
            sp(Tone::Plain, "  "@),
            sp(Tone::Plain, label),
            sp(Tone::Plain, "  "@),
            sp(
                if active { Tone::ActiveFlagArgument } else { Tone::FlagArgument },
                "("@ + git_flag + ")"@,
            ),
        ],
        selected: false,
    }
}

pub open spec fn title_row(s: Seq<char>) -> RowView {
    RowView { spans: seq![sp(Tone::Title, s)], selected: false }
}

/// The `Arguments` title, then one row per switch of the menu.
pub open spec fn flags_block_spec(t: TransientView) -> Seq<RowView> {
    let table = flag_table(t.kind);
    seq![title_row("Arguments"@)] + Seq::new(
        table.len(),
        |i: int| flag_row_spec(table[i].1, table[i].2, table[i].3, t.active_flags[i]),
    )
}

/// The row of an action: its key and label.
pub open spec fn action_row_spec(key: char, label: Seq<char>) -> RowView {
    RowView {
        spans: seq![sp(Tone::Plain, "  "@), sp(Tone::ActionKey, seq![key]), sp(Tone::Plain, "  "@ + label)],
        selected: false,
    }
}

/// The title of the actions of the fetch, push and pull menus.
pub open spec fn action_title(kind: TransientKind) -> Seq<char> {
    match kind {
        TransientKind::Fetch => "Fetch from"@,
        TransientKind::Push => "Push to"@,
        TransientKind::Pull => "Pull from"@,
        TransientKind::Commit => "Commit"@,
    }
}

/// The commit menu's two columns of actions: create, and edit HEAD.
pub open spec fn commit_actions_spec() -> Seq<RowView> {
    seq![
        RowView {
            spans: seq![sp(Tone::Title, pad_right("Create"@, 16)), sp(Tone::Title, "Edit HEAD"@)],
            selected: false,
        },
        RowView {
            spans: seq![
                sp(Tone::Plain, "  "@),
                sp(Tone::ActionKey, seq!['c']),
                sp(Tone::Plain, "  "@ + pad_right("Commit"@, 10)),
                sp(Tone::ActionKey, seq!['e']),
                sp(Tone::Plain, "  Extend"@),
            ],
            selected: false,
        },
        RowView {
            spans: seq![
                sp(Tone::Plain, "  "@),
                sp(Tone::Plain, Seq::new(13, |i: int| ' ')),
                sp(Tone::ActionKey, seq!['a']),
                sp(Tone::Plain, "  Amend"@),
            ],
            selected: false,
        },
        RowView {
            spans: seq![
                sp(Tone::Plain, "  "@),
                sp(Tone::Plain, Seq::new(13, |i: int| ' ')),
                sp(Tone::ActionKey, seq!['w']),
                sp(Tone::Plain, "  Reword"@),
            ],
            selected: false,
        },
    ]
}

/// The rows of an open menu: its switches, a blank row, then its actions.
pub open spec fn menu_rows_spec(t: TransientView) -> Seq<RowView> {
    if t.kind == TransientKind::Commit {
        flags_block_spec(t) + seq![blank_row()] + commit_actions_spec()
    } else {
        let acts = action_table(t.kind);
        flags_block_spec(t) + seq![blank_row(), title_row(action_title(t.kind))] + Seq::new(
            acts.len(),
            |i: int| action_row_spec(acts[i].0, acts[i].1),
        )
    }
}

/// How tall the panel of each menu is.
pub open spec fn menu_height_spec(kind: TransientKind) -> u16 {
    match kind {
        TransientKind::Commit => 13,
        TransientKind::Fetch => 8,
        TransientKind::Push => 10,
        TransientKind::Pull => 9,
    }
}

fn sp_exec(tone: Tone, text: String) -> (r: Span)
    ensures
        r@ == sp(tone, text@),
{
    Span { tone, text }
}

fn row_of(spans: Vec<Span>) -> (r: Row)
    ensures
        r@ == (RowView { spans: spans@.map_values(|s: Span| s@), selected: false }),
{
    Row { spans, selected: false }
}

fn title(s: &str) -> (r: Row)
    ensures
        r@ == title_row(s@),
{
    let mut v: Vec<Span> = Vec::new();
    v.push(sp_exec(Tone::Title, owned(s)));
    assert(v@.map_values(|x: Span| x@) =~= seq![sp(Tone::Title, s@)]);
    row_of(v)
}

fn blank() -> (r: Row)
    ensures
        r@ == blank_row(),
{
    let v: Vec<Span> = Vec::new();
    assert(v@.map_values(|x: Span| x@) =~= Seq::<SpanView>::empty());
    Row { spans: v, selected: false }
}

fn char_string(c: char) -> (r: String)
    ensures
        r@ == seq![c],
{
    let mut s = String::new();
    push_char(&mut s, c);
    assert(s@ =~= seq![c]);
    s
}

fn flag_row(f: &FlagDef, active: bool) -> (r: Row)
    ensures
        r@ == flag_row_spec(f.short@, f.label@, f.git_flag@, active),
{
    let mut arg = owned("(");
    push_str(&mut arg, f.git_flag);
    push_str(&mut arg, ")");
    let mut v: Vec<Span> = Vec::new();
    v.push(sp_exec(Tone::Plain, owned("  ")));
    v.push(sp_exec(if active { Tone::ActiveFlagKey } else { Tone::FlagKey }, owned(f.short)));
    v.push(sp_exec(Tone::Plain, owned("  ")));
    v.push(sp_exec(Tone::Plain, owned(f.label)));
    v.push(sp_exec(Tone::Plain, owned("  ")));
    v.push(sp_exec(if active { Tone::ActiveFlagArgument } else { Tone::FlagArgument }, arg));
    assert(v@.map_values(|x: Span| x@) =~= flag_row_spec(f.short@, f.label@, f.git_flag@, active).spans);
    row_of(v)
}

fn action_row(a: &ActionDef) -> (r: Row)
    ensures
        r@ == action_row_spec(a.key, a.label@),
{
    let key = a.key;
    let label = a.label;
    let mut l = owned("  ");
    push_str(&mut l, label);
    let mut v: Vec<Span> = Vec::new();
    v.push(sp_exec(Tone::Plain, owned("  ")));
    v.push(sp_exec(Tone::ActionKey, char_string(key)));
    v.push(sp_exec(Tone::Plain, l));
    assert(v@.map_values(|x: Span| x@) =~= action_row_spec(key, label@).spans);
    row_of(v)
}

fn spaces(n: usize) -> (r: String)
    ensures
        r@ == Seq::new(n as nat, |i: int| ' '),
{
    let mut s = String::new();
    let mut i: usize = 0;
    while i < n
        invariant
            i <= n,
            s@ == Seq::new(i as nat, |k: int| ' '),
        decreases n - i,
    {
        push_char(&mut s, ' ');
        i = i + 1;
        assert(s@ =~= Seq::new(i as nat, |k: int| ' '));
    }
    s
}

fn commit_actions() -> (r: Vec<Row>)
    ensures
        rows_view(r@) == commit_actions_spec(),
{
    let mut out: Vec<Row> = Vec::new();
    let mut h: Vec<Span> = Vec::new();
    h.push(sp_exec(Tone::Title, pad_right_str("Create", 16)));
    h.push(sp_exec(Tone::Title, owned("Edit HEAD")));
    let ghost hv = h@.map_values(|x: Span| x@);
    out.push(row_of(h));
    let mut first = owned("  ");
    let commit_label = pad_right_str("Commit", 10);
    push_str(&mut first, commit_label.as_str());
    let mut r1: Vec<Span> = Vec::new();
    r1.push(sp_exec(Tone::Plain, owned("  ")));
    r1.push(sp_exec(Tone::ActionKey, char_string('c')));
    r1.push(sp_exec(Tone::Plain, first));
    r1.push(sp_exec(Tone::ActionKey, char_string('e')));
    r1.push(sp_exec(Tone::Plain, owned("  Extend")));
    let ghost v1 = r1@.map_values(|x: Span| x@);
    out.push(row_of(r1));
    let mut r2: Vec<Span> = Vec::new();
    r2.push(sp_exec(Tone::Plain, owned("  ")));
    r2.push(sp_exec(Tone::Plain, spaces(13)));
    r2.push(sp_exec(Tone::ActionKey, char_string('a')));
    r2.push(sp_exec(Tone::Plain, owned("  Amend")));
    let ghost v2 = r2@.map_values(|x: Span| x@);
    out.push(row_of(r2));
    let mut r3: Vec<Span> = Vec::new();
    r3.push(sp_exec(Tone::Plain, owned("  ")));
    r3.push(sp_exec(Tone::Plain, spaces(13)));
    r3.push(sp_exec(Tone::ActionKey, char_string('w')));
    r3.push(sp_exec(Tone::Plain, owned("  Reword")));
    let ghost v3 = r3@.map_values(|x: Span| x@);
    out.push(row_of(r3));
    assert(hv =~= commit_actions_spec()[0].spans);
    assert(v1 =~= commit_actions_spec()[1].spans);
    assert(v2 =~= commit_actions_spec()[2].spans);
    assert(v3 =~= commit_actions_spec()[3].spans);
    assert(rows_view(out@) =~= commit_actions_spec());
    out
}

impl Transient {
    fn flags_block(&self) -> (r: Vec<Row>)
        requires
            self.wf(),
        ensures
            rows_view(r@) == flags_block_spec(self@),
    {
        let defs = flags_of(self.kind);
        let ghost table = flag_table(self.kind);
        let mut out: Vec<Row> = Vec::new();
        out.push(title("Arguments"));
        let mut i: usize = 0;
        while i < defs.len()
            invariant
                self.wf(),
                i <= defs@.len(),
                table == flag_table(self.kind),
                crate::transient::describes_flags(defs@, self.kind),
                rows_view(out@) == flags_block_spec(self@).take(i + 1),
            decreases defs@.len() - i,
        {
            let ghost before = out@;
            out.push(flag_row(&defs[i], self.active_flags[i]));
            assert(rows_view(out@) =~= rows_view(before).push(flags_block_spec(self@)[i + 1]));
            assert(flags_block_spec(self@).take(i + 2) =~= flags_block_spec(self@).take(i + 1).push(
                flags_block_spec(self@)[i + 1],
            ));
            i = i + 1;
        }
        assert(flags_block_spec(self@).take(defs@.len() as int + 1) =~= flags_block_spec(self@));
        out
    }

    /// The rows of the menu's panel (see `menu_rows_spec`).
    pub fn menu_rows(&self) -> (r: Vec<Row>)
        requires
            self.wf(),
        ensures
            rows_view(r@) == menu_rows_spec(self@),
    {
        let mut out = self.flags_block();
        let ghost fb = rows_view(out@);
        out.push(blank());
        match self.kind {
            TransientKind::Commit => {
                let mut acts = commit_actions();
                let ghost av = rows_view(acts@);
                let ghost before = out@;
                out.append(&mut acts);
                assert(rows_view(out@) =~= rows_view(before) + av);
            },
            _ => {
                out.push(title(match self.kind {
                    TransientKind::Fetch => "Fetch from",
                    TransientKind::Push => "Push to",
                    _ => "Pull from",
                }));
                let acts = actions_of(self.kind);
                let ghost table = action_table(self.kind);
                let ghost pre = rows_view(out@);
                let mut i: usize = 0;
                while i < acts.len()
                    invariant
                        i <= acts@.len(),
                        describes_actions(acts@, table),
                        rows_view(out@) == pre + Seq::new(
                            i as nat,
                            |k: int| action_row_spec(table[k].0, table[k].1),
                        ),
                    decreases acts@.len() - i,
                {
                    let ghost before = out@;
                    assert(acts@[i as int].key == table[i as int].0);
                    assert(acts@[i as int].label@ == table[i as int].1);
                    out.push(action_row(&acts[i]));
                    assert(rows_view(out@) =~= rows_view(before).push(action_row_spec(table[i as int].0, table[i as int].1)));
                    assert(rows_view(out@) =~= pre + Seq::new(
                        (i + 1) as nat,
                        |k: int| action_row_spec(table[k].0, table[k].1),
                    ));
                    i = i + 1;
                }
            },
        }
        assert(rows_view(out@) =~= menu_rows_spec(self@));
        out
    }

    /// How tall the menu's panel is.
    pub fn menu_height(&self) -> (r: u16)
        ensures
            r == menu_height_spec(self.kind),
    {
        match self.kind {
            TransientKind::Commit => 13,
            TransientKind::Fetch => 8,
            TransientKind::Push => 10,
            TransientKind::Pull => 9,
        }
    }
}

} // verus!
