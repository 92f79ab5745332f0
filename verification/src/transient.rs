use vstd::prelude::*;

verus! {

/// A switch of a transient menu: the key that toggles it, how the menu shows
/// it, and the argument it adds to the git command line.
pub struct FlagDef {
    pub key: char,
    pub short: &'static str,
    pub label: &'static str,
    pub git_flag: &'static str,
}

/// An action of a transient menu and the key that runs it.
pub struct ActionDef {
    pub key: char,
    pub label: &'static str,
}

#[derive(Debug, Clone, Copy, PartialEq, Eq, Structural)]
pub enum TransientKind {
    Commit,
    Fetch,
    Push,
    Pull,
}

/// An open transient menu. `active_flags[i]` says whether the `i`-th switch of
/// the menu's table (`flag_table(kind)`) is on.
pub struct Transient {
    pub kind: TransientKind,
    pub active_flags: Vec<bool>,
    pub awaiting_flag: bool,
}

pub struct TransientView {
    pub kind: TransientKind,
    pub active_flags: Seq<bool>,
    pub awaiting_flag: bool,
}

impl View for Transient {
    type V = TransientView;

    open spec fn view(&self) -> TransientView {
        TransientView { kind: self.kind, active_flags: self.active_flags@, awaiting_flag: self.awaiting_flag }
    }
}

/// The switches of each menu, in the order the menu lists them:
/// (key, short form, label, git argument).
pub open spec fn flag_table(kind: TransientKind) -> Seq<(char, Seq<char>, Seq<char>, Seq<char>)> {
    match kind {
        TransientKind::Commit => seq![
            ('a', "-a"@, "Stage all modified and deleted files"@, "--all"@),
            ('e', "-e"@, "Allow empty commit"@, "--allow-empty"@),
            ('v', "-v"@, "Show diff of changes to be committed"@, "--verbose"@),
            ('n', "-n"@, "Disable hooks"@, "--no-verify"@),
            ('s', "-s"@, "Add Signed-off-by line"@, "--signoff"@),
        ],
        TransientKind::Fetch => seq![
            ('p', "-p"@, "Prune deleted branches"@, "--prune"@),
            ('t', "-t"@, "Fetch all tags"@, "--tags"@),
            ('F', "-F"@, "Force"@, "--force"@),
        ],
        TransientKind::Push => seq![
            ('f', "-f"@, "Force with lease"@, "--force-with-lease"@),
            ('F', "-F"@, "Force"@, "--force"@),
            ('n', "-n"@, "Dry run"@, "--dry-run"@),
            ('u', "-u"@, "Set upstream"@, "--set-upstream"@),
        ],
        TransientKind::Pull => seq![
            ('f', "-f"@, "Fast-forward only"@, "--ff-only"@),
            ('r', "-r"@, "Rebase"@, "--rebase"@),
            ('A', "-A"@, "Autostash"@, "--autostash"@),
        ],
    }
}

/// The actions of the fetch, push and pull menus, and the two columns of the
/// commit menu (create; edit HEAD): (key, label).
pub open spec fn action_table(kind: TransientKind) -> Seq<(char, Seq<char>)> {
    match kind {
        TransientKind::Fetch => seq![('p', "push-remote"@), ('u', "upstream"@), ('a', "all remotes"@)],
        TransientKind::Push => seq![('p', "push-remote"@), ('u', "upstream"@)],
        TransientKind::Pull => seq![('p', "push-remote"@), ('u', "upstream"@)],
        TransientKind::Commit => seq![('c', "Commit"@)],
    }
}

/// The commit menu's actions on HEAD.
pub open spec fn edit_head_table() -> Seq<(char, Seq<char>)> {
    seq![('e', "Extend"@), ('a', "Amend"@), ('w', "Reword"@)]
}

/// `defs` lists exactly the actions `table` holds.
pub open spec fn describes_actions(defs: Seq<ActionDef>, table: Seq<(char, Seq<char>)>) -> bool {
    &&& defs.len() == table.len()
    &&& forall|i: int|
        0 <= i < defs.len() ==> (#[trigger] defs[i]).key == table[i].0 && defs[i].label@ == table[i].1
}

fn action(key: char, label: &'static str) -> (r: ActionDef)
    ensures
        r.key == key,
        r.label == label,
{
    ActionDef { key, label }
}

/// The actions of the menu `kind` (for the commit menu, those that create a commit).
pub fn actions_of(kind: TransientKind) -> (r: Vec<ActionDef>)
    ensures
        describes_actions(r@, action_table(kind)),
{
    match kind {
        TransientKind::Commit => vec![action('c', "Commit")],
        TransientKind::Fetch => vec![action('p', "push-remote"), action('u', "upstream"), action('a', "all remotes")],
        TransientKind::Push => vec![action('p', "push-remote"), action('u', "upstream")],
        TransientKind::Pull => vec![action('p', "push-remote"), action('u', "upstream")],
    }
}

/// The commit menu's actions on HEAD.
pub fn edit_head_actions() -> (r: Vec<ActionDef>)
    ensures
        describes_actions(r@, edit_head_table()),
{
    vec![action('e', "Extend"), action('a', "Amend"), action('w', "Reword")]
}

/// `defs` lists exactly the switches of the menu `kind`.
pub open spec fn describes_flags(defs: Seq<FlagDef>, kind: TransientKind) -> bool {
    &&& defs.len() == flag_table(kind).len()
    &&& forall|i: int|
        0 <= i < defs.len() ==> {
            &&& (#[trigger] defs[i]).key == flag_table(kind)[i].0
            &&& defs[i].short@ == flag_table(kind)[i].1
            &&& defs[i].label@ == flag_table(kind)[i].2
            &&& defs[i].git_flag@ == flag_table(kind)[i].3
        }
}

/// The git arguments of the switches that are on, in table order.
pub open spec fn active_git_flags(
    table: Seq<(char, Seq<char>, Seq<char>, Seq<char>)>,
    active: Seq<bool>,
    n: nat,
) -> Seq<Seq<char>>
    decreases n,
{
    if n == 0 {
        Seq::empty()
    } else {
        let rest = active_git_flags(table, active, (n - 1) as nat);
        if active[n - 1] {
            rest.push(table[n - 1].3)
        } else {
            rest
        }
    }
}

/// Whether some switch of the table is bound to `key`.
pub open spec fn has_flag_key(table: Seq<(char, Seq<char>, Seq<char>, Seq<char>)>, key: char) -> bool {
    exists|i: int| 0 <= i < table.len() && (#[trigger] table[i]).0 == key
}

/// The switch states after pressing `key`: the switch bound to it flips.
pub open spec fn toggled(
    table: Seq<(char, Seq<char>, Seq<char>, Seq<char>)>,
    active: Seq<bool>,
    key: char,
) -> Seq<bool> {
    Seq::new(active.len(), |i: int| if table[i].0 == key { !active[i] } else { active[i] })
}

/// The switch states of a freshly opened menu: all off.
pub open spec fn all_off(n: nat) -> Seq<bool> {
    Seq::new(n, |i: int| false)
}

/// Within one menu, no two switches share a key.
pub proof fn lemma_flag_keys_distinct(kind: TransientKind)
    ensures
        forall|i: int, j: int|
            0 <= i < j < flag_table(kind).len() ==> #[trigger] flag_table(kind)[i].0
                != #[trigger] flag_table(kind)[j].0,
{
}

fn flag(key: char, short: &'static str, label: &'static str, git_flag: &'static str) -> (r: FlagDef)
    ensures
        r.key == key,
        r.short == short,
        r.label == label,
        r.git_flag == git_flag,
{
    FlagDef { key, short, label, git_flag }
}

/// The switches of the commit menu.
pub fn commit_flags() -> (r: Vec<FlagDef>)
    ensures
        describes_flags(r@, TransientKind::Commit),
{
    let v = vec![
        flag('a', "-a", "Stage all modified and deleted files", "--all"),
        flag('e', "-e", "Allow empty commit", "--allow-empty"),
        flag('v', "-v", "Show diff of changes to be committed", "--verbose"),
        flag('n', "-n", "Disable hooks", "--no-verify"),
        flag('s', "-s", "Add Signed-off-by line", "--signoff"),
    ];
    v
}

/// The switches of the fetch menu.
pub fn fetch_flags() -> (r: Vec<FlagDef>)
    ensures
        describes_flags(r@, TransientKind::Fetch),
{
    let v = vec![
        flag('p', "-p", "Prune deleted branches", "--prune"),
        flag('t', "-t", "Fetch all tags", "--tags"),
        flag('F', "-F", "Force", "--force"),
    ];
    v
}

/// The switches of the push menu.
pub fn push_flags() -> (r: Vec<FlagDef>)
    ensures
        describes_flags(r@, TransientKind::Push),
{
    let v = vec![
        flag('f', "-f", "Force with lease", "--force-with-lease"),
        flag('F', "-F", "Force", "--force"),
        flag('n', "-n", "Dry run", "--dry-run"),
        flag('u', "-u", "Set upstream", "--set-upstream"),
    ];
    v
}

/// The switches of the pull menu.
pub fn pull_flags() -> (r: Vec<FlagDef>)
    ensures
        describes_flags(r@, TransientKind::Pull),
{
    let v = vec![
        flag('f', "-f", "Fast-forward only", "--ff-only"),
        flag('r', "-r", "Rebase", "--rebase"),
        flag('A', "-A", "Autostash", "--autostash"),
    ];
    v
}

/// The switches of the menu `kind`.
pub fn flags_of(kind: TransientKind) -> (r: Vec<FlagDef>)
    ensures
        describes_flags(r@, kind),
{
    match kind {
        TransientKind::Commit => commit_flags(),
        TransientKind::Fetch => fetch_flags(),
        TransientKind::Push => push_flags(),
        TransientKind::Pull => pull_flags(),
    }
}

/// `n` switches, all off.
pub fn all_off_vec(n: usize) -> (r: Vec<bool>)
    ensures
        r@ == all_off(n as nat),
{
    let mut v: Vec<bool> = Vec::new();
    let mut i: usize = 0;
    while i < n
        invariant
            i <= n,
            v@ == all_off(i as nat),
        decreases n - i,
    {
        v.push(false);
        i = i + 1;
        assert(v@ =~= all_off(i as nat));
    }
    v
}

impl Transient {
    /// Switches and the menu kind agree in number.
    pub open spec fn wf(&self) -> bool {
        self.active_flags@.len() == flag_table(self.kind).len()
    }

    fn opened(kind: TransientKind) -> (r: Self)
        ensures
            r.kind == kind,
            r.active_flags@ == all_off(flag_table(kind).len()),
            !r.awaiting_flag,
            r.wf(),
    {
        let n = flags_of(kind).len();
        Transient { kind, active_flags: all_off_vec(n), awaiting_flag: false }
    }

    pub fn commit() -> (r: Self)
        ensures
            r.kind == TransientKind::Commit,
            r.active_flags@ == all_off(flag_table(TransientKind::Commit).len()),
            !r.awaiting_flag,
            r.wf(),
    {
        Self::opened(TransientKind::Commit)
    }

    pub fn fetch() -> (r: Self)
        ensures
            r.kind == TransientKind::Fetch,
            r.active_flags@ == all_off(flag_table(TransientKind::Fetch).len()),
            !r.awaiting_flag,
            r.wf(),
    {
        Self::opened(TransientKind::Fetch)
    }

    pub fn push() -> (r: Self)
        ensures
            r.kind == TransientKind::Push,
            r.active_flags@ == all_off(flag_table(TransientKind::Push).len()),
            !r.awaiting_flag,
            r.wf(),
    {
        Self::opened(TransientKind::Push)
    }

    pub fn pull() -> (r: Self)
        ensures
            r.kind == TransientKind::Pull,
            r.active_flags@ == all_off(flag_table(TransientKind::Pull).len()),
            !r.awaiting_flag,
            r.wf(),
    {
        Self::opened(TransientKind::Pull)
    }

    /// The git arguments of the switches that are on, in the menu's order.
    pub fn flags_vec(&self) -> (r: Vec<&'static str>)
        requires
            self.wf(),
        ensures
            r@.map_values(|s: &'static str| s@) == active_git_flags(
                flag_table(self.kind),
                self.active_flags@,
                flag_table(self.kind).len(),
            ),
    {
        let defs = self.flag_defs();
        let mut out: Vec<&'static str> = Vec::new();
        let mut i: usize = 0;
        while i < defs.len()
            invariant
                describes_flags(defs@, self.kind),
                self.wf(),
                i <= defs.len(),
                out@.map_values(|s: &'static str| s@) == active_git_flags(
                    flag_table(self.kind),
                    self.active_flags@,
                    i as nat,
                ),
            decreases defs.len() - i,
        {
            let ghost before = out@;
            if self.active_flags[i] {
                out.push(defs[i].git_flag);
                assert(out@.map_values(|s: &'static str| s@) =~= before.map_values(
                    |s: &'static str| s@,
                ).push(defs@[i as int].git_flag@));
            }
            i = i + 1;
        }
        out
    }

    /// Flips the switch bound to `key`; tells whether there is one.
    pub fn toggle_flag(&mut self, key: char) -> (r: bool)
        requires
            old(self).wf(),
        ensures
            final(self).wf(),
            r == has_flag_key(flag_table(old(self).kind), key),
            final(self).active_flags@ == toggled(
                flag_table(old(self).kind),
                old(self).active_flags@,
                key,
            ),
            final(self).kind == old(self).kind,
            final(self).awaiting_flag == old(self).awaiting_flag,
    {
        let defs = self.flag_defs();
        let ghost table = flag_table(self.kind);
        proof {
            lemma_flag_keys_distinct(self.kind);
        }
        let mut i: usize = 0;
        while i < defs.len()
            invariant
                describes_flags(defs@, self.kind),
                table == flag_table(self.kind),
                self.active_flags@ == old(self).active_flags@,
                self.kind == old(self).kind,
                self.awaiting_flag == old(self).awaiting_flag,
                self.wf(),
                i <= defs.len(),
                forall|j: int| 0 <= j < i ==> (#[trigger] table[j]).0 != key,
            decreases defs.len() - i,
        {
            if defs[i].key == key {
                let cur = self.active_flags[i];
                self.active_flags.set(i, !cur);
                assert(self.active_flags@ =~= toggled(table, old(self).active_flags@, key));
                return true;
            }
            i = i + 1;
        }
        assert(self.active_flags@ =~= toggled(table, old(self).active_flags@, key));
        false
    }

    fn flag_defs(&self) -> (r: Vec<FlagDef>)
        ensures
            describes_flags(r@, self.kind),
    {
        flags_of(self.kind)
    }
}

/// Pressing the same switch key twice leaves every switch as it was.
pub proof fn lemma_switch_twice(kind: TransientKind, active: Seq<bool>, key: char)
    ensures
        toggled(flag_table(kind), toggled(flag_table(kind), active, key), key) == active,
{
    assert(toggled(flag_table(kind), toggled(flag_table(kind), active, key), key) =~= active);
}

} // verus!
