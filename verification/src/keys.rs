use vstd::prelude::*;

use crate::app::{move_down_spec, move_up_spec, toggle_spec, App, AppView};
use crate::ops::discard_current_spec;
use crate::transient::{all_off, flag_table, toggled, Transient, TransientKind, TransientView};

verus! {

/// A key as the status buffer tells keys apart.
#[derive(Debug, Clone, Copy, PartialEq, Eq, Structural)]
pub enum KeyCode {
    Char(char),
    Esc,
    Tab,
    Up,
    Down,
    /// Any other key.
    Other,
}

/// A key press; `control` says that Control, and no other modifier, was held.
#[derive(Debug, Clone, Copy, PartialEq, Eq, Structural)]
pub struct KeyInput {
    pub code: KeyCode,
    pub control: bool,
}

/// What the program does after a key press.
#[derive(Debug, Clone, Copy, PartialEq, Eq, Structural)]
pub enum KeyAction {
    Continue,
    Quit,
    CommitCreate,
    CommitAmend,
    CommitReword,
    CommitExtend,
    ConfirmYes,
    FetchFromPushRemote,
    FetchFromUpstream,
    FetchAll,
    PushToPushRemote,
    PushToUpstream,
    PullFromPushRemote,
    PullFromUpstream,
    /// Stage what is under the cursor (`App::stage_current`), then reload.
    StageCurrent,
    /// Unstage what is under the cursor (`App::unstage_current`), then reload.
    UnstageCurrent,
    /// Reload the status.
    Refresh,
}

/// The action a key runs in an open menu, if it runs one.
pub open spec fn menu_action(kind: TransientKind, c: char) -> Option<KeyAction> {
    match kind {
        TransientKind::Commit => if c == 'c' {
            Some(KeyAction::CommitCreate)
        } else if c == 'a' {
            Some(KeyAction::CommitAmend)
        } else if c == 'w' {
            Some(KeyAction::CommitReword)
        } else if c == 'e' {
            Some(KeyAction::CommitExtend)
        } else {
            None
        },
        TransientKind::Fetch => if c == 'p' {
            Some(KeyAction::FetchFromPushRemote)
        } else if c == 'u' {
            Some(KeyAction::FetchFromUpstream)
        } else if c == 'a' {
            Some(KeyAction::FetchAll)
        } else {
            None
        },
        TransientKind::Push => if c == 'p' {
            Some(KeyAction::PushToPushRemote)
        } else if c == 'u' {
            Some(KeyAction::PushToUpstream)
        } else {
            None
        },
        TransientKind::Pull => if c == 'p' {
            Some(KeyAction::PullFromPushRemote)
        } else if c == 'u' {
            Some(KeyAction::PullFromUpstream)
        } else {
            None
        },
    }
}

/// A freshly opened menu.
pub open spec fn opened(kind: TransientKind) -> TransientView {
    TransientView { kind, active_flags: all_off(flag_table(kind).len()), awaiting_flag: false }
}

/// A key pressed while a menu is open: after `-` the next key flips a switch;
/// `-` waits for that key; the menu's keys run its actions; `q` and Esc close
/// it; other keys do nothing.
pub open spec fn menu_key_spec(v: AppView, t: TransientView, key: KeyInput) -> (AppView, KeyAction) {
    if t.awaiting_flag {
        let flags = match key.code {
            KeyCode::Char(c) => toggled(flag_table(t.kind), t.active_flags, c),
            _ => t.active_flags,
        };
        (
            AppView {
                transient: Some(TransientView { awaiting_flag: false, active_flags: flags, ..t }),
                ..v
            },
            KeyAction::Continue,
        )
    } else {
        match key.code {
            KeyCode::Char(c) => if c == '-' {
                (
                    AppView { transient: Some(TransientView { awaiting_flag: true, ..t }), ..v },
                    KeyAction::Continue,
                )
            } else {
                match menu_action(t.kind, c) {
                    Some(a) => (v, a),
                    None => if c == 'q' {
                        (AppView { transient: None, ..v }, KeyAction::Continue)
                    } else {
                        (v, KeyAction::Continue)
                    },
                }
            },
            KeyCode::Esc => (AppView { transient: None, ..v }, KeyAction::Continue),
            _ => (v, KeyAction::Continue),
        }
    }
}

/// A key pressed in the status buffer itself.
pub open spec fn buffer_key_spec(v: AppView, key: KeyInput) -> (AppView, KeyAction) {
    match key.code {
        KeyCode::Esc => (v, KeyAction::Quit),
        KeyCode::Down => (move_down_spec(v), KeyAction::Continue),
        KeyCode::Up => (move_up_spec(v), KeyAction::Continue),
        KeyCode::Tab => (toggle_spec(v), KeyAction::Continue),
        KeyCode::Char(c) => if c == 'q' || (c == 'c' && key.control) {
            (v, KeyAction::Quit)
        } else if c == 'j' {
            (move_down_spec(v), KeyAction::Continue)
        } else if c == 'k' {
            (move_up_spec(v), KeyAction::Continue)
        } else if c == 's' {
            (v, KeyAction::StageCurrent)
        } else if c == 'u' {
            (v, KeyAction::UnstageCurrent)
        } else if c == 'g' {
            (v, KeyAction::Refresh)
        } else if c == 'x' {
            (discard_current_spec(v), KeyAction::Continue)
        } else if c == 'c' {
            (AppView { transient: Some(opened(TransientKind::Commit)), ..v }, KeyAction::Continue)
        } else if c == 'f' {
            (AppView { transient: Some(opened(TransientKind::Fetch)), ..v }, KeyAction::Continue)
        } else if c == 'p' || c == 'P' {
            (AppView { transient: Some(opened(TransientKind::Push)), ..v }, KeyAction::Continue)
        } else if c == 'F' {
            (AppView { transient: Some(opened(TransientKind::Pull)), ..v }, KeyAction::Continue)
        } else if c == '?' {
            (AppView { show_help: true, ..v }, KeyAction::Continue)
        } else {
            (v, KeyAction::Continue)
        },
        KeyCode::Other => (v, KeyAction::Continue),
    }
}

/// What a key press does: the message goes; a pending question takes `y` as
/// yes and anything else as no; open help closes on any key; an open menu takes
/// the key; else the buffer does.
pub open spec fn handle_spec(v0: AppView, key: KeyInput) -> (AppView, KeyAction) {
    let v = AppView { message: None, ..v0 };
    if v.confirm is Some {
        if key.code == KeyCode::Char('y') {
            (v, KeyAction::ConfirmYes)
        } else {
            (AppView { confirm: None, ..v }, KeyAction::Continue)
        }
    } else if v.show_help {
        (AppView { show_help: false, ..v }, KeyAction::Continue)
    } else if v.transient is Some {
        menu_key_spec(v, v.transient->0, key)
    } else {
        buffer_key_spec(v, key)
    }
}

fn menu_action_of(kind: TransientKind, c: char) -> (r: Option<KeyAction>)
    ensures
        r == menu_action(kind, c),
{
    match kind {
        TransientKind::Commit => if c == 'c' {
            Some(KeyAction::CommitCreate)
        } else if c == 'a' {
            Some(KeyAction::CommitAmend)
        } else if c == 'w' {
            Some(KeyAction::CommitReword)
        } else if c == 'e' {
            Some(KeyAction::CommitExtend)
        } else {
            None
        },
        TransientKind::Fetch => if c == 'p' {
            Some(KeyAction::FetchFromPushRemote)
        } else if c == 'u' {
            Some(KeyAction::FetchFromUpstream)
        } else if c == 'a' {
            Some(KeyAction::FetchAll)
        } else {
            None
        },
        TransientKind::Push => if c == 'p' {
            Some(KeyAction::PushToPushRemote)
        } else if c == 'u' {
            Some(KeyAction::PushToUpstream)
        } else {
            None
        },
        TransientKind::Pull => if c == 'p' {
            Some(KeyAction::PullFromPushRemote)
        } else if c == 'u' {
            Some(KeyAction::PullFromUpstream)
        } else {
            None
        },
    }
}

fn menu_key(app: &mut App, key: KeyInput) -> (r: KeyAction)
    requires
        old(app)@.wf(),
        old(app).transient is Some,
    ensures
        (final(app)@, r) == menu_key_spec(old(app)@, old(app)@.transient->0, key),
        final(app)@.wf(),
{
    let ghost v = app@;
    let mut t = app.transient.take().unwrap();
    let ghost tv = t@;
    assert(v.transient == Some(tv));
    if t.awaiting_flag {
        t.awaiting_flag = false;
        match key.code {
            KeyCode::Char(c) => {
                t.toggle_flag(c);
            },
            _ => {},
        }
        app.transient = Some(t);
        return KeyAction::Continue;
    }
    match key.code {
        KeyCode::Char(c) => {
            if c == '-' {
                t.awaiting_flag = true;
                app.transient = Some(t);
                KeyAction::Continue
            } else {
                match menu_action_of(t.kind, c) {
                    Some(a) => {
                        app.transient = Some(t);
                        a
                    },
                    None => {
                        if c != 'q' {
                            app.transient = Some(t);
                        }
                        KeyAction::Continue
                    },
                }
            }
        },
        KeyCode::Esc => KeyAction::Continue,
        _ => {
            app.transient = Some(t);
            KeyAction::Continue
        },
    }
}

/// Updates the buffer for a key press and tells what the program does next
/// (see `handle_spec`).
pub fn handle(app: &mut App, key: KeyInput) -> (r: KeyAction)
    requires
        old(app)@.wf(),
    ensures
        (final(app)@, r) == handle_spec(old(app)@, key),
        final(app)@.wf(),
{
    app.message = None;
    if app.confirm.is_some() {
        if key.code == KeyCode::Char('y') {
            return KeyAction::ConfirmYes;
        }
        app.confirm = None;
        return KeyAction::Continue;
    }
    if app.show_help {
        app.show_help = false;
        return KeyAction::Continue;
    }
    if app.transient.is_some() {
        return menu_key(app, key);
    }
    match key.code {
        KeyCode::Esc => KeyAction::Quit,
        KeyCode::Down => {
            app.move_down();
            KeyAction::Continue
        },
        KeyCode::Up => {
            app.move_up();
            KeyAction::Continue
        },
        KeyCode::Tab => {
            app.toggle_collapse();
            KeyAction::Continue
        },
        KeyCode::Char(c) => {
            if c == 'q' || (c == 'c' && key.control) {
                KeyAction::Quit
            } else if c == 'j' {
                app.move_down();
                KeyAction::Continue
            } else if c == 'k' {
                app.move_up();
                KeyAction::Continue
            } else if c == 's' {
                KeyAction::StageCurrent
            } else if c == 'u' {
                KeyAction::UnstageCurrent
            } else if c == 'g' {
                KeyAction::Refresh
            } else if c == 'x' {
                app.discard_current();
                KeyAction::Continue
            } else if c == 'c' {
                app.transient = Some(Transient::commit());
                KeyAction::Continue
            } else if c == 'f' {
                app.transient = Some(Transient::fetch());
                KeyAction::Continue
            } else if c == 'p' || c == 'P' {
                app.transient = Some(Transient::push());
                KeyAction::Continue
            } else if c == 'F' {
                app.transient = Some(Transient::pull());
                KeyAction::Continue
            } else if c == '?' {
                app.show_help = true;
                KeyAction::Continue
            } else {
                KeyAction::Continue
            }
        },
        KeyCode::Other => KeyAction::Continue,
    }
}

} // verus!
