//! What each key press does to the browser.
use vstd::prelude::*;

use crate::app::{
    cheatsheet_requested, manager_moved, status_set, tool_moved, wrap_next, wrap_prev, App, Panel,
};
use crate::text::{chars_of, push_char, string_from};

verus! {

/// A key press, as far as the browser tells keys apart.
#[derive(Debug, Clone, Copy, PartialEq, Eq, Structural)]
pub enum Key {
    Char(char),
    Esc,
    Backspace,
    Enter,
    Tab,
    Up,
    Down,
    Left,
    Right,
    Other,
}

/// What the caller must do after a key press.
#[derive(Debug)]
pub enum KeyAction {
    /// Nothing more: draw the next frame.
    Continue,
    /// Leave the browser.
    Quit,
    /// Fetch the cheatsheet of the named tool.
    LoadCheatsheet(String),
    /// Find the available managers again and reload (`App::refresh`).
    Refresh,
    /// Delete the selected tool (`App::delete_selected_tool`).
    DeleteSelected,
    /// Write a snapshot (`App::export_snapshot`).
    Export,
}

/// The command a key stands for outside search mode.
#[derive(Debug, Clone, Copy, PartialEq, Eq, Structural)]
pub enum Command {
    Quit,
    Down,
    Up,
    Left,
    Right,
    Open,
    Delete,
    Refresh,
    Search,
    Escape,
    Confirm,
    Dismiss,
    Export,
    Import,
    Help,
    Ignore,
}

/// The key bindings.
pub open spec fn command_of(key: Key, ctrl: bool) -> Command {
    match key {
        Key::Char(c) => if c == 'q' {
            Command::Quit
        } else if c == 'c' && ctrl {
            Command::Quit
        } else if c == 'j' {
            Command::Down
        } else if c == 'k' {
            Command::Up
        } else if c == 'h' {
            Command::Left
        } else if c == 'l' {
            Command::Right
        } else if c == 'd' {
            Command::Delete
        } else if c == 'r' {
            Command::Refresh
        } else if c == '/' {
            Command::Search
        } else if c == 'y' {
            Command::Confirm
        } else if c == 'n' {
            Command::Dismiss
        } else if c == 'e' {
            Command::Export
        } else if c == 'i' {
            Command::Import
        } else if c == '?' {
            Command::Help
        } else {
            Command::Ignore
        },
        Key::Down => Command::Down,
        Key::Up => Command::Up,
        Key::Left => Command::Left,
        Key::Right => Command::Right,
        Key::Tab => Command::Right,
        Key::Enter => Command::Open,
        Key::Esc => Command::Escape,
        Key::Backspace => Command::Ignore,
        Key::Other => Command::Ignore,
    }
}

/// The cheatsheet request that an action carries.
pub open spec fn action_request(a: KeyAction) -> Option<String> {
    match a {
        KeyAction::LoadCheatsheet(n) => Some(n),
        _ => None,
    }
}

/// The action is to go on, or to fetch a cheatsheet.
pub open spec fn continues(a: KeyAction) -> bool {
    a is Continue || a is LoadCheatsheet
}

/// `new` and `a` are what moving the tool selection to `to` gives (nothing
/// when no tool is shown).
pub open spec fn tool_step(old: App, to: usize, new: App, a: KeyAction) -> bool {
    &&& continues(a)
    &&& if old.current_tools_spec().len() == 0 {
        new == old && a is Continue
    } else {
        tool_moved(old, to, new, action_request(a))
    }
}

/// `new` and `a` are what focusing the cheatsheet panel gives: the
/// cheatsheet of the selected tool is asked for.
pub open spec fn cheatsheet_opened(old: App, new: App, a: KeyAction) -> bool {
    &&& continues(a)
    &&& cheatsheet_requested(App { active_panel: Panel::Cheatsheet, ..old }, new, action_request(a))
}

/// `new` and `a` are what the command `c` does in state `old` outside search
/// mode.
pub open spec fn command_applied(old: App, c: Command, new: App, a: KeyAction) -> bool {
    let n = old.current_tools_spec().len() as int;
    match c {
        Command::Quit => new == old && a is Quit,
        Command::Down => match old.active_panel {
            Panel::Managers => new == manager_moved(
                old,
                wrap_next(old.selected_manager, old.managers@.len() as int),
            ) && a is Continue,
            _ => tool_step(old, wrap_next(old.selected_tool, n), new, a),
        },
        Command::Up => match old.active_panel {
            Panel::Managers => new == manager_moved(
                old,
                wrap_prev(old.selected_manager, old.managers@.len() as int),
            ) && a is Continue,
            _ => tool_step(old, wrap_prev(old.selected_tool, n), new, a),
        },
        Command::Left => a is Continue && new == match old.active_panel {
            Panel::Managers => old,
            Panel::Tools => App { active_panel: Panel::Managers, ..old },
            Panel::Cheatsheet => App { active_panel: Panel::Tools, cheatsheet: None, ..old },
        },
        Command::Right => match old.active_panel {
            Panel::Managers => new == App { active_panel: Panel::Tools, ..old } && a is Continue,
            Panel::Tools => cheatsheet_opened(old, new, a),
            Panel::Cheatsheet => new == old && a is Continue,
        },
        Command::Open => if old.active_panel == Panel::Tools {
            cheatsheet_opened(old, new, a)
        } else {
            new == old && a is Continue
        },
        Command::Delete => a is Continue && new == if !old.show_confirm_delete
            && old.active_panel == Panel::Tools && old.selected_tool_spec() is Some {
            App { show_confirm_delete: true, ..old }
        } else {
            old
        },
        Command::Refresh => new == old && if old.show_confirm_delete {
            a is Continue
        } else {
            a is Refresh
        },
        Command::Search => new == App { search_active: true, ..old } && a is Continue,
        Command::Escape => new == App { show_confirm_delete: false, show_help: false, ..old }
            && a is Continue,
        Command::Confirm => if old.show_confirm_delete {
            new == App { show_confirm_delete: false, ..old } && a is DeleteSelected
        } else {
            new == old && a is Continue
        },
        Command::Dismiss => new == App { show_confirm_delete: false, ..old } && a is Continue,
        Command::Export => new == old && a is Export,
        Command::Import => status_set(
            old,
            "Use 'lazypkg import' from command line to import"@,
            new,
        ) && a is Continue,
        Command::Help => new == App { show_help: !old.show_help, ..old } && a is Continue,
        Command::Ignore => new == old && a is Continue,
    }
}

/// `new` and `a` are what the key press `key` (with the control modifier
/// when `ctrl`) does in state `old`. While the search is active, keys edit
/// the search: typed characters are appended, backspace removes the last
/// one, escape clears and leaves it; the first tool gets selected.
pub open spec fn key_handled(old: App, key: Key, ctrl: bool, new: App, a: KeyAction) -> bool {
    if old.search_active {
        &&& a is Continue
        &&& match key {
            Key::Esc => new.search_query@.len() == 0 && new == App {
                search_query: new.search_query,
                search_active: false,
                selected_tool: 0,
                ..old
            },
            Key::Backspace => new.search_query@ == (if old.search_query@.len() > 0 {
                old.search_query@.drop_last()
            } else {
                old.search_query@
            }) && new == App { search_query: new.search_query, selected_tool: 0, ..old },
            Key::Char(c) => new.search_query@ == old.search_query@.push(c) && new == App {
                search_query: new.search_query,
                selected_tool: 0,
                ..old
            },
            _ => new == old,
        }
    } else {
        command_applied(old, command_of(key, ctrl), new, a)
    }
}

impl Key {
    /// The command this key stands for outside search mode.
    pub fn command(&self, ctrl: bool) -> (r: Command)
        ensures
            r == command_of(*self, ctrl),
    {
        match self {
            Key::Char(c) => {
                let c = *c;
                if c == 'q' {
                    Command::Quit
                } else if c == 'c' && ctrl {
                    Command::Quit
                } else if c == 'j' {
                    Command::Down
                } else if c == 'k' {
                    Command::Up
                } else if c == 'h' {
                    Command::Left
                } else if c == 'l' {
                    Command::Right
                } else if c == 'd' {
                    Command::Delete
                } else if c == 'r' {
                    Command::Refresh
                } else if c == '/' {
                    Command::Search
                } else if c == 'y' {
                    Command::Confirm
                } else if c == 'n' {
                    Command::Dismiss
                } else if c == 'e' {
                    Command::Export
                } else if c == 'i' {
                    Command::Import
                } else if c == '?' {
                    Command::Help
                } else {
                    Command::Ignore
                }
            },
            Key::Down => Command::Down,
            Key::Up => Command::Up,
            Key::Left => Command::Left,
            Key::Right => Command::Right,
            Key::Tab => Command::Right,
            Key::Enter => Command::Open,
            Key::Esc => Command::Escape,
            Key::Backspace => Command::Ignore,
            Key::Other => Command::Ignore,
        }
    }
}

/// The action for a cheatsheet request.
fn request_to_action(r: Option<String>) -> (a: KeyAction)
    ensures
        action_request(a) == r,
        continues(a),
        r is None ==> a is Continue,
{
    match r {
        Some(n) => KeyAction::LoadCheatsheet(n),
        None => KeyAction::Continue,
    }
}

impl App {
    /// Focuses the cheatsheet panel and asks for the selected tool's cheatsheet.
    fn open_cheatsheet(&mut self) -> (a: KeyAction)
        ensures
            cheatsheet_opened(*old(self), *final(self), a),
    {
        self.active_panel = Panel::Cheatsheet;
        let r = self.load_cheatsheet();
        request_to_action(r)
    }

    /// Carries out a command outside search mode (see `command_applied`).
    pub fn apply_command(&mut self, c: Command) -> (a: KeyAction)
        ensures
            command_applied(*old(self), c, *final(self), a),
    {
        match c {
            Command::Quit => KeyAction::Quit,
            Command::Down => {
                if self.active_panel == Panel::Managers {
                    self.next_manager();
                    KeyAction::Continue
                } else {
                    let r = self.next_tool();
                    request_to_action(r)
                }
            },
            Command::Up => {
                if self.active_panel == Panel::Managers {
                    self.prev_manager();
                    KeyAction::Continue
                } else {
                    let r = self.prev_tool();
                    request_to_action(r)
                }
            },
            Command::Left => {
                match self.active_panel {
                    Panel::Managers => {},
                    Panel::Tools => {
                        self.active_panel = Panel::Managers;
                    },
                    Panel::Cheatsheet => {
                        self.active_panel = Panel::Tools;
                        self.cheatsheet = None;
                    },
                }
                KeyAction::Continue
            },
            Command::Right => {
                match self.active_panel {
                    Panel::Managers => {
                        self.active_panel = Panel::Tools;
                        KeyAction::Continue
                    },
                    Panel::Tools => self.open_cheatsheet(),
                    Panel::Cheatsheet => KeyAction::Continue,
                }
            },
            Command::Open => {
                if self.active_panel == Panel::Tools {
                    self.open_cheatsheet()
                } else {
                    KeyAction::Continue
                }
            },
            Command::Delete => {
                if !self.show_confirm_delete && self.active_panel == Panel::Tools
                    && self.selected_tool_item().is_some() {
                    self.show_confirm_delete = true;
                }
                KeyAction::Continue
            },
            Command::Refresh => {
                if !self.show_confirm_delete {
                    KeyAction::Refresh
                } else {
                    KeyAction::Continue
                }
            },
            Command::Search => {
                self.search_active = true;
                KeyAction::Continue
            },
            Command::Escape => {
                self.show_confirm_delete = false;
                self.show_help = false;
                KeyAction::Continue
            },
            Command::Confirm => {
                if self.show_confirm_delete {
                    self.show_confirm_delete = false;
                    KeyAction::DeleteSelected
                } else {
                    KeyAction::Continue
                }
            },
            Command::Dismiss => {
                if self.show_confirm_delete {
                    self.show_confirm_delete = false;
                }
                KeyAction::Continue
            },
            Command::Export => KeyAction::Export,
            Command::Import => {
                self.set_status("Use 'lazypkg import' from command line to import");
                KeyAction::Continue
            },
            Command::Help => {
                self.show_help = !self.show_help;
                KeyAction::Continue
            },
            Command::Ignore => KeyAction::Continue,
        }
    }

    /// Handles a key press (see `key_handled`); returns what the caller must
    /// do next.
    pub fn handle_key(&mut self, key: Key, ctrl: bool) -> (a: KeyAction)
        ensures
            key_handled(*old(self), key, ctrl, *final(self), a),
    {
        if self.search_active {
            match key {
                Key::Esc => {
                    self.search_query = String::new();
                    self.search_active = false;
                    self.selected_tool = 0;
                },
                Key::Backspace => {
                    let v = chars_of(self.search_query.as_str());
                    if v.len() > 0 {
                        self.search_query = string_from(&v, 0, v.len() - 1);
                        assert(v@.subrange(0, v@.len() - 1) =~= v@.drop_last());
                    }
                    self.selected_tool = 0;
                },
                Key::Char(c) => {
                    push_char(&mut self.search_query, c);
                    self.selected_tool = 0;
                },
                _ => {},
            }
            return KeyAction::Continue;
        }
        let c = key.command(ctrl);
        self.apply_command(c)
    }
}

} // verus!
