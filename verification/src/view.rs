//! The texts the browser draws: panel titles, labels, popups and the status bar.
use vstd::prelude::*;

use crate::app::App;
use crate::managers::{manager_icon, manager_name, ManagerKind};
use crate::text::{append_str, copy_string, decimal, decimal_string};

verus! {

/// The title of the tools panel: the search while one is typed or set,
/// else the number of tools shown.
pub open spec fn tools_title_spec(a: App) -> Seq<char> {
    if a.search_active || a.search_query@.len() > 0 {
        "Tools [/"@ + a.search_query@ + "]"@
    } else {
        "Tools ["@ + decimal(a.current_tools_spec().len()) + "]"@
    }
}

/// The hint shown in the status bar when there is no status message.
pub open spec fn key_hint() -> Seq<char> {
    "j/k: navigate  h/l: switch panel  d: delete  /: search  e: export  q: quit"@
}

/// The frames of the loading spinner.
pub open spec fn spinner_frames() -> Seq<Seq<char>> {
    seq!["⠋"@, "⠙"@, "⠹"@, "⠸"@, "⠼"@, "⠴"@, "⠦"@, "⠧"@, "⠇"@, "⠏"@]
}

/// The spinner frame shown at tick `tick`.
pub fn spinner_frame(tick: usize) -> (r: &'static str)
    ensures
        r@ == spinner_frames()[(tick % 10) as int],
{
    let i = tick % 10;
    if i == 0 {
        "⠋"
    } else if i == 1 {
        "⠙"
    } else if i == 2 {
        "⠹"
    } else if i == 3 {
        "⠸"
    } else if i == 4 {
        "⠼"
    } else if i == 5 {
        "⠴"
    } else if i == 6 {
        "⠦"
    } else if i == 7 {
        "⠧"
    } else if i == 8 {
        "⠇"
    } else {
        "⠏"
    }
}

/// The line shown in the tools panel while loading.
pub fn loading_text(tick: usize) -> (r: String)
    ensures
        r@ == spinner_frames()[(tick % 10) as int] + " Loading..."@,
{
    let mut r = String::new();
    append_str(&mut r, spinner_frame(tick));
    append_str(&mut r, " Loading...");
    r
}

/// A manager as listed in the managers panel: its icon and name.
pub fn manager_label(k: ManagerKind) -> (r: String)
    ensures
        r@ == manager_icon(k) + " "@ + manager_name(k),
{
    let mut r = String::new();
    append_str(&mut r, k.icon());
    append_str(&mut r, " ");
    append_str(&mut r, k.name());
    r
}

impl App {
    /// The title of the tools panel (see `tools_title_spec`).
    pub fn tools_title(&self) -> (r: String)
        ensures
            r@ == tools_title_spec(*self),
    {
        let mut r = String::new();
        if self.search_active || !self.search_query.as_str().is_empty() {
            append_str(&mut r, "Tools [/");
            append_str(&mut r, self.search_query.as_str());
            append_str(&mut r, "]");
        } else {
            let n = self.current_tools().len();
            append_str(&mut r, "Tools [");
            let d = decimal_string(n as u64);
            append_str(&mut r, d.as_str());
            append_str(&mut r, "]");
        }
        r
    }

    /// The title of the cheatsheet panel: the selected tool's name, if any.
    pub fn cheatsheet_title(&self) -> (r: String)
        ensures
            r@ == match self.selected_tool_spec() {
                Some(t) => "Cheatsheet: "@ + t.name,
                None => "Cheatsheet"@,
            },
    {
        let mut r = String::new();
        match self.selected_tool_item() {
            Some(t) => {
                append_str(&mut r, "Cheatsheet: ");
                append_str(&mut r, t.name.as_str());
            },
            None => {
                append_str(&mut r, "Cheatsheet");
            },
        }
        r
    }

    /// The question of the delete confirmation popup.
    pub fn confirm_text(&self) -> (r: String)
        ensures
            r@ == match self.selected_tool_spec() {
                Some(t) => "Delete "@ + t.name + " ("@ + t.manager + ")?\n\n[y] Yes  [n] No"@,
                None => "Delete this tool?\n\n[y] Yes  [n] No"@,
            },
    {
        let mut r = String::new();
        match self.selected_tool_item() {
            Some(t) => {
                append_str(&mut r, "Delete ");
                append_str(&mut r, t.name.as_str());
                append_str(&mut r, " (");
                append_str(&mut r, t.manager.as_str());
                append_str(&mut r, ")?\n\n[y] Yes  [n] No");
            },
            None => {
                append_str(&mut r, "Delete this tool?\n\n[y] Yes  [n] No");
            },
        }
        r
    }

    /// The text of the status bar: the status message, or the key hint.
    pub fn status_text(&self) -> (r: String)
        ensures
            r@ == match self.status_message {
                Some(m) => m@,
                None => key_hint(),
            },
    {
        match &self.status_message {
            Some(m) => copy_string(m),
            None => {
                let mut r = String::new();
                append_str(&mut r, "j/k: navigate  h/l: switch panel  d: delete  /: search  e: export  q: quit");
                r
            },
        }
    }
}

} // verus!
