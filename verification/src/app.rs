//! The state of the terminal browser and every decision it takes on its own:
//! navigation, search, loading, deletion and status messages.
use vstd::prelude::*;

use crate::managers::{
    all_kinds, copy_tool, kind_named, manager_name, views, ManagerKind, Tool, ToolView,
};
use crate::text::{
    append_str, chars_of, contains_chars, contains_seq, copy_string, lowercase, to_lowercase,
};

verus! {

/// What a background job reports back to the browser.
#[derive(Debug)]
pub enum AppEvent {
    /// A manager's listing finished: its tools, or the error message.
    ManagerLoaded(ManagerKind, Result<Vec<Tool>, String>),
    /// The cheatsheet of the named tool was fetched.
    CheatsheetLoaded(String, String),
}

/// The panel that has the keyboard focus.
#[derive(Debug, Clone, Copy, PartialEq, Eq, Structural)]
pub enum Panel {
    Managers,
    Tools,
    Cheatsheet,
}

/// The installed tools of each manager whose listing has arrived.
#[derive(Debug)]
pub struct ToolTable {
    cargo: Option<Vec<Tool>>,
    dnf: Option<Vec<Tool>>,
    pipx: Option<Vec<Tool>>,
    pip: Option<Vec<Tool>>,
    npm: Option<Vec<Tool>>,
    pnpm: Option<Vec<Tool>>,
}

impl ToolTable {
    /// The listing stored for a manager.
    pub closed spec fn slot(&self, k: ManagerKind) -> Option<Vec<Tool>> {
        match k {
            ManagerKind::Cargo => self.cargo,
            ManagerKind::Dnf => self.dnf,
            ManagerKind::Pipx => self.pipx,
            ManagerKind::Pip => self.pip,
            ManagerKind::Npm => self.npm,
            ManagerKind::Pnpm => self.pnpm,
        }
    }
}

impl View for ToolTable {
    type V = Map<ManagerKind, Seq<ToolView>>;

    closed spec fn view(&self) -> Map<ManagerKind, Seq<ToolView>> {
        Map::new(|k: ManagerKind| self.slot(k) is Some, |k: ManagerKind| views(self.slot(k)->0@))
    }
}

impl ToolTable {
    /// A table with no listing.
    pub fn new() -> (r: Self)
        ensures
            r@ == Map::<ManagerKind, Seq<ToolView>>::empty(),
    {
        let r = ToolTable { cargo: None, dnf: None, pipx: None, pip: None, npm: None, pnpm: None };
        assert(r@ =~= Map::<ManagerKind, Seq<ToolView>>::empty());
        r
    }

    /// The listing of a manager, if it arrived.
    pub fn get(&self, k: ManagerKind) -> (r: Option<&Vec<Tool>>)
        ensures
            r is Some <==> self@.contains_key(k),
            r matches Some(v) ==> self@[k] == views(v@),
    {
        let slot = match k {
            ManagerKind::Cargo => &self.cargo,
            ManagerKind::Dnf => &self.dnf,
            ManagerKind::Pipx => &self.pipx,
            ManagerKind::Pip => &self.pip,
            ManagerKind::Npm => &self.npm,
            ManagerKind::Pnpm => &self.pnpm,
        };
        match slot {
            Some(v) => Some(v),
            None => None,
        }
    }

    /// Stores the listing of a manager, replacing an earlier one.
    pub fn insert(&mut self, k: ManagerKind, tools: Vec<Tool>)
        ensures
            final(self)@ == old(self)@.insert(k, views(tools@)),
    {
        let ghost t = tools@;
        match k {
            ManagerKind::Cargo => self.cargo = Some(tools),
            ManagerKind::Dnf => self.dnf = Some(tools),
            ManagerKind::Pipx => self.pipx = Some(tools),
            ManagerKind::Pip => self.pip = Some(tools),
            ManagerKind::Npm => self.npm = Some(tools),
            ManagerKind::Pnpm => self.pnpm = Some(tools),
        }
        assert(self@ =~= old(self)@.insert(k, views(t)));
    }

    /// Forgets every listing.
    pub fn clear(&mut self)
        ensures
            final(self)@ == Map::<ManagerKind, Seq<ToolView>>::empty(),
    {
        *self = ToolTable::new();
    }

    /// Removes the tools named `name` from a manager's listing, if it arrived.
    pub fn remove_named(&mut self, k: ManagerKind, name: &str)
        ensures
            final(self)@ == if old(self)@.contains_key(k) {
                old(self)@.insert(k, old(self)@[k].filter(|t: ToolView| t.name != name@))
            } else {
                old(self)@
            },
    {
        let current = match k {
            ManagerKind::Cargo => self.cargo.take(),
            ManagerKind::Dnf => self.dnf.take(),
            ManagerKind::Pipx => self.pipx.take(),
            ManagerKind::Pip => self.pip.take(),
            ManagerKind::Npm => self.npm.take(),
            ManagerKind::Pnpm => self.pnpm.take(),
        };
        let ghost before = old(self)@;
        match current {
            Some(tools) => {
                assert(before.contains_key(k) && before[k] == views(tools@));
                let kept = keep_not_named(tools, name);
                self.insert(k, kept);
                assert(self@ =~= before.insert(k, before[k].filter(|t: ToolView| t.name != name@)));
            },
            None => {
                assert(self@ =~= before);
            },
        }
    }
}

/// The tools not named `name`, in order.
fn keep_not_named(tools: Vec<Tool>, name: &str) -> (r: Vec<Tool>)
    ensures
        views(r@) == views(tools@).filter(|t: ToolView| t.name != name@),
{
    let ghost pred = |t: ToolView| t.name != name@;
    let ghost tv = views(tools@);
    let mut out: Vec<Tool> = Vec::new();
    let mut i: usize = 0;
    while i < tools.len()
        invariant
            i <= tools.len(),
            tv == views(tools@),
            pred == (|t: ToolView| t.name != name@),
            views(out@) == tv.take(i as int).filter(pred),
        decreases tools.len() - i,
    {
        proof {
            tv.take(i as int).lemma_filter_push(tv[i as int], pred);
            assert(tv.take(i as int).push(tv[i as int]) =~= tv.take(i + 1));
        }
        let ghost before = views(out@);
        if !crate::text::str_eq(tools[i].name.as_str(), name) {
            out.push(copy_tool(&tools[i]));
            assert(views(out@) =~= before.push(tv[i as int]));
        }
        i = i + 1;
    }
    assert(tv.take(tools.len() as int) =~= tv);
    out
}

/// `t` matches the search `query`: its lower-cased name contains the
/// lower-cased query (every tool matches an empty query).
pub open spec fn matches_query(t: ToolView, query: Seq<char>) -> bool {
    contains_seq(lowercase(t.name), lowercase(query))
}

/// The state of the browser.
pub struct App {
    pub managers: Vec<ManagerKind>,
    pub tools_by_manager: ToolTable,
    pub selected_manager: usize,
    pub selected_tool: usize,
    pub active_panel: Panel,
    pub cheatsheet: Option<String>,
    pub search_query: String,
    pub search_active: bool,
    pub show_confirm_delete: bool,
    pub show_help: bool,
    pub status_message: Option<String>,
    pub loading: bool,
    pub status_shown: bool,
    pub spinner_tick: usize,
    pub managers_loading: usize,
}

impl App {
    /// The selected manager, if the selection points at one.
    pub open spec fn current_manager_spec(&self) -> Option<ManagerKind> {
        if self.selected_manager < self.managers@.len() {
            Some(self.managers@[self.selected_manager as int])
        } else {
            None
        }
    }

    /// The tools shown: those of the selected manager that match the search.
    pub open spec fn current_tools_spec(&self) -> Seq<ToolView> {
        match self.current_manager_spec() {
            Some(k) => if self.tools_by_manager@.contains_key(k) {
                self.tools_by_manager@[k].filter(|t: ToolView| matches_query(t, self.search_query@))
            } else {
                Seq::empty()
            },
            None => Seq::empty(),
        }
    }

    /// The selected tool, if the selection points at one of the tools shown.
    pub open spec fn selected_tool_spec(&self) -> Option<ToolView> {
        if self.selected_tool < self.current_tools_spec().len() {
            Some(self.current_tools_spec()[self.selected_tool as int])
        } else {
            None
        }
    }

    /// A fresh browser: nothing loaded, the managers panel focused.
    pub fn new() -> (r: App)
        ensures
            r.managers@.len() == 0,
            r.tools_by_manager@ == Map::<ManagerKind, Seq<ToolView>>::empty(),
            r.selected_manager == 0,
            r.selected_tool == 0,
            r.active_panel == Panel::Managers,
            r.cheatsheet is None,
            r.search_query@.len() == 0,
            !r.search_active,
            !r.show_confirm_delete,
            !r.show_help,
            r.status_message is None,
            !r.loading,
            !r.status_shown,
            r.spinner_tick == 0,
            r.managers_loading == 0,
    {
        App {
            managers: Vec::new(),
            tools_by_manager: ToolTable::new(),
            selected_manager: 0,
            selected_tool: 0,
            active_panel: Panel::Managers,
            cheatsheet: None,
            search_query: String::new(),
            search_active: false,
            show_confirm_delete: false,
            show_help: false,
            status_message: None,
            loading: false,
            status_shown: false,
            spinner_tick: 0,
            managers_loading: 0,
        }
    }

    /// The selected manager.
    pub fn current_manager(&self) -> (r: Option<ManagerKind>)
        ensures
            r == self.current_manager_spec(),
    {
        if self.selected_manager < self.managers.len() {
            Some(self.managers[self.selected_manager])
        } else {
            None
        }
    }

    /// The tools shown in the tools panel.
    pub fn current_tools(&self) -> (r: Vec<Tool>)
        ensures
            views(r@) == self.current_tools_spec(),
    {
        let k = match self.current_manager() {
            Some(k) => k,
            None => {
                return Vec::new();
            },
        };
        let tools = match self.tools_by_manager.get(k) {
            Some(t) => t,
            None => {
                return Vec::new();
            },
        };
        let ghost pred = |t: ToolView| matches_query(t, self.search_query@);
        let ghost tv = views(tools@);
        let q = to_lowercase(self.search_query.as_str());
        let qv = chars_of(q.as_str());
        let mut out: Vec<Tool> = Vec::new();
        let mut i: usize = 0;
        while i < tools.len()
            invariant
                i <= tools.len(),
                tv == views(tools@),
                qv@ == lowercase(self.search_query@),
                pred == (|t: ToolView| matches_query(t, self.search_query@)),
                views(out@) == tv.take(i as int).filter(pred),
            decreases tools.len() - i,
        {
            proof {
                tv.take(i as int).lemma_filter_push(tv[i as int], pred);
                assert(tv.take(i as int).push(tv[i as int]) =~= tv.take(i + 1));
            }
            let ghost before = views(out@);
            let lower = to_lowercase(tools[i].name.as_str());
            let lv = chars_of(lower.as_str());
            if contains_chars(&lv, &qv) {
                out.push(copy_tool(&tools[i]));
                assert(views(out@) =~= before.push(tv[i as int]));
            }
            i = i + 1;
        }
        assert(tv.take(tools.len() as int) =~= tv);
        out
    }

    /// The selected tool, if any.
    pub fn selected_tool_item(&self) -> (r: Option<Tool>)
        ensures
            match r {
                Some(t) => self.selected_tool_spec() == Some(t@),
                None => self.selected_tool_spec() is None,
            },
    {
        let tools = self.current_tools();
        if self.selected_tool < tools.len() {
            Some(copy_tool(&tools[self.selected_tool]))
        } else {
            None
        }
    }
}

/// The position after `i` in a list of `n` entries, wrapping to the first.
pub open spec fn wrap_next(i: usize, n: int) -> usize {
    if i + 1 < n {
        (i + 1) as usize
    } else {
        0
    }
}

/// The position before `i` in a list of `n` entries, wrapping to the last.
pub open spec fn wrap_prev(i: usize, n: int) -> usize {
    if i > 0 {
        (i - 1) as usize
    } else {
        (n - 1) as usize
    }
}

/// `old` after selecting the manager at `to` (nothing when there is none).
pub open spec fn manager_moved(old: App, to: usize) -> App {
    if old.managers@.len() == 0 {
        old
    } else {
        App { selected_manager: to, selected_tool: 0, cheatsheet: None, ..old }
    }
}

/// `new` is `old` one frame on: a message that was shown is cleared, a
/// message not shown yet is marked shown, and nothing else changes.
pub open spec fn status_ticked(old: App, new: App) -> bool {
    if old.status_shown {
        new == App { status_message: None, status_shown: false, ..old }
    } else if old.status_message is Some {
        new == App { status_shown: true, ..old }
    } else {
        new == old
    }
}

/// `new` and `r` are what asking for the cheatsheet in state `old` gives:
/// when none is shown and a tool is selected, loading starts and the tool's
/// name is the request; otherwise nothing happens.
pub open spec fn cheatsheet_requested(old: App, new: App, r: Option<String>) -> bool {
    if old.cheatsheet is None && old.selected_tool_spec() is Some {
        &&& new == App { loading: true, ..old }
        &&& r matches Some(n) && n@ == old.selected_tool_spec()->0.name
    } else {
        &&& new == old
        &&& r is None
    }
}

/// `new` and `r` are what moving the tool selection to `to` in state `old`
/// gives: the cheatsheet is dropped, and requested again while the tools
/// panel has the focus.
pub open spec fn tool_moved(old: App, to: usize, new: App, r: Option<String>) -> bool {
    let mid = App { selected_tool: to, cheatsheet: None, ..old };
    if old.active_panel == Panel::Tools {
        cheatsheet_requested(mid, new, r)
    } else {
        new == mid && r is None
    }
}

impl App {
    /// Asks for the cheatsheet of the selected tool: the name of the tool
    /// whose cheatsheet must be fetched, if any (see `cheatsheet_requested`).
    pub fn load_cheatsheet(&mut self) -> (r: Option<String>)
        ensures
            cheatsheet_requested(*old(self), *final(self), r),
    {
        if self.cheatsheet.is_some() {
            return None;
        }
        match self.selected_tool_item() {
            Some(tool) => {
                self.cheatsheet = None;
                self.loading = true;
                Some(tool.name)
            },
            None => None,
        }
    }

    /// Selects the next tool, after the last the first; may ask for its
    /// cheatsheet.
    pub fn next_tool(&mut self) -> (r: Option<String>)
        ensures
            old(self).current_tools_spec().len() == 0 ==> *final(self) == *old(self) && r is None,
            old(self).current_tools_spec().len() > 0 ==> tool_moved(
                *old(self),
                wrap_next(old(self).selected_tool, old(self).current_tools_spec().len() as int),
                *final(self),
                r,
            ),
    {
        let count = self.current_tools().len();
        if count == 0 {
            return None;
        }
        if self.selected_tool < count - 1 {
            self.selected_tool = self.selected_tool + 1;
        } else {
            self.selected_tool = 0;
        }
        self.cheatsheet = None;
        if self.active_panel == Panel::Tools {
            self.load_cheatsheet()
        } else {
            None
        }
    }

    /// Selects the previous tool, before the first the last; may ask for its
    /// cheatsheet.
    pub fn prev_tool(&mut self) -> (r: Option<String>)
        ensures
            old(self).current_tools_spec().len() == 0 ==> *final(self) == *old(self) && r is None,
            old(self).current_tools_spec().len() > 0 ==> tool_moved(
                *old(self),
                wrap_prev(old(self).selected_tool, old(self).current_tools_spec().len() as int),
                *final(self),
                r,
            ),
    {
        let count = self.current_tools().len();
        if count == 0 {
            return None;
        }
        if self.selected_tool > 0 {
            self.selected_tool = self.selected_tool - 1;
        } else {
            self.selected_tool = count - 1;
        }
        self.cheatsheet = None;
        if self.active_panel == Panel::Tools {
            self.load_cheatsheet()
        } else {
            None
        }
    }

    /// Selects the next manager, after the last the first; the tool
    /// selection goes back to the top and the cheatsheet is dropped.
    pub fn next_manager(&mut self)
        ensures
            *final(self) == manager_moved(
                *old(self),
                wrap_next(old(self).selected_manager, old(self).managers@.len() as int),
            ),
    {
        let count = self.managers.len();
        if count == 0 {
            return;
        }
        if self.selected_manager < count - 1 {
            self.selected_manager = self.selected_manager + 1;
        } else {
            self.selected_manager = 0;
        }
        self.selected_tool = 0;
        self.cheatsheet = None;
    }

    /// Selects the previous manager, before the first the last; the tool
    /// selection goes back to the top and the cheatsheet is dropped.
    pub fn prev_manager(&mut self)
        ensures
            *final(self) == manager_moved(
                *old(self),
                wrap_prev(old(self).selected_manager, old(self).managers@.len() as int),
            ),
    {
        let count = self.managers.len();
        if count == 0 {
            return;
        }
        if self.selected_manager > 0 {
            self.selected_manager = self.selected_manager - 1;
        } else {
            self.selected_manager = count - 1;
        }
        self.selected_tool = 0;
        self.cheatsheet = None;
    }

    /// Called once per frame: a status message stays for one frame, then is
    /// cleared on the next (see `status_ticked`).
    pub fn maybe_clear_status(&mut self)
        ensures
            status_ticked(*old(self), *final(self)),
    {
        if self.status_shown {
            self.status_message = None;
            self.status_shown = false;
        } else if self.status_message.is_some() {
            self.status_shown = true;
        }
    }

    /// Advances the loading spinner while something loads (wrapping around).
    pub fn tick_spinner(&mut self)
        ensures
            old(self).loading ==> *final(self) == (App {
                spinner_tick: if old(self).spinner_tick == usize::MAX {
                    0
                } else {
                    (old(self).spinner_tick + 1) as usize
                },
                ..*old(self)
            }),
            !old(self).loading ==> *final(self) == *old(self),
    {
        if self.loading {
            self.spinner_tick = self.spinner_tick.wrapping_add(1);
        }
    }
}

/// The managers whose availability flag is set, among the first `n` of
/// `all_kinds()` (a missing flag counts as unavailable).
pub open spec fn available_upto(flags: Seq<bool>, n: int) -> Seq<ManagerKind>
    decreases n,
{
    if n <= 0 {
        Seq::empty()
    } else {
        let prev = available_upto(flags, n - 1);
        if n - 1 < flags.len() && flags[n - 1] {
            prev.push(all_kinds()[n - 1])
        } else {
            prev
        }
    }
}

/// The available managers, in display order; `flags[i]` tells whether
/// `all_kinds()[i]` is available.
pub open spec fn available_managers(flags: Seq<bool>) -> Seq<ManagerKind> {
    available_upto(flags, 6)
}

/// `new` is `old` after loading started for the managers `ms`: the listings
/// are forgotten, one load per manager is pending, and loading shows while
/// any is.
pub open spec fn loading_started(old: App, ms: Seq<ManagerKind>, new: App) -> bool {
    &&& new.managers@ == ms
    &&& new.tools_by_manager@ == Map::<ManagerKind, Seq<ToolView>>::empty()
    &&& new == App {
        managers: new.managers,
        tools_by_manager: new.tools_by_manager,
        managers_loading: ms.len() as usize,
        loading: ms.len() > 0,
        ..old
    }
}

impl App {
    /// Starts loading: keeps the available managers (`available[i]` tells
    /// whether the `i`-th of `all_managers()` is) and returns them; the
    /// caller lists each and reports back with `AppEvent::ManagerLoaded`.
    pub fn load_tools(&mut self, available: &Vec<bool>) -> (r: Vec<ManagerKind>)
        ensures
            r@ == available_managers(available@),
            loading_started(*old(self), r@, *final(self)),
    {
        let all = crate::managers::all_managers();
        let mut ms: Vec<ManagerKind> = Vec::new();
        let mut again: Vec<ManagerKind> = Vec::new();
        let mut i: usize = 0;
        while i < all.len()
            invariant
                all@ == all_kinds(),
                i <= all.len(),
                ms@ == available_upto(available@, i as int),
                again@ == ms@,
            decreases all.len() - i,
        {
            if i < available.len() && available[i] {
                ms.push(all[i]);
                again.push(all[i]);
            }
            i = i + 1;
        }
        self.loading = true;
        let n = ms.len();
        self.managers = ms;
        self.tools_by_manager.clear();
        self.managers_loading = n;
        if n == 0 {
            self.loading = false;
        }
        again
    }

    /// Clears the search, selects the first tool and starts loading again
    /// (see `load_tools`).
    pub fn refresh(&mut self, available: &Vec<bool>) -> (r: Vec<ManagerKind>)
        ensures
            r@ == available_managers(available@),
            final(self).search_query@.len() == 0,
            loading_started(
                App {
                    search_query: final(self).search_query,
                    search_active: false,
                    selected_tool: 0,
                    ..*old(self)
                },
                r@,
                *final(self),
            ),
    {
        self.search_query = String::new();
        self.search_active = false;
        self.selected_tool = 0;
        self.load_tools(available)
    }
}

/// `new` and `r` are what handling the event `ev` in state `old` gives.
///
/// A finished listing is stored for its manager (an empty one, with the error
/// as status message, when it failed) and counts down the pending loads;
/// when none is left, loading stops and the cheatsheet of the selected tool
/// is asked for. A fetched cheatsheet is shown if it belongs to the selected
/// tool, and is dropped otherwise.
#[verifier::opaque]
pub open spec fn event_applied(old: App, ev: AppEvent, new: App, r: Option<String>) -> bool {
    match ev {
        AppEvent::ManagerLoaded(k, result) => {
            let count: usize = if old.managers_loading > 0 {
                (old.managers_loading - 1) as usize
            } else {
                0
            };
            let mid = App {
                managers_loading: count,
                tools_by_manager: new.tools_by_manager,
                status_message: new.status_message,
                ..old
            };
            &&& match result {
                Ok(tools) => {
                    &&& new.tools_by_manager@ == old.tools_by_manager@.insert(k, views(tools@))
                    &&& new.status_message == old.status_message
                },
                Err(e) => {
                    &&& new.tools_by_manager@ == old.tools_by_manager@.insert(k, Seq::empty())
                    &&& new.status_message matches Some(m) && m@ == manager_name(k) + ": "@ + e@
                },
            }
            &&& if count == 0 {
                cheatsheet_requested(App { loading: false, ..mid }, new, r)
            } else {
                new == mid && r is None
            }
        },
        AppEvent::CheatsheetLoaded(name, content) => {
            &&& r is None
            &&& if old.selected_tool_spec() matches Some(t) && t.name == name@ {
                new == App { cheatsheet: Some(content), loading: false, ..old }
            } else {
                new == old
            }
        },
    }
}

/// `new` and `reqs` are what handling the events `evs` one after the other
/// in state `old` gives, `reqs` holding the cheatsheet requests in order.
pub open spec fn events_applied(old: App, evs: Seq<AppEvent>, new: App, reqs: Seq<String>) -> bool {
    exists|states: Seq<App>, rs: Seq<Option<String>>|
        #[trigger] trace_fits(old, evs, new, reqs, states, rs)
}

/// `states` and `rs` witness `events_applied`.
pub open spec fn trace_fits(
    old: App,
    evs: Seq<AppEvent>,
    new: App,
    reqs: Seq<String>,
    states: Seq<App>,
    rs: Seq<Option<String>>,
) -> bool {
    &&& states.len() == evs.len() + 1
    &&& rs.len() == evs.len()
    &&& states[0] == old
    &&& states[evs.len() as int] == new
    &&& forall|i: int|
        0 <= i < evs.len() ==> event_applied(#[trigger] states[i], evs[i], states[i + 1], rs[i])
    &&& reqs == rs.filter_map(|o: Option<String>| o)
}

impl App {
    /// Handles one event from a background job; returns the name of a tool
    /// whose cheatsheet must now be fetched, if any (see `event_applied`).
    pub fn handle_event(&mut self, event: AppEvent) -> (r: Option<String>)
        ensures
            event_applied(*old(self), event, *final(self), r),
    {
        reveal(event_applied);
        match event {
            AppEvent::ManagerLoaded(k, result) => {
                self.managers_loading = if self.managers_loading > 0 {
                    self.managers_loading - 1
                } else {
                    0
                };
                match result {
                    Ok(tools) => {
                        self.tools_by_manager.insert(k, tools);
                    },
                    Err(e) => {
                        let mut msg = String::new();
                        append_str(&mut msg, k.name());
                        append_str(&mut msg, ": ");
                        append_str(&mut msg, e.as_str());
                        self.status_message = Some(msg);
                        let empty: Vec<Tool> = Vec::new();
                        assert(views(empty@) =~= Seq::<ToolView>::empty());
                        self.tools_by_manager.insert(k, empty);
                    },
                }
                if self.managers_loading == 0 {
                    self.loading = false;
                    self.load_cheatsheet()
                } else {
                    None
                }
            },
            AppEvent::CheatsheetLoaded(tool_name, content) => {
                match self.selected_tool_item() {
                    Some(t) => {
                        if crate::text::str_eq(t.name.as_str(), tool_name.as_str()) {
                            self.cheatsheet = Some(content);
                            self.loading = false;
                        }
                    },
                    None => {},
                }
                None
            },
        }
    }

    /// Handles the events in order; returns the names of the tools whose
    /// cheatsheets must now be fetched (see `events_applied`).
    pub fn handle_events(&mut self, events: Vec<AppEvent>) -> (r: Vec<String>)
        ensures
            events_applied(*old(self), events@, *final(self), r@),
    {
        let ghost evs = events@;
        let ghost mut states: Seq<App> = seq![*self];
        let ghost mut rs: Seq<Option<String>> = Seq::empty();
        let ghost f = |o: Option<String>| o;
        let mut rest = events;
        let mut reqs: Vec<String> = Vec::new();
        let ghost mut k: int = 0;
        while rest.len() > 0
            invariant
                0 <= k <= evs.len(),
                rest@ == evs.skip(k),
                states.len() == k + 1,
                rs.len() == k,
                states[0] == *old(self),
                states[k] == *self,
                forall|i: int|
                    0 <= i < k ==> event_applied(#[trigger] states[i], evs[i], states[i + 1], rs[i]),
                f == (|o: Option<String>| o),
                reqs@ == rs.filter_map(f),
            decreases rest.len(),
        {
            let ev = rest.remove(0);
            assert(ev == evs[k]);
            let ghost before = *self;
            let r = self.handle_event(ev);
            proof {
                assert(rs.push(r).drop_last() =~= rs);
                states = states.push(*self);
                rs = rs.push(r);
            }
            match r {
                Some(name) => {
                    reqs.push(name);
                },
                None => {},
            }
            assert(reqs@ =~= rs.filter_map(f));
            assert(rest@ =~= evs.skip(k + 1));
            proof {
                k = k + 1;
            }
        }
        assert(trace_fits(*old(self), evs, *self, reqs@, states, rs));
        reqs
    }
}

/// Why the selected tool could not be deleted.
#[derive(Debug)]
pub enum DeleteError {
    /// No manager of the browser has the tool's manager name.
    ManagerNotFound(String),
    /// The manager's listing holds no tool of that name.
    ToolNotFound(String),
    /// Uninstalling failed, with this message.
    Uninstall(String),
}

impl DeleteError {
    /// The message shown for the error.
    pub fn message(&self) -> (r: String)
        ensures
            r@ == match self {
                DeleteError::ManagerNotFound(m) => "Manager not found: "@ + m@,
                DeleteError::ToolNotFound(t) => "Tool not found: "@ + t@,
                DeleteError::Uninstall(e) => e@,
            },
    {
        match self {
            DeleteError::ManagerNotFound(m) => {
                let mut r = String::new();
                append_str(&mut r, "Manager not found: ");
                append_str(&mut r, m.as_str());
                r
            },
            DeleteError::ToolNotFound(t) => {
                let mut r = String::new();
                append_str(&mut r, "Tool not found: ");
                append_str(&mut r, t.as_str());
                r
            },
            DeleteError::Uninstall(e) => copy_string(e),
        }
    }
}

/// The first position at or after `j` of a tool named `n` (or the length).
pub open spec fn first_named_from(s: Seq<ToolView>, n: Seq<char>, j: int) -> int
    decreases s.len() - j,
{
    if 0 <= j < s.len() && s[j].name != n {
        first_named_from(s, n, j + 1)
    } else {
        j
    }
}

proof fn lemma_first_named_bounds(s: Seq<ToolView>, n: Seq<char>, j: int)
    requires
        0 <= j <= s.len(),
    ensures
        j <= first_named_from(s, n, j) <= s.len(),
        forall|q: int| j <= q < first_named_from(s, n, j) ==> (#[trigger] s[q]).name != n,
        first_named_from(s, n, j) < s.len() ==> s[first_named_from(s, n, j)].name == n,
    decreases s.len() - j,
{
    if j < s.len() && s[j].name != n {
        lemma_first_named_bounds(s, n, j + 1);
    }
}

/// The selection kept in a list of `count` entries: moved to the last entry
/// when it points past it, the first when the list is empty.
pub open spec fn clamp_selection(i: usize, count: int) -> usize {
    if count == 0 {
        0
    } else if i >= count {
        (count - 1) as usize
    } else {
        i
    }
}

/// `new` is `old` once the tools named `name` are deleted from the listing
/// of `k`: the selection stays within the tools shown, and a status message
/// reports the deletion.
pub open spec fn tool_deleted(old: App, k: ManagerKind, name: Seq<char>, new: App) -> bool {
    &&& new.tools_by_manager@ == if old.tools_by_manager@.contains_key(k) {
        old.tools_by_manager@.insert(k, old.tools_by_manager@[k].filter(|t: ToolView| t.name != name))
    } else {
        old.tools_by_manager@
    }
    &&& new.status_message matches Some(m) && m@ == "Deleted '"@ + name + "'"@
    &&& new == App {
        tools_by_manager: new.tools_by_manager,
        status_message: new.status_message,
        selected_tool: new.selected_tool,
        ..old
    }
    &&& new.selected_tool == clamp_selection(old.selected_tool, new.current_tools_spec().len() as int)
}

/// `t` of the manager `k` is what deleting the selected tool of `a`
/// uninstalls: the selected tool's manager field names `k`, one of the
/// browser's managers, and `t` is the first tool of its listing with the
/// selected tool's name.
pub open spec fn uninstall_target(a: App, k: ManagerKind, t: ToolView) -> bool {
    &&& a.selected_tool_spec() matches Some(sel)
    &&& kind_named(sel.manager) == Some(k)
    &&& a.managers@.contains(k)
    &&& a.tools_by_manager@.contains_key(k)
    &&& first_named_from(a.tools_by_manager@[k], sel.name, 0) < a.tools_by_manager@[k].len()
    &&& t == a.tools_by_manager@[k][first_named_from(a.tools_by_manager@[k], sel.name, 0)]
}

impl App {
    /// What deleting the selected tool must uninstall: `Ok(None)` when no
    /// tool is selected; else the manager named by the tool's manager field,
    /// if it is one of the browser's managers, and the first tool of that
    /// manager's listing with the selected tool's name.
    pub fn delete_target(&self) -> (r: Result<Option<(ManagerKind, Tool)>, DeleteError>)
        ensures
            self.selected_tool_spec() is None ==> r matches Ok(None),
            self.selected_tool_spec() matches Some(sel) ==> ({
                let found = kind_named(sel.manager) matches Some(k) && self.managers@.contains(k);
                let k = kind_named(sel.manager)->0;
                let listed = self.tools_by_manager@.contains_key(k) && first_named_from(
                    self.tools_by_manager@[k],
                    sel.name,
                    0,
                ) < self.tools_by_manager@[k].len();
                &&& !found ==> (r matches Err(DeleteError::ManagerNotFound(m)) && m@
                    == sel.manager)
                &&& found && !listed ==> (r matches Err(DeleteError::ToolNotFound(n)) && n@
                    == sel.name)
                &&& found && listed ==> (r matches Ok(Some((rk, t))) && rk == k && t@
                    == self.tools_by_manager@[k][first_named_from(
                    self.tools_by_manager@[k],
                    sel.name,
                    0,
                )])
            }),
    {
        let sel = match self.selected_tool_item() {
            Some(t) => t,
            None => {
                return Ok(None);
            },
        };
        let k = match ManagerKind::from_name(sel.manager.as_str()) {
            Some(k) => k,
            None => {
                return Err(DeleteError::ManagerNotFound(sel.manager));
            },
        };
        let mut i: usize = 0;
        let mut found = false;
        while i < self.managers.len()
            invariant
                i <= self.managers.len(),
                found == (exists|q: int| 0 <= q < i && self.managers@[q] == k),
            decreases self.managers.len() - i,
        {
            if self.managers[i] == k {
                found = true;
            }
            i = i + 1;
        }
        if !found {
            assert(!self.managers@.contains(k));
            return Err(DeleteError::ManagerNotFound(sel.manager));
        }
        assert(self.managers@.contains(k));
        let tools = match self.tools_by_manager.get(k) {
            Some(t) => t,
            None => {
                return Err(DeleteError::ToolNotFound(sel.name));
            },
        };
        let ghost tv = views(tools@);
        proof {
            lemma_first_named_bounds(tv, sel.name@, 0);
        }
        let mut j: usize = 0;
        while j < tools.len() && !crate::text::str_eq(tools[j].name.as_str(), sel.name.as_str())
            invariant
                j <= tools.len(),
                tv == views(tools@),
                first_named_from(tv, sel.name@, j as int) == first_named_from(tv, sel.name@, 0),
            decreases tools.len() - j,
        {
            assert(tv[j as int] == tools@[j as int]@);
            j = j + 1;
        }
        if j < tools.len() {
            assert(tv[j as int] == tools@[j as int]@);
            Ok(Some((k, copy_tool(&tools[j]))))
        } else {
            Err(DeleteError::ToolNotFound(sel.name))
        }
    }

    /// Records the outcome of uninstalling the tools named `name` of the
    /// manager `k`: on success they leave the listing, the selection is
    /// kept within the tools shown and the deletion is reported; on failure
    /// nothing changes and the error is handed back.
    pub fn finish_delete(&mut self, k: ManagerKind, name: &str, outcome: Result<(), String>) -> (r: Result<(), DeleteError>)
        ensures
            match outcome {
                Ok(()) => r is Ok && tool_deleted(*old(self), k, name@, *final(self)),
                Err(e) => r matches Err(DeleteError::Uninstall(m)) && m == e && *final(self) == *old(self),
            },
    {
        match outcome {
            Err(e) => Err(DeleteError::Uninstall(e)),
            Ok(()) => {
                self.tools_by_manager.remove_named(k, name);
                let count = self.current_tools().len();
                if self.selected_tool >= count && count > 0 {
                    self.selected_tool = count - 1;
                } else if count == 0 {
                    self.selected_tool = 0;
                }
                let mut msg = String::new();
                append_str(&mut msg, "Deleted '");
                append_str(&mut msg, name);
                append_str(&mut msg, "'");
                self.status_message = Some(msg);
                Ok(())
            },
        }
    }

    /// Deletes the selected tool: finds it (see `delete_target`), has
    /// `uninstall` remove it from the system, and records the outcome (see
    /// `finish_delete`). Nothing happens when no tool is selected.
    pub fn delete_selected_tool<F: FnOnce(ManagerKind, Tool) -> Result<(), String>>(
        &mut self,
        uninstall: F,
    ) -> (r: Result<(), DeleteError>)
        requires
            forall|k: ManagerKind, t: Tool|
                uninstall_target(*old(self), k, t@) ==> #[trigger] uninstall.requires((k, t)),
        ensures
            old(self).selected_tool_spec() is None ==> r is Ok && *final(self) == *old(self),
            old(self).selected_tool_spec() matches Some(sel) ==> ({
                let found = kind_named(sel.manager) matches Some(k) && old(self).managers@.contains(
                    k,
                );
                let k = kind_named(sel.manager)->0;
                let listed = old(self).tools_by_manager@.contains_key(k) && first_named_from(
                    old(self).tools_by_manager@[k],
                    sel.name,
                    0,
                ) < old(self).tools_by_manager@[k].len();
                let target = old(self).tools_by_manager@[k][first_named_from(
                    old(self).tools_by_manager@[k],
                    sel.name,
                    0,
                )];
                &&& !found ==> (r matches Err(DeleteError::ManagerNotFound(m)) && m@
                    == sel.manager && *final(self) == *old(self))
                &&& found && !listed ==> (r matches Err(DeleteError::ToolNotFound(n)) && n@
                    == sel.name && *final(self) == *old(self))
                &&& found && listed ==> ({
                    ||| r matches Err(DeleteError::Uninstall(e)) && *final(self) == *old(self)
                        && exists|t: Tool| t@ == target && #[trigger] uninstall.ensures((k, t), Err(e))
                    ||| r is Ok && tool_deleted(*old(self), k, sel.name, *final(self))
                        && exists|t: Tool, o: Result<(), String>|
                        t@ == target && o is Ok && #[trigger] uninstall.ensures((k, t), o)
                })
            }),
    {
        match self.delete_target() {
            Err(e) => Err(e),
            Ok(None) => Ok(()),
            Ok(Some((k, tool))) => {
                proof {
                    let sel = self.selected_tool_spec()->0;
                    lemma_first_named_bounds(self.tools_by_manager@[k], sel.name, 0);
                    assert(uninstall_target(*self, k, tool@));
                }
                let name = copy_string(&tool.name);
                let ghost passed = tool;
                let outcome = uninstall(k, tool);
                let ghost out = outcome;
                assert(uninstall.ensures((k, passed), out));
                let r = self.finish_delete(k, name.as_str(), outcome);
                let ghost rr = r;
                proof {
                    match rr {
                        Err(DeleteError::Uninstall(e)) => {
                            assert(out == Err::<(), String>(e));
                            assert(uninstall.ensures((k, passed), Err(e)));
                        },
                        Ok(()) => {
                            assert(out is Ok);
                        },
                        _ => {},
                    }
                }
                r
            },
        }
    }
}

/// `new` is `old` with a fresh status message whose text is `text`.
pub open spec fn status_set(old: App, text: Seq<char>, new: App) -> bool {
    &&& new.status_message matches Some(m) && m@ == text
    &&& new == App { status_message: new.status_message, ..old }
}

impl App {
    /// Sets the status message to `text`.
    pub fn set_status(&mut self, text: &str)
        ensures
            status_set(*old(self), text@, *final(self)),
    {
        let mut m = String::new();
        append_str(&mut m, text);
        self.status_message = Some(m);
    }

    /// Reports that a snapshot was written to `path`; returns the report.
    pub fn export_snapshot(&mut self, path: &str) -> (r: String)
        ensures
            r@ == "Exported to "@ + path@,
            status_set(*old(self), r@, *final(self)),
    {
        let mut msg = String::new();
        append_str(&mut msg, "Exported to ");
        append_str(&mut msg, path);
        self.set_status(msg.as_str());
        msg
    }

    /// Reports that writing a snapshot failed with `error`.
    pub fn export_failed(&mut self, error: &str)
        ensures
            status_set(*old(self), "Export failed: "@ + error@, *final(self)),
    {
        let mut msg = String::new();
        append_str(&mut msg, "Export failed: ");
        append_str(&mut msg, error);
        self.set_status(msg.as_str());
    }

    /// Reports that deleting the selected tool failed with `error`.
    pub fn delete_failed(&mut self, error: &str)
        ensures
            status_set(*old(self), "Error: "@ + error@, *final(self)),
    {
        let mut msg = String::new();
        append_str(&mut msg, "Error: ");
        append_str(&mut msg, error);
        self.set_status(msg.as_str());
    }
}

} // verus!
