//! Properties that relate several operations of the browser and of snapshots.
use vstd::prelude::*;

use crate::app::{
    available_managers, clamp_selection, event_applied, events_applied, manager_moved,
    matches_query, status_ticked, tool_deleted, trace_fits, wrap_next, wrap_prev, App, AppEvent,
    Panel,
};
use crate::keys::{command_applied, command_of, key_handled, Command, Key, KeyAction};
use crate::managers::{all_kinds, ToolView};
use crate::snapshot::import::{entry_diff, import_diff, lookup, find_entry, missing_tools};
use crate::snapshot::distinct_managers;
use crate::managers::cargo::{crate_key_name, crate_key_version};
use crate::managers::dnf::{dnf_line_tool, dnf_output_tools};
use crate::text::{
    contains_seq, find_char, is_blank, is_ws, lemma_name_le_skip, name_le, lemma_find_char_bounds, lemma_skip_ws_bounds, lemma_trim_back_bounds,
    lemma_word_end_bounds, lines, lines_from, lowercase, skip_ws, starts_with, strip_cr, trim,
    trim_back, word_end,
};

verus! {

/// Moving the selection forward and then back in a list of `n` entries
/// returns to the entry it started on, and so does moving back then forward.
pub proof fn law_wrap_round_trip(i: usize, n: int)
    requires
        0 <= i < n,
        n <= usize::MAX,
    ensures
        wrap_prev(wrap_next(i, n), n) == i,
        wrap_next(wrap_prev(i, n), n) == i,
{
}

/// A selection moved forward, or moved back from a place within the list,
/// stays within a non-empty list (the selection may lie past the end when
/// the list shrank under it: moving back from there can stay outside).
pub proof fn law_wrap_in_range(i: usize, n: int)
    requires
        0 < n <= usize::MAX,
    ensures
        wrap_next(i, n) < n,
        i <= n ==> wrap_prev(i, n) < n,
{
}

/// `next_manager` followed by `prev_manager` selects the manager that was
/// selected before, with the first tool selected and no cheatsheet.
pub proof fn law_next_then_prev_manager(a: App, b: App, c: App)
    requires
        a.selected_manager < a.managers@.len(),
        b == manager_moved(a, wrap_next(a.selected_manager, a.managers@.len() as int)),
        c == manager_moved(b, wrap_prev(b.selected_manager, b.managers@.len() as int)),
    ensures
        c == (App { selected_tool: 0, cheatsheet: None, ..a }),
{
    assert(a.managers@.len() == a.managers.len());
    law_wrap_round_trip(a.selected_manager, a.managers@.len() as int);
}

/// With an empty search every tool of the selected manager is shown (the
/// empty query lower-cases to the empty text, as `to_lowercase` states).
pub proof fn law_empty_search_shows_all(a: App)
    requires
        lowercase(a.search_query@).len() == 0,
        a.current_manager_spec() matches Some(k) && a.tools_by_manager@.contains_key(k),
    ensures
        a.current_tools_spec() == a.tools_by_manager@[a.current_manager_spec()->0],
{
    let k = a.current_manager_spec()->0;
    let s = a.tools_by_manager@[k];
    let p = |t: ToolView| matches_query(t, a.search_query@);
    assert forall|i: int| 0 <= i < s.len() implies p(#[trigger] s[i]) by {
        let h = lowercase(s[i].name);
        let e = lowercase(a.search_query@);
        assert(h.subrange(0, 0 + e.len() as int) =~= e);
    }
    lemma_filter_all(s, p);
}

/// Every tool shown belongs to the selected manager and matches the search.
pub proof fn law_shown_tools_match_search(a: App)
    ensures
        forall|i: int|
            0 <= i < a.current_tools_spec().len() ==> {
                let t = #[trigger] a.current_tools_spec()[i];
                &&& matches_query(t, a.search_query@)
                &&& a.current_manager_spec() matches Some(k) && a.tools_by_manager@.contains_key(k)
                    && a.tools_by_manager@[k].contains(t)
            },
{
    match a.current_manager_spec() {
        Some(k) => {
            if a.tools_by_manager@.contains_key(k) {
                let s = a.tools_by_manager@[k];
                let p = |t: ToolView| matches_query(t, a.search_query@);
                assert forall|i: int| 0 <= i < s.filter(p).len() implies p(
                    #[trigger] s.filter(p)[i],
                ) && s.contains(s.filter(p)[i]) by {
                    s.lemma_filter_pred(p, i);
                    assert(s.filter(p).contains(s.filter(p)[i]));
                    s.lemma_filter_contains_rev(p, s.filter(p)[i]);
                }
            }
        },
        None => {},
    }
}

/// Keeping the elements that all pass a test keeps the whole sequence.
proof fn lemma_filter_all<A>(s: Seq<A>, p: spec_fn(A) -> bool)
    requires
        forall|i: int| 0 <= i < s.len() ==> p(#[trigger] s[i]),
    ensures
        s.filter(p) == s,
    decreases s.len(),
{
    reveal(Seq::filter);
    if s.len() > 0 {
        lemma_filter_all(s.drop_last(), p);
        assert(p(s[s.len() - 1]));
        assert(s.drop_last().push(s.last()) =~= s);
    }
}

/// After a deletion no tool of that name is left in the manager's listing,
/// and the selection points at a tool shown, unless none is shown.
pub proof fn law_deleted_tool_is_gone(
    old: App,
    k: crate::managers::ManagerKind,
    name: Seq<char>,
    new: App,
)
    requires
        tool_deleted(old, k, name, new),
        old.tools_by_manager@.contains_key(k),
    ensures
        forall|i: int|
            0 <= i < new.tools_by_manager@[k].len() ==> (#[trigger] new.tools_by_manager@[k][i]).name
                != name,
        new.current_tools_spec().len() == 0 || new.selected_tool < new.current_tools_spec().len(),
{
    let s = old.tools_by_manager@[k];
    let p = |t: ToolView| t.name != name;
    assert forall|i: int| 0 <= i < s.filter(p).len() implies (#[trigger] s.filter(p)[i]).name
        != name by {
        s.lemma_filter_pred(p, i);
    }
}

/// Typing a character into the search and erasing it again gives back the
/// search text, with the first tool selected.
pub proof fn law_type_then_erase(
    a: App,
    c: char,
    ctrl: bool,
    b: App,
    x: KeyAction,
    d: App,
    y: KeyAction,
)
    requires
        a.search_active,
        key_handled(a, Key::Char(c), ctrl, b, x),
        key_handled(b, Key::Backspace, ctrl, d, y),
    ensures
        d.search_query@ == a.search_query@,
        d == (App { search_query: d.search_query, selected_tool: 0, ..a }),
{
    assert(a.search_query@.push(c).drop_last() =~= a.search_query@);
}

/// Toggling the help twice leaves the browser as it was.
pub proof fn law_help_toggles_back(a: App, b: App, x: KeyAction, c: App, y: KeyAction)
    requires
        command_applied(a, Command::Help, b, x),
        command_applied(b, Command::Help, c, y),
    ensures
        c == a,
{
}

/// A new status message is shown for one frame and cleared on the next,
/// and the frames change nothing else.
pub proof fn law_status_lasts_one_frame(a: App, b: App, c: App)
    requires
        a.status_message is Some,
        !a.status_shown,
        status_ticked(a, b),
        status_ticked(b, c),
    ensures
        b.status_message == a.status_message,
        c.status_message is None,
        c == (App { status_message: None, ..a }),
{
}

/// With every manager available, all of them are loaded, in display order.
pub proof fn law_all_available(flags: Seq<bool>)
    requires
        flags.len() >= 6,
        forall|i: int| 0 <= i < 6 ==> #[trigger] flags[i],
    ensures
        available_managers(flags) == all_kinds(),
{
    reveal_with_fuel(crate::app::available_upto, 7);
    assert(available_managers(flags) =~= all_kinds());
}

/// Nothing is missing when every manager that a snapshot entry names has
/// each of the entry's tools installed.
pub proof fn law_nothing_missing_when_installed(
    packages: Seq<(Seq<char>, Seq<Seq<char>>)>,
    installed: Seq<(Seq<char>, Seq<Seq<char>>)>,
)
    requires
        forall|i: int|
            0 <= i < packages.len() ==> (lookup(installed, (#[trigger] packages[i]).0) matches Some(
                have,
            ) ==> forall|j: int| 0 <= j < packages[i].1.len() ==> have.contains(packages[i].1[j])),
    ensures
        import_diff(packages, installed) == Seq::<(Seq<char>, Seq<Seq<char>>)>::empty(),
    decreases packages.len(),
{
    let f = |e: (Seq<char>, Seq<Seq<char>>)| entry_diff(installed, e);
    if packages.len() > 0 {
        let last = packages.last();
        assert(last == packages[packages.len() - 1]);
        law_nothing_missing_when_installed(packages.drop_last(), installed);
        match lookup(installed, last.0) {
            Some(have) => {
                let p = |t: Seq<char>| !have.contains(t);
                assert forall|j: int| 0 <= j < last.1.len() implies !p(#[trigger] last.1[j]) by {}
                lemma_filter_none(last.1, p);
                assert(missing_tools(last.1, have).len() == 0);
            },
            None => {},
        }
        assert(f(last) is None);
        assert(import_diff(packages, installed) == import_diff(packages.drop_last(), installed));
    }
}

/// Keeping the elements that pass a test that none passes keeps nothing.
proof fn lemma_filter_none<A>(s: Seq<A>, p: spec_fn(A) -> bool)
    requires
        forall|i: int| 0 <= i < s.len() ==> !p(#[trigger] s[i]),
    ensures
        s.filter(p).len() == 0,
    decreases s.len(),
{
    reveal(Seq::filter);
    if s.len() > 0 {
        lemma_filter_none(s.drop_last(), p);
        assert(!p(s[s.len() - 1]));
    }
}

/// Restoring a snapshot on the machine it was taken from, with nothing
/// changed, installs nothing: compared with itself (its managers named once
/// each, as in every snapshot `build_snapshot` takes), a snapshot's packages
/// miss no tool.
pub proof fn law_snapshot_restores_to_nothing(packages: Seq<(Seq<char>, Seq<Seq<char>>)>)
    requires
        distinct_managers(packages),
    ensures
        import_diff(packages, packages) == Seq::<(Seq<char>, Seq<Seq<char>>)>::empty(),
{
    assert forall|i: int| 0 <= i < packages.len() implies (lookup(
        packages,
        (#[trigger] packages[i]).0,
    ) matches Some(have) ==> forall|j: int|
        0 <= j < packages[i].1.len() ==> have.contains(packages[i].1[j])) by {
        lemma_lookup_unique(packages, i);
        assert forall|j: int| 0 <= j < packages[i].1.len() implies packages[i].1.contains(
            packages[i].1[j],
        ) by {}
    }
    law_nothing_missing_when_installed(packages, packages);
}

/// With distinct manager names, an entry is what looking up its name finds.
proof fn lemma_lookup_unique(packages: Seq<(Seq<char>, Seq<Seq<char>>)>, i: int)
    requires
        0 <= i < packages.len(),
        distinct_managers(packages),
    ensures
        lookup(packages, packages[i].0) == Some(packages[i].1),
{
    let key = packages[i].0;
    lemma_find_entry_stops(packages, key, 0, i);
}

/// The scan for `key` from `j <= i` stops at `i` when `i` is the only entry
/// named `key` from `j` on.
proof fn lemma_find_entry_stops(
    packages: Seq<(Seq<char>, Seq<Seq<char>>)>,
    key: Seq<char>,
    j: int,
    i: int,
)
    requires
        0 <= j <= i < packages.len(),
        packages[i].0 == key,
        distinct_managers(packages),
    ensures
        find_entry(packages, key, j) == i,
    decreases i - j,
{
    if j < i {
        assert(packages[j].0 != packages[i].0);
        lemma_find_entry_stops(packages, key, j + 1, i);
    }
}

/// The selection kept after a deletion lies within the tools shown, unless
/// none is shown.
pub proof fn law_clamp_in_range(i: usize, count: int)
    requires
        0 <= count <= usize::MAX,
    ensures
        count == 0 || clamp_selection(i, count) < count,
        i < count ==> clamp_selection(i, count) == i,
{
}

/// Once as many listings have arrived as loads were pending, none is pending
/// any more, and loading shows only while the selected tool's cheatsheet,
/// just asked for, is fetched.
pub proof fn law_listings_end_loading(s0: App, evs: Seq<AppEvent>, s1: App, reqs: Seq<String>)
    requires
        evs.len() > 0,
        evs.len() == s0.managers_loading,
        forall|i: int| 0 <= i < evs.len() ==> (#[trigger] evs[i]) is ManagerLoaded,
        events_applied(s0, evs, s1, reqs),
    ensures
        s1.managers_loading == 0,
        s1.loading ==> reqs.len() > 0,
{
    let (states, rs) = choose|states: Seq<App>, rs: Seq<Option<String>>|
        #[trigger] trace_fits(s0, evs, s1, reqs, states, rs);
    let n = evs.len() as int;
    assert forall|i: int| 0 <= i <= n implies #[trigger] states[i].managers_loading == n - i by {
        lemma_pending_counts_down(s0, evs, states, rs, i);
    }
    let last = n - 1;
    assert(event_applied(states[last], evs[last], states[last + 1], rs[last]));
    assert(states[last].managers_loading == 1);
    lemma_last_listing(states[last], evs[last], states[last + 1], rs[last]);
    if s1.loading {
        assert(rs[last] is Some);
        let f = |o: Option<String>| o;
        assert(rs.drop_last().push(rs.last()) =~= rs);
        assert(rs.last() == rs[last]);
        assert(rs.filter_map(f) =~= rs.drop_last().filter_map(f) + seq![rs[last]->0]);
    }
}

/// The listing that arrives while one load is pending ends the pending
/// loads; loading then shows only with a cheatsheet request.
proof fn lemma_last_listing(a: App, ev: AppEvent, b: App, r: Option<String>)
    requires
        event_applied(a, ev, b, r),
        ev is ManagerLoaded,
        a.managers_loading == 1,
    ensures
        b.managers_loading == 0,
        b.loading ==> r is Some,
{
    reveal(event_applied);
}

/// Each arrived listing takes one from the pending loads.
proof fn lemma_pending_counts_down(
    s0: App,
    evs: Seq<AppEvent>,
    states: Seq<App>,
    rs: Seq<Option<String>>,
    i: int,
)
    requires
        evs.len() == s0.managers_loading,
        forall|k: int| 0 <= k < evs.len() ==> (#[trigger] evs[k]) is ManagerLoaded,
        states.len() == evs.len() + 1,
        rs.len() == evs.len(),
        states[0] == s0,
        forall|k: int|
            0 <= k < evs.len() ==> event_applied(#[trigger] states[k], evs[k], states[k + 1], rs[k]),
        0 <= i <= evs.len(),
    ensures
        states[i].managers_loading == evs.len() - i,
    decreases i,
{
    if i > 0 {
        lemma_pending_counts_down(s0, evs, states, rs, i - 1);
        assert(event_applied(states[i - 1], evs[i - 1], states[i], rs[i - 1]));
        reveal(event_applied);
        assert(evs[i - 1] is ManagerLoaded);
    }
}

/// The scan for `c` from `i` stops at `j` when `j` holds `c` and nothing
/// between `i` and `j` does; it runs to the end when nothing from `i` on does.
proof fn lemma_find_char_at(s: Seq<char>, c: char, i: int, j: int)
    requires
        0 <= i <= j <= s.len(),
        forall|k: int| i <= k < j ==> s[k] != c,
        j < s.len() ==> s[j] == c,
    ensures
        find_char(s, c, i) == j,
{
    lemma_find_char_bounds(s, c, i);
    let f = find_char(s, c, i);
    if f < j {
        assert(s[f] != c);
    } else if f > j {
        assert(s[j] != c);
    }
}

/// A `.crates.toml` key `"name version (source)"` names its crate by all of
/// the text before the first space and its version by all of the text between
/// the first and the second space, whatever other characters (such as `-` or
/// `.`) they hold; a key of a name alone has no version.
pub proof fn law_crate_key_parts(name: Seq<char>, version: Seq<char>, source: Seq<char>)
    requires
        !name.contains(' '),
        !version.contains(' '),
    ensures
        crate_key_name(name + " "@ + version + " "@ + source) == name,
        crate_key_version(name + " "@ + version + " "@ + source) == Some(version),
        crate_key_name(name + " "@ + version) == name,
        crate_key_version(name + " "@ + version) == Some(version),
        crate_key_name(name) == name,
        crate_key_version(name) is None,
{
    reveal_strlit(" ");
    let n = name.len() as int;
    let v = version.len() as int;
    let short = name + " "@ + version;
    let long = name + " "@ + version + " "@ + source;
    assert forall|k: int| 0 <= k < n implies short[k] != ' ' && long[k] != ' ' by {
        assert(short[k] == name[k] && long[k] == name[k]);
    }
    assert forall|k: int| n + 1 <= k < n + 1 + v implies short[k] != ' ' && long[k] != ' ' by {
        assert(short[k] == version[k - n - 1] && long[k] == version[k - n - 1]);
    }
    assert(short[n] == ' ' && long[n] == ' ');
    assert(long[n + 1 + v] == ' ');
    lemma_find_char_at(short, ' ', 0, n);
    lemma_find_char_at(long, ' ', 0, n);
    lemma_find_char_at(short, ' ', n + 1, n + 1 + v);
    lemma_find_char_at(long, ' ', n + 1, n + 1 + v);
    assert(short.subrange(0, n) =~= name);
    assert(long.subrange(0, n) =~= name);
    assert(short.subrange(n + 1, n + 1 + v) =~= version);
    assert(long.subrange(n + 1, n + 1 + v) =~= version);
    assert forall|k: int| 0 <= k < n implies name[k] != ' ' by {}
    lemma_find_char_at(name, ' ', 0, n);
    assert(name.subrange(0, n) =~= name);
}

/// Skipping whitespace from `i` stops at the first character from `i` on
/// that is not whitespace.
proof fn lemma_skip_ws_at(s: Seq<char>, i: int, j: int)
    requires
        0 <= i <= j <= s.len(),
        forall|k: int| i <= k < j ==> is_ws(s[k]),
        j < s.len() ==> !is_ws(s[j]),
    ensures
        skip_ws(s, i) == j,
{
    lemma_skip_ws_bounds(s, i);
    let f = skip_ws(s, i);
    if f < j {
        assert(is_ws(s[f]));
    } else if f > j {
        assert(is_ws(s[j]));
    }
}

/// A word from `i` ends at the first whitespace character from `i` on.
proof fn lemma_word_end_at(s: Seq<char>, i: int, j: int)
    requires
        0 <= i <= j <= s.len(),
        forall|k: int| i <= k < j ==> !is_ws(s[k]),
        j < s.len() ==> is_ws(s[j]),
    ensures
        word_end(s, i) == j,
{
    lemma_word_end_bounds(s, i);
    let f = word_end(s, i);
    if f < j {
        assert(!is_ws(s[f]));
    } else if f > j {
        assert(!is_ws(s[j]));
    }
}

/// A text that neither starts nor ends with whitespace is its own trim.
proof fn lemma_trim_unchanged(s: Seq<char>)
    requires
        s.len() > 0,
        !is_ws(s[0]),
        !is_ws(s[s.len() - 1]),
    ensures
        trim(s) == s,
{
    lemma_skip_ws_at(s, 0, 0);
    lemma_trim_back_bounds(s, s.len() as int);
    assert(s.subrange(0, s.len() as int) =~= s);
}

/// Text with at most one whitespace character, at `n`, does not begin with
/// the line `dnf` prints while it loads its repositories.
proof fn lemma_not_loading_line(s: Seq<char>, n: int)
    requires
        forall|k: int| 0 <= k < s.len() && k != n ==> !is_ws(#[trigger] s[k]),
    ensures
        !starts_with(s, "Updating and loading repositories:"@),
{
    reveal_strlit("Updating and loading repositories:");
    let p = "Updating and loading repositories:"@;
    if starts_with(s, p) {
        assert(s[8] == s.subrange(0, p.len() as int)[8]);
        assert(s[12] == s.subrange(0, p.len() as int)[12]);
        assert(is_ws(s[8]) && is_ws(s[12]));
    }
}

/// A line of `dnf repoquery` output `"name version"`, both words free of
/// whitespace, stands for the tool of that whole name and whole version,
/// whatever other characters (such as `-` or `.`) they hold; a line of one
/// word names a tool without version; and an output of one such line lists
/// that tool alone. The line that `dnf` prints once its repositories are
/// loaded is the one exception.
pub proof fn law_dnf_line_parts(name: Seq<char>, version: Seq<char>)
    requires
        name.len() > 0,
        version.len() > 0,
        forall|k: int| 0 <= k < name.len() ==> !is_ws(#[trigger] name[k]),
        forall|k: int| 0 <= k < version.len() ==> !is_ws(#[trigger] version[k]),
        !starts_with(name + " "@ + version, "Repositories loaded."@),
    ensures
        dnf_line_tool(name + " "@ + version) == Some(
            ToolView { name: name, version: Some(version), manager: "dnf"@ },
        ),
        dnf_line_tool(name) == Some(ToolView { name: name, version: None, manager: "dnf"@ }),
        dnf_output_tools(name + " "@ + version + "\n"@) == seq![
            ToolView { name: name, version: Some(version), manager: "dnf"@ },
        ],
{
    reveal_strlit(" ");
    reveal_strlit("\n");
    reveal_strlit("Repositories loaded.");
    let n = name.len() as int;
    let v = version.len() as int;
    let line = name + " "@ + version;
    assert forall|k: int| 0 <= k < n implies #[trigger] line[k] == name[k] by {}
    assert forall|k: int| n + 1 <= k < n + 1 + v implies #[trigger] line[k] == version[k - n - 1] by {}
    assert(line[n] == ' ');
    assert forall|k: int| 0 <= k < line.len() && k != n implies !is_ws(#[trigger] line[k]) by {
        if k < n {
            assert(line[k] == name[k]);
        } else {
            assert(line[k] == version[k - n - 1]);
        }
    }
    // the two-word line
    lemma_trim_unchanged(line);
    lemma_not_loading_line(line, n);
    lemma_skip_ws_at(line, 0, 0);
    lemma_word_end_at(line, 0, n);
    lemma_skip_ws_at(line, n, n + 1);
    lemma_word_end_at(line, n + 1, n + 1 + v);
    assert(line.subrange(0, n) =~= name);
    assert(line.subrange(n + 1, n + 1 + v) =~= version);
    // the one-word line
    lemma_trim_unchanged(name);
    assert forall|k: int| 0 <= k < name.len() && k != -1 implies !is_ws(#[trigger] name[k]) by {}
    lemma_not_loading_line(name, -1);
    let p = "Repositories loaded."@;
    if starts_with(name, p) {
        assert(name[12] == name.subrange(0, p.len() as int)[12]);
    }
    lemma_skip_ws_at(name, 0, 0);
    lemma_word_end_at(name, 0, n);
    lemma_skip_ws_at(name, n, n);
    assert(name.subrange(0, n) =~= name);
    // the output of that one line
    let out = line + "\n"@;
    let len = line.len() as int;
    assert forall|k: int| 0 <= k < len implies out[k] != '\n' by {
        assert(out[k] == line[k]);
        assert(is_ws('\n'));
    }
    assert(out[len] == '\n');
    lemma_find_char_at(out, '\n', 0, len);
    assert(out.subrange(0, len) =~= line);
    assert(line.last() == line[len - 1]);
    assert(strip_cr(line) == line);
    assert(lines_from(out, len + 1) =~= Seq::<Seq<char>>::empty());
    assert(lines(out) =~= seq![line]);
    Seq::lemma_filter_map_singleton(line, |l: Seq<char>| dnf_line_tool(l));
}

/// An element that `f` maps to `Some(y)` leaves `y` in `s.filter_map(f)`.
proof fn lemma_filter_map_keeps<A, B>(s: Seq<A>, f: spec_fn(A) -> Option<B>, i: int)
    requires
        0 <= i < s.len(),
        f(s[i]) is Some,
    ensures
        s.filter_map(f).contains(f(s[i])->0),
    decreases s.len(),
{
    let rest = s.drop_last();
    let fm = rest.filter_map(f);
    let y = f(s[i])->0;
    if i == s.len() - 1 {
        assert(s.last() == s[i]);
        assert((fm + seq![y])[fm.len() as int] == y);
    } else {
        assert(rest[i] == s[i]);
        lemma_filter_map_keeps(rest, f, i);
        let j = choose|j: int| 0 <= j < fm.len() && fm[j] == y;
        match f(s.last()) {
            Some(z) => {
                assert((fm + seq![z])[j] == fm[j]);
            },
            None => {},
        }
    }
}

/// Restoring a snapshot reports every tool of a snapshot entry that the
/// entry's manager, installed here, does not have: some entry of the diff
/// names that manager and lists the tool.
pub proof fn law_missing_tools_reported(
    packages: Seq<(Seq<char>, Seq<Seq<char>>)>,
    installed: Seq<(Seq<char>, Seq<Seq<char>>)>,
    i: int,
    j: int,
    tool: Seq<char>,
)
    requires
        0 <= i < packages.len(),
        0 <= j < installed.len(),
        distinct_managers(installed),
        installed[j].0 == packages[i].0,
        packages[i].1.contains(tool),
        !installed[j].1.contains(tool),
    ensures
        exists|d: (Seq<char>, Seq<Seq<char>>)|
            #[trigger] import_diff(packages, installed).contains(d) && d.0 == packages[i].0
                && d.1.contains(tool),
{
    lemma_lookup_unique(installed, j);
    let have = installed[j].1;
    let wanted = packages[i].1;
    let p = |x: Seq<char>| !have.contains(x);
    let k = choose|k: int| 0 <= k < wanted.len() && wanted[k] == tool;
    wanted.lemma_filter_contains(p, k);
    let m = missing_tools(wanted, have);
    assert(m.contains(tool));
    assert(m.len() > 0);
    let f = |e: (Seq<char>, Seq<Seq<char>>)| entry_diff(installed, e);
    assert(f(packages[i]) == Some((packages[i].0, m)));
    lemma_filter_map_keeps(packages, f, i);
    assert(import_diff(packages, installed).contains((packages[i].0, m)));
}

/// On a machine where a manager is available but has nothing installed,
/// restoring a snapshot entry of that manager with tools reports all of them,
/// in the snapshot's order.
pub proof fn law_fresh_manager_needs_everything(
    packages: Seq<(Seq<char>, Seq<Seq<char>>)>,
    installed: Seq<(Seq<char>, Seq<Seq<char>>)>,
    i: int,
    j: int,
)
    requires
        0 <= i < packages.len(),
        0 <= j < installed.len(),
        distinct_managers(installed),
        installed[j].0 == packages[i].0,
        installed[j].1.len() == 0,
        packages[i].1.len() > 0,
    ensures
        import_diff(packages, installed).contains(packages[i]),
{
    lemma_lookup_unique(installed, j);
    let have = installed[j].1;
    let wanted = packages[i].1;
    let p = |x: Seq<char>| !have.contains(x);
    assert forall|k: int| 0 <= k < wanted.len() implies p(#[trigger] wanted[k]) by {}
    lemma_filter_all(wanted, p);
    let f = |e: (Seq<char>, Seq<Seq<char>>)| entry_diff(installed, e);
    assert(f(packages[i]) == Some(packages[i]));
    lemma_filter_map_keeps(packages, f, i);
}

/// The search keeps a tool exactly when the lower-cased query occurs in its
/// lower-cased name as a contiguous run, anywhere: at its start, in its
/// middle or at its end.
pub proof fn law_search_matches_anywhere(t: ToolView, query: Seq<char>)
    ensures
        matches_query(t, query) <==> exists|before: Seq<char>, after: Seq<char>|
            #![trigger before + lowercase(query) + after]
            before + lowercase(query) + after == lowercase(t.name),
{
    let h = lowercase(t.name);
    let q = lowercase(query);
    if matches_query(t, query) {
        let i = choose|i: int|
            0 <= i && i + q.len() <= h.len() && #[trigger] h.subrange(i, i + q.len()) == q;
        let before = h.subrange(0, i);
        let after = h.subrange(i + q.len(), h.len() as int);
        assert(before + q + after =~= h);
    }
    if exists|before: Seq<char>, after: Seq<char>|
        #![trigger before + q + after]
        before + q + after == h {
        let (before, after) = choose|before: Seq<char>, after: Seq<char>|
            #![trigger before + q + after]
            before + q + after == h;
        let i = before.len() as int;
        assert(h.subrange(i, i + q.len()) =~= q);
        assert(contains_seq(h, q));
    }
}

/// A tool of the selected manager is shown exactly when the lower-cased
/// search occurs anywhere in its lower-cased name.
pub proof fn law_shown_when_name_contains_search(a: App, t: ToolView)
    requires
        a.current_manager_spec() matches Some(k) && a.tools_by_manager@.contains_key(k)
            && a.tools_by_manager@[k].contains(t),
    ensures
        a.current_tools_spec().contains(t) <==> exists|before: Seq<char>, after: Seq<char>|
            #![trigger before + lowercase(a.search_query@) + after]
            before + lowercase(a.search_query@) + after == lowercase(t.name),
{
    law_search_matches_anywhere(t, a.search_query@);
    let k = a.current_manager_spec()->0;
    let s = a.tools_by_manager@[k];
    let p = |x: ToolView| matches_query(x, a.search_query@);
    if s.filter(p).contains(t) {
        let j = choose|j: int| 0 <= j < s.filter(p).len() && s.filter(p)[j] == t;
        s.lemma_filter_pred(p, j);
    }
    if p(t) {
        let j = choose|j: int| 0 <= j < s.len() && s[j] == t;
        s.lemma_filter_contains(p, j);
    }
}

/// The position after `i` in a list of `n` entries is `(i + 1) % n`, and the
/// one before it is `(i + n - 1) % n`.
proof fn lemma_wrap_is_mod(i: usize, n: int)
    requires
        0 <= i < n <= usize::MAX,
    ensures
        wrap_next(i, n) == (i + 1) % n,
        wrap_prev(i, n) == (i + n - 1) % n,
{
    if i + 1 < n {
        vstd::arithmetic::div_mod::lemma_small_mod((i + 1) as nat, n as nat);
    } else {
        vstd::arithmetic::div_mod::lemma_mod_self_0(n);
    }
    if i > 0 {
        vstd::arithmetic::div_mod::lemma_mod_add_multiples_vanish(i - 1, n);
        vstd::arithmetic::div_mod::lemma_small_mod((i - 1) as nat, n as nat);
    } else {
        vstd::arithmetic::div_mod::lemma_small_mod((n - 1) as nat, n as nat);
    }
}

/// Outside search mode the letter keys move like the arrow keys: `j` as
/// Down, `k` as Up, `h` as Left and `l` as Right.
pub proof fn law_letter_keys_are_arrows(ctrl: bool)
    ensures
        command_of(Key::Char('j'), ctrl) == command_of(Key::Down, ctrl),
        command_of(Key::Char('k'), ctrl) == command_of(Key::Up, ctrl),
        command_of(Key::Char('h'), ctrl) == command_of(Key::Left, ctrl),
        command_of(Key::Char('l'), ctrl) == command_of(Key::Right, ctrl),
        command_of(Key::Down, ctrl) != command_of(Key::Up, ctrl),
{
}

/// On the managers panel, outside search mode, `j` and Down select the next
/// manager (the first after the last), `k` and Up the previous one (the last
/// before the first), and the first tool of it is selected.
pub proof fn law_vertical_keys_move_manager(a: App, key: Key, ctrl: bool, b: App, x: KeyAction)
    requires
        !a.search_active,
        a.active_panel == Panel::Managers,
        a.selected_manager < a.managers@.len(),
        key == Key::Char('j') || key == Key::Down || key == Key::Char('k') || key == Key::Up,
        key_handled(a, key, ctrl, b, x),
    ensures
        key == Key::Char('j') || key == Key::Down ==> b.selected_manager == (a.selected_manager + 1)
            % (a.managers@.len() as int),
        key == Key::Char('k') || key == Key::Up ==> b.selected_manager == (a.selected_manager
            + a.managers@.len() - 1) % (a.managers@.len() as int),
        b.selected_tool == 0,
        b.managers == a.managers,
{
    assert(a.managers@.len() == a.managers.len());
    lemma_wrap_is_mod(a.selected_manager, a.managers@.len() as int);
}

/// On the tools or cheatsheet panel, outside search mode, `j` and Down select
/// the next tool shown (the first after the last), and `k` and Up the
/// previous one (the last before the first).
pub proof fn law_vertical_keys_move_tool(a: App, key: Key, ctrl: bool, b: App, x: KeyAction)
    requires
        !a.search_active,
        a.active_panel != Panel::Managers,
        a.selected_tool < a.current_tools_spec().len() <= usize::MAX,
        key == Key::Char('j') || key == Key::Down || key == Key::Char('k') || key == Key::Up,
        key_handled(a, key, ctrl, b, x),
    ensures
        key == Key::Char('j') || key == Key::Down ==> b.selected_tool == (a.selected_tool + 1)
            % (a.current_tools_spec().len() as int),
        key == Key::Char('k') || key == Key::Up ==> b.selected_tool == (a.selected_tool
            + a.current_tools_spec().len() - 1) % (a.current_tools_spec().len() as int),
        b.selected_manager == a.selected_manager,
{
    lemma_wrap_is_mod(a.selected_tool, a.current_tools_spec().len() as int);
}

/// Tools sort by name in code-point order: after a common start, the name
/// with the smaller character at the first difference comes first (and not
/// the other way round), and a name comes before every name that extends it.
pub proof fn law_name_order(start: Seq<char>, c: char, d: char, x: Seq<char>, y: Seq<char>)
    requires
        c < d,
    ensures
        name_le(start + seq![c] + x, start + seq![d] + y),
        !name_le(start + seq![d] + y, start + seq![c] + x),
        name_le(start, start + x),
        x.len() > 0 ==> !name_le(start + x, start),
{
    let k = start.len() as int;
    let a = start + seq![c] + x;
    let b = start + seq![d] + y;
    assert forall|t: int| 0 <= t < k implies a[t] == b[t] by {
        assert(a[t] == start[t] && b[t] == start[t]);
    }
    lemma_name_le_skip(a, b, k);
    assert forall|t: int| 0 <= t < k implies b[t] == a[t] by {
        assert(a[t] == start[t] && b[t] == start[t]);
    }
    lemma_name_le_skip(b, a, k);
    assert(a.skip(k)[0] == c && b.skip(k)[0] == d);
    let e = start + x;
    assert forall|t: int| 0 <= t < k implies start[t] == e[t] by {}
    lemma_name_le_skip(start, e, k);
    assert(start.skip(k).len() == 0);
    assert forall|t: int| 0 <= t < k implies e[t] == start[t] by {}
    lemma_name_le_skip(e, start, k);
    assert(e.skip(k).len() == x.len());
}

/// Among the first `n` managers, the one at position `i` is kept exactly
/// when its availability flag is set.
proof fn lemma_available_upto_has(flags: Seq<bool>, n: int, i: int)
    requires
        0 <= i < n <= 6,
    ensures
        crate::app::available_upto(flags, n).contains(all_kinds()[i]) <==> (i < flags.len()
            && flags[i]),
    decreases n,
{
    let prev = crate::app::available_upto(flags, n - 1);
    lemma_available_upto_within(flags, n - 1);
    if i < n - 1 {
        lemma_available_upto_has(flags, n - 1, i);
        if n - 1 < flags.len() && flags[n - 1] {
            assert(all_kinds()[n - 1] != all_kinds()[i]);
            let ps = prev.push(all_kinds()[n - 1]);
            if ps.contains(all_kinds()[i]) {
                let j = choose|j: int| 0 <= j < ps.len() && #[trigger] ps[j] == all_kinds()[i];
                if j < prev.len() {
                    assert(prev[j] == all_kinds()[i]);
                }
            }
            if prev.contains(all_kinds()[i]) {
                let j = choose|j: int| 0 <= j < prev.len() && prev[j] == all_kinds()[i];
                assert(prev.push(all_kinds()[n - 1])[j] == all_kinds()[i]);
            }
        }
    } else {
        if n - 1 < flags.len() && flags[n - 1] {
            assert(prev.push(all_kinds()[n - 1])[prev.len() as int] == all_kinds()[i]);
        } else {
            if prev.contains(all_kinds()[i]) {
                let j = choose|j: int| 0 <= j < prev.len() && prev[j] == all_kinds()[i];
                let q = choose|q: int| 0 <= q < n - 1 && all_kinds()[q] == prev[j];
                assert(all_kinds()[q] != all_kinds()[i]);
            }
        }
    }
}

/// Every manager kept among the first `n` is one of those `n`.
proof fn lemma_available_upto_within(flags: Seq<bool>, n: int)
    requires
        0 <= n <= 6,
    ensures
        forall|j: int|
            0 <= j < crate::app::available_upto(flags, n).len() ==> exists|q: int|
                0 <= q < n && all_kinds()[q] == #[trigger] crate::app::available_upto(flags, n)[j],
    decreases n,
{
    if n > 0 {
        lemma_available_upto_within(flags, n - 1);
        let prev = crate::app::available_upto(flags, n - 1);
        let cur = crate::app::available_upto(flags, n);
        assert forall|j: int| 0 <= j < cur.len() implies exists|q: int|
            0 <= q < n && all_kinds()[q] == #[trigger] cur[j] by {
            if j < prev.len() {
                assert(cur[j] == prev[j]);
                let q = choose|q: int| 0 <= q < n - 1 && all_kinds()[q] == prev[j];
                assert(all_kinds()[q] == cur[j]);
            } else {
                assert(all_kinds()[n - 1] == cur[j]);
            }
        }
    }
}

/// Loading keeps exactly the managers whose availability flag is set: the
/// manager at position `i` of `all_managers()` is loaded exactly when
/// `available[i]` holds (a missing flag counts as unavailable).
pub proof fn law_loads_exactly_the_available(flags: Seq<bool>, i: int)
    requires
        0 <= i < 6,
    ensures
        available_managers(flags).contains(all_kinds()[i]) <==> (i < flags.len() && flags[i]),
{
    lemma_available_upto_has(flags, 6, i);
}

/// Restoring a snapshot reports no tool needlessly: every tool that an entry
/// of the diff lists is wanted by a snapshot entry of that manager, the
/// manager is installed here, and it does not have the tool.
pub proof fn law_reported_tools_are_missing(
    packages: Seq<(Seq<char>, Seq<Seq<char>>)>,
    installed: Seq<(Seq<char>, Seq<Seq<char>>)>,
    d: (Seq<char>, Seq<Seq<char>>),
    tool: Seq<char>,
)
    requires
        import_diff(packages, installed).contains(d),
        d.1.contains(tool),
    ensures
        exists|i: int| 0 <= i < packages.len() && #[trigger] packages[i].0 == d.0 && packages[i].1.contains(tool),
        lookup(installed, d.0) matches Some(have) && !have.contains(tool),
{
    let f = |e: (Seq<char>, Seq<Seq<char>>)| entry_diff(installed, e);
    packages.lemma_filter_map_contains(f, d);
    let e = choose|e: (Seq<char>, Seq<Seq<char>>)| #[trigger] packages.contains(e) && f(e) == Some(d);
    let i = choose|i: int| 0 <= i < packages.len() && packages[i] == e;
    let have = lookup(installed, e.0)->0;
    let p = |x: Seq<char>| !have.contains(x);
    let m = e.1.filter(p);
    assert(d == (e.0, m));
    let k = choose|k: int| 0 <= k < m.len() && m[k] == tool;
    e.1.lemma_filter_pred(p, k);
    e.1.lemma_filter_contains_rev(p, tool);
    assert(packages[i].0 == d.0);
}

/// Trimming removes exactly the leading and trailing whitespace: a text that
/// neither starts nor ends with whitespace, with blank runs before and after
/// it, trims to that text.
pub proof fn law_trim_removes_outer_whitespace(before: Seq<char>, s: Seq<char>, after: Seq<char>)
    requires
        is_blank(before),
        is_blank(after),
        s.len() > 0,
        !is_ws(s[0]),
        !is_ws(s[s.len() - 1]),
    ensures
        trim(before + s + after) == s,
{
    let t = before + s + after;
    let a = before.len() as int;
    let b = a + s.len();
    assert forall|k: int| 0 <= k < a implies is_ws(t[k]) by {
        assert(t[k] == before[k]);
    }
    assert(t[a] == s[0]);
    lemma_skip_ws_at(t, 0, a);
    lemma_trim_back_bounds(t, t.len() as int);
    let e = trim_back(t, t.len() as int);
    assert forall|k: int| b <= k < t.len() implies is_ws(t[k]) by {
        assert(t[k] == after[k - b]);
    }
    assert(t[b - 1] == s[s.len() - 1]);
    if e < b {
        assert(is_ws(t[b - 1]));
    } else if e > b {
        assert(is_ws(t[e - 1]));
    }
    assert(t.subrange(a, b) =~= s);
}

/// Outside search mode `q`, and `c` with the control key held, quit and
/// change nothing.
pub proof fn law_quit_keys(a: App, key: Key, ctrl: bool, b: App, x: KeyAction)
    requires
        !a.search_active,
        key == Key::Char('q') || (key == Key::Char('c') && ctrl),
        key_handled(a, key, ctrl, b, x),
    ensures
        x is Quit,
        b == a,
{
}

} // verus!
