//! Restoring a snapshot: which tools are missing, and what installing them did.
use vstd::prelude::*;

use super::{names_view, packages_view, Snapshot};
use crate::managers::{kind_named, manager_name, ManagerKind};
use crate::text::{append_str, copy_string, join, str_eq};

verus! {

/// The tools of one manager that a snapshot lists but that are not installed.
#[derive(Debug)]
pub struct ImportDiff {
    pub manager: String,
    pub missing_tools: Vec<String>,
}

/// The tools a manager has installed now.
#[derive(Debug)]
pub struct InstalledTools {
    pub manager: String,
    pub tools: Vec<String>,
}

/// One tool to install with one manager.
#[derive(Debug)]
pub struct InstallRequest {
    pub manager: ManagerKind,
    pub tool: String,
}

/// A diff as (manager name, missing tool names).
pub open spec fn diff_views(d: Seq<ImportDiff>) -> Seq<(Seq<char>, Seq<Seq<char>>)> {
    d.map_values(|x: ImportDiff| (x.manager@, names_view(x.missing_tools@)))
}

/// The installed tools as (manager name, tool names).
pub open spec fn installed_views(d: Seq<InstalledTools>) -> Seq<(Seq<char>, Seq<Seq<char>>)> {
    d.map_values(|x: InstalledTools| (x.manager@, names_view(x.tools@)))
}

/// The first entry at or after `j` whose manager is `key` (or the length).
pub open spec fn find_entry(entries: Seq<(Seq<char>, Seq<Seq<char>>)>, key: Seq<char>, j: int) -> int
    decreases entries.len() - j,
{
    if 0 <= j < entries.len() && entries[j].0 != key {
        find_entry(entries, key, j + 1)
    } else {
        j
    }
}

/// The tools listed for the manager `key`: those of its first entry.
pub open spec fn lookup(entries: Seq<(Seq<char>, Seq<Seq<char>>)>, key: Seq<char>) -> Option<Seq<Seq<char>>> {
    let i = find_entry(entries, key, 0);
    if 0 <= i < entries.len() {
        Some(entries[i].1)
    } else {
        None
    }
}

/// The wanted tools that are not among those installed, in order.
pub open spec fn missing_tools(wanted: Seq<Seq<char>>, have: Seq<Seq<char>>) -> Seq<Seq<char>> {
    wanted.filter(|t: Seq<char>| !have.contains(t))
}

/// What restoring one snapshot entry needs: nothing when its manager is not
/// among those installed (unknown or unavailable), or when nothing is missing.
pub open spec fn entry_diff(
    installed: Seq<(Seq<char>, Seq<Seq<char>>)>,
    entry: (Seq<char>, Seq<Seq<char>>),
) -> Option<(Seq<char>, Seq<Seq<char>>)> {
    match lookup(installed, entry.0) {
        Some(have) => {
            let m = missing_tools(entry.1, have);
            if m.len() > 0 {
                Some((entry.0, m))
            } else {
                None
            }
        },
        None => None,
    }
}

/// The diff between a snapshot's packages and the installed tools.
pub open spec fn import_diff(
    packages: Seq<(Seq<char>, Seq<Seq<char>>)>,
    installed: Seq<(Seq<char>, Seq<Seq<char>>)>,
) -> Seq<(Seq<char>, Seq<Seq<char>>)> {
    packages.filter_map(|e: (Seq<char>, Seq<Seq<char>>)| entry_diff(installed, e))
}

proof fn lemma_find_entry_bounds(entries: Seq<(Seq<char>, Seq<Seq<char>>)>, key: Seq<char>, j: int)
    requires
        0 <= j <= entries.len(),
    ensures
        j <= find_entry(entries, key, j) <= entries.len(),
        forall|k: int| j <= k < find_entry(entries, key, j) ==> (#[trigger] entries[k]).0 != key,
        find_entry(entries, key, j) < entries.len() ==> entries[find_entry(entries, key, j)].0
            == key,
    decreases entries.len() - j,
{
    if j < entries.len() && entries[j].0 != key {
        lemma_find_entry_bounds(entries, key, j + 1);
    }
}

/// `true` when `t` is among `have`.
pub fn contains_name(have: &Vec<String>, t: &String) -> (r: bool)
    ensures
        r == names_view(have@).contains(t@),
{
    let mut i: usize = 0;
    while i < have.len()
        invariant
            i <= have.len(),
            forall|k: int| 0 <= k < i ==> have@[k]@ != t@,
        decreases have.len() - i,
    {
        if str_eq(have[i].as_str(), t.as_str()) {
            assert(names_view(have@)[i as int] == t@);
            return true;
        }
        i = i + 1;
    }
    assert forall|k: int| 0 <= k < names_view(have@).len() implies names_view(have@)[k] != t@ by {
        assert(names_view(have@)[k] == have@[k]@);
    }
    false
}

/// The wanted tools that are not among those installed.
pub fn missing_from(wanted: &Vec<String>, have: &Vec<String>) -> (r: Vec<String>)
    ensures
        names_view(r@) == missing_tools(names_view(wanted@), names_view(have@)),
{
    let ghost p = |t: Seq<char>| !names_view(have@).contains(t);
    let ghost w = names_view(wanted@);
    let mut r: Vec<String> = Vec::new();
    let mut i: usize = 0;
    while i < wanted.len()
        invariant
            i <= wanted.len(),
            w == names_view(wanted@),
            p == (|t: Seq<char>| !names_view(have@).contains(t)),
            names_view(r@) == w.take(i as int).filter(p),
        decreases wanted.len() - i,
    {
        proof {
            w.take(i as int).lemma_filter_push(w[i as int], p);
            assert(w.take(i as int).push(w[i as int]) =~= w.take(i + 1));
        }
        let ghost before = names_view(r@);
        if !contains_name(have, &wanted[i]) {
            r.push(copy_string(&wanted[i]));
            assert(names_view(r@) =~= before.push(w[i as int]));
        }
        i = i + 1;
    }
    assert(w.take(wanted.len() as int) =~= w);
    r
}

/// The tools of the snapshot that are not installed, per manager, in the
/// snapshot's order. `installed` holds the current tools of each manager
/// that could be asked; a snapshot entry of any other manager is skipped,
/// and so is an entry of which nothing is missing.
pub fn compute_diff(snapshot: &Snapshot, installed: &Vec<InstalledTools>) -> (r: Vec<ImportDiff>)
    ensures
        diff_views(r@) == import_diff(packages_view(snapshot.packages@), installed_views(installed@)),
{
    let ghost pk = packages_view(snapshot.packages@);
    let ghost inst = installed_views(installed@);
    let ghost f = |e: (Seq<char>, Seq<Seq<char>>)| entry_diff(inst, e);
    let mut diffs: Vec<ImportDiff> = Vec::new();
    let mut i: usize = 0;
    while i < snapshot.packages.len()
        invariant
            i <= snapshot.packages.len(),
            pk == packages_view(snapshot.packages@),
            inst == installed_views(installed@),
            f == (|e: (Seq<char>, Seq<Seq<char>>)| entry_diff(inst, e)),
            diff_views(diffs@) == pk.take(i as int).filter_map(f),
        decreases snapshot.packages.len() - i,
    {
        proof {
            pk.lemma_filter_map_take_succ(f, i as int);
        }
        let (name, snap) = &snapshot.packages[i];
        let ghost key = name@;
        assert(pk[i as int] == (key, names_view(snap.tools@)));
        proof {
            lemma_find_entry_bounds(inst, key, 0);
        }
        let mut j: usize = 0;
        while j < installed.len() && !str_eq(installed[j].manager.as_str(), name.as_str())
            invariant
                j <= installed.len(),
                inst == installed_views(installed@),
                find_entry(inst, key, j as int) == find_entry(inst, key, 0),
                key == name@,
            decreases installed.len() - j,
        {
            assert(inst[j as int].0 == installed@[j as int].manager@);
            j = j + 1;
        }
        if j < installed.len() {
            assert(inst[j as int].0 == installed@[j as int].manager@);
            assert(lookup(inst, key) == Some(names_view(installed@[j as int].tools@)));
            let missing = missing_from(&snap.tools, &installed[j].tools);
            if missing.len() > 0 {
                let ghost before = diff_views(diffs@);
                let d = ImportDiff { manager: copy_string(name), missing_tools: missing };
                diffs.push(d);
                assert(diff_views(diffs@) =~= before + seq![(key, names_view(missing@))]);
            }
        } else {
            assert(lookup(inst, key) is None);
        }
        i = i + 1;
    }
    assert(pk.take(snapshot.packages.len() as int) =~= pk);
    diffs
}

/// The managers a snapshot names that this browser knows, in the snapshot's
/// order: those whose installed tools `compute_diff` needs.
pub fn managers_to_query(snapshot: &Snapshot) -> (r: Vec<ManagerKind>)
    ensures
        r@ == packages_view(snapshot.packages@).filter_map(
            |e: (Seq<char>, Seq<Seq<char>>)| kind_named(e.0),
        ),
{
    let ghost pk = packages_view(snapshot.packages@);
    let ghost f = |e: (Seq<char>, Seq<Seq<char>>)| kind_named(e.0);
    let mut r: Vec<ManagerKind> = Vec::new();
    let mut i: usize = 0;
    while i < snapshot.packages.len()
        invariant
            i <= snapshot.packages.len(),
            pk == packages_view(snapshot.packages@),
            f == (|e: (Seq<char>, Seq<Seq<char>>)| kind_named(e.0)),
            r@ == pk.take(i as int).filter_map(f),
        decreases snapshot.packages.len() - i,
    {
        proof {
            pk.lemma_filter_map_take_succ(f, i as int);
        }
        match ManagerKind::from_name(snapshot.packages[i].0.as_str()) {
            Some(k) => {
                r.push(k);
            },
            None => {},
        }
        i = i + 1;
    }
    assert(pk.take(snapshot.packages.len() as int) =~= pk);
    r
}

/// The requests as (manager, tool name).
pub open spec fn requests_view(r: Seq<InstallRequest>) -> Seq<(ManagerKind, Seq<char>)> {
    r.map_values(|x: InstallRequest| (x.manager, x.tool@))
}

/// The installs that restoring one diff entry takes: each missing tool with
/// the entry's manager, none when the manager is unknown.
pub open spec fn entry_requests(d: (Seq<char>, Seq<Seq<char>>)) -> Seq<(ManagerKind, Seq<char>)> {
    match kind_named(d.0) {
        Some(k) => d.1.map_values(|t: Seq<char>| (k, t)),
        None => Seq::empty(),
    }
}

/// The installs that restoring a diff takes, in order.
pub fn install_requests(diffs: &Vec<ImportDiff>) -> (r: Vec<InstallRequest>)
    ensures
        requests_view(r@) == diff_views(diffs@).flat_map(
            |d: (Seq<char>, Seq<Seq<char>>)| entry_requests(d),
        ),
{
    let ghost dv = diff_views(diffs@);
    let ghost f = |d: (Seq<char>, Seq<Seq<char>>)| entry_requests(d);
    let mut r: Vec<InstallRequest> = Vec::new();
    let mut i: usize = 0;
    while i < diffs.len()
        invariant
            i <= diffs.len(),
            dv == diff_views(diffs@),
            f == (|d: (Seq<char>, Seq<Seq<char>>)| entry_requests(d)),
            requests_view(r@) == dv.take(i as int).flat_map(f),
        decreases diffs.len() - i,
    {
        proof {
            dv.lemma_flat_map_take_append(f, i as int);
        }
        let d = &diffs[i];
        let ghost before = requests_view(r@);
        match ManagerKind::from_name(d.manager.as_str()) {
            Some(k) => {
                let ghost tv = names_view(d.missing_tools@);
                let mut j: usize = 0;
                while j < d.missing_tools.len()
                    invariant
                        j <= d.missing_tools.len(),
                        tv == names_view(d.missing_tools@),
                        requests_view(r@) == before + tv.take(j as int).map_values(
                            |t: Seq<char>| (k, t),
                        ),
                    decreases d.missing_tools.len() - j,
                {
                    let ghost mid = requests_view(r@);
                    r.push(InstallRequest { manager: k, tool: copy_string(&d.missing_tools[j]) });
                    assert(requests_view(r@) =~= mid.push((k, tv[j as int])));
                    assert(tv.take(j + 1).map_values(|t: Seq<char>| (k, t)) =~= tv.take(
                        j as int,
                    ).map_values(|t: Seq<char>| (k, t)).push((k, tv[j as int])));
                    j = j + 1;
                }
                assert(tv.take(d.missing_tools.len() as int) =~= tv);
                assert(f(dv[i as int]) == tv.map_values(|t: Seq<char>| (k, t)));
            },
            None => {
                assert(f(dv[i as int]) =~= Seq::<(ManagerKind, Seq<char>)>::empty());
                assert(requests_view(r@) =~= before + Seq::<(ManagerKind, Seq<char>)>::empty());
            },
        }
        i = i + 1;
    }
    assert(dv.take(diffs.len() as int) =~= dv);
    r
}

/// How an install is named in reports: `manager/tool`.
pub open spec fn install_label(k: ManagerKind, tool: Seq<char>) -> Seq<char> {
    manager_name(k) + "/"@ + tool
}

/// The report of an install that succeeded, if it did.
pub open spec fn installed_line(o: (InstallRequest, Result<(), String>)) -> Option<Seq<char>> {
    match o.1 {
        Ok(_) => Some(install_label(o.0.manager, o.0.tool@)),
        Err(_) => None,
    }
}

/// The report of an install that failed, if it did: `manager/tool: error`.
pub open spec fn failed_line(o: (InstallRequest, Result<(), String>)) -> Option<Seq<char>> {
    match o.1 {
        Ok(_) => None,
        Err(e) => Some(install_label(o.0.manager, o.0.tool@) + ": "@ + e@),
    }
}

/// The outcome of restoring a snapshot, from the outcome of each install:
/// the installed tools as `manager/tool` when all succeeded, else an error
/// listing each failure on a line of its own.
pub fn install_missing(outcomes: &Vec<(InstallRequest, Result<(), String>)>) -> (r: Result<
    Vec<String>,
    String,
>)
    ensures
        ({
            let ok = outcomes@.filter_map(|o: (InstallRequest, Result<(), String>)| installed_line(o));
            let bad = outcomes@.filter_map(|o: (InstallRequest, Result<(), String>)| failed_line(o));
            match r {
                Ok(v) => bad.len() == 0 && names_view(v@) == ok,
                Err(msg) => bad.len() > 0 && msg@ == "Some installs failed:\n"@ + join(bad, "\n"@),
            }
        }),
{
    let ghost fo = |o: (InstallRequest, Result<(), String>)| installed_line(o);
    let ghost fb = |o: (InstallRequest, Result<(), String>)| failed_line(o);
    let mut installed: Vec<String> = Vec::new();
    let mut errors: Vec<String> = Vec::new();
    let mut i: usize = 0;
    while i < outcomes.len()
        invariant
            i <= outcomes.len(),
            fo == (|o: (InstallRequest, Result<(), String>)| installed_line(o)),
            fb == (|o: (InstallRequest, Result<(), String>)| failed_line(o)),
            names_view(installed@) == outcomes@.take(i as int).filter_map(fo),
            names_view(errors@) == outcomes@.take(i as int).filter_map(fb),
        decreases outcomes.len() - i,
    {
        proof {
            outcomes@.lemma_filter_map_take_succ(fo, i as int);
            outcomes@.lemma_filter_map_take_succ(fb, i as int);
        }
        let (req, res) = &outcomes[i];
        let mut label = String::new();
        append_str(&mut label, req.manager.name());
        append_str(&mut label, "/");
        append_str(&mut label, req.tool.as_str());
        match res {
            Ok(()) => {
                let ghost before = names_view(installed@);
                installed.push(label);
                assert(names_view(installed@) =~= before + seq![fo(outcomes@[i as int])->0]);
            },
            Err(e) => {
                let ghost before = names_view(errors@);
                append_str(&mut label, ": ");
                append_str(&mut label, e.as_str());
                errors.push(label);
                assert(names_view(errors@) =~= before + seq![fb(outcomes@[i as int])->0]);
            },
        }
        i = i + 1;
    }
    assert(outcomes@.take(outcomes.len() as int) =~= outcomes@);
    if errors.len() > 0 {
        let mut msg = String::new();
        append_str(&mut msg, "Some installs failed:\n");
        let joined = join_strings(&errors, "\n");
        append_str(&mut msg, joined.as_str());
        Err(msg)
    } else {
        Ok(installed)
    }
}

/// The strings joined with `sep` between each two.
pub fn join_strings(parts: &Vec<String>, sep: &str) -> (r: String)
    ensures
        r@ == join(names_view(parts@), sep@),
{
    let ghost pv = names_view(parts@);
    let mut r = String::new();
    let mut i: usize = 0;
    while i < parts.len()
        invariant
            i <= parts.len(),
            pv == names_view(parts@),
            r@ == join(pv.take(i as int), sep@),
        decreases parts.len() - i,
    {
        let ghost before = r@;
        if i > 0 {
            append_str(&mut r, sep);
        }
        append_str(&mut r, parts[i].as_str());
        proof {
            let q = pv.take(i + 1);
            assert(q.drop_last() =~= pv.take(i as int));
            assert(q.last() == pv[i as int]);
            if i == 0 {
                assert(before =~= Seq::<char>::empty());
                assert(r@ =~= pv[0]);
            }
        }
        i = i + 1;
    }
    assert(pv.take(parts.len() as int) =~= pv);
    r
}

} // verus!
