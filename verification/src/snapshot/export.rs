//! Taking a snapshot of the installed tools.
use vstd::prelude::*;

use super::{distinct_managers, names_view, packages_view, ManagerSnapshot, Snapshot, SnapshotMeta};
use crate::managers::{lemma_manager_name_injective, manager_name, views, ManagerKind, Tool, ToolView};
use crate::text::{
    append_str, chars_of, copy_string, decimal, decimal_string, string_from, trim, trim_bounds,
};

verus! {

/// The tool names of a listing.
pub open spec fn tool_names(tools: Seq<ToolView>) -> Seq<Seq<char>> {
    tools.map_values(|t: ToolView| t.name)
}

/// The managers whose listing succeeded, each with its tool names.
pub open spec fn listed_packages(listings: Seq<(ManagerKind, Option<Vec<Tool>>)>) -> Seq<
    (Seq<char>, Seq<Seq<char>>),
> {
    listings.filter_map(
        |l: (ManagerKind, Option<Vec<Tool>>)|
            match l.1 {
                Some(tools) => Some((manager_name(l.0), tool_names(views(tools@)))),
                None => None,
            },
    )
}

/// No manager has two listings.
pub open spec fn distinct_kinds(listings: Seq<(ManagerKind, Option<Vec<Tool>>)>) -> bool {
    forall|i: int, j: int|
        0 <= i < j < listings.len() ==> (#[trigger] listings[i]).0 != (#[trigger] listings[j]).0
}

/// The names of the tools, in order.
fn names_of(tools: &Vec<Tool>) -> (r: Vec<String>)
    ensures
        names_view(r@) == tool_names(views(tools@)),
{
    let mut r: Vec<String> = Vec::new();
    let mut i: usize = 0;
    while i < tools.len()
        invariant
            i <= tools.len(),
            names_view(r@) == tool_names(views(tools@)).take(i as int),
        decreases tools.len() - i,
    {
        let ghost before = names_view(r@);
        r.push(copy_string(&tools[i].name));
        assert(views(tools@)[i as int] == tools@[i as int]@);
        assert(tool_names(views(tools@))[i as int] == tools@[i as int].name@);
        assert(names_view(r@) =~= before.push(tools@[i as int].name@));
        assert(names_view(r@) =~= tool_names(views(tools@)).take(i + 1));
        i = i + 1;
    }
    assert(tool_names(views(tools@)).take(tools.len() as int) =~= tool_names(views(tools@)));
    r
}

/// The snapshot of the given listings: for every manager whose listing
/// succeeded (`Some`), its name and the names of its tools, in order.
pub fn build_snapshot(
    listings: &Vec<(ManagerKind, Option<Vec<Tool>>)>,
    date: String,
    hostname: String,
    version: String,
) -> (r: Snapshot)
    ensures
        packages_view(r.packages@) == listed_packages(listings@),
        distinct_kinds(listings@) ==> r.wf(),
        r.meta.date@ == date@,
        r.meta.hostname@ == hostname@,
        r.meta.lazypkg_version@ == version@,
{
    let ghost f = |l: (ManagerKind, Option<Vec<Tool>>)|
        match l.1 {
            Some(tools) => Some((manager_name(l.0), tool_names(views(tools@)))),
            None => None,
        };
    let mut packages: Vec<(String, ManagerSnapshot)> = Vec::new();
    let mut i: usize = 0;
    while i < listings.len()
        invariant
            i <= listings.len(),
            f == (|l: (ManagerKind, Option<Vec<Tool>>)|
                match l.1 {
                    Some(tools) => Some((manager_name(l.0), tool_names(views(tools@)))),
                    None => None,
                }),
            packages_view(packages@) == listings@.take(i as int).filter_map(f),
            forall|q: int|
                0 <= q < packages@.len() ==> exists|p: int|
                    0 <= p < i && #[trigger] packages_view(packages@)[q].0 == manager_name(
                        #[trigger] listings@[p].0,
                    ),
            distinct_kinds(listings@) ==> distinct_managers(packages_view(packages@)),
        decreases listings.len() - i,
    {
        proof {
            listings@.lemma_filter_map_take_succ(f, i as int);
        }
        let (kind, listing) = &listings[i];
        match listing {
            Some(tools) => {
                let mut name = String::new();
                crate::text::append_str(&mut name, kind.name());
                let entry = (name, ManagerSnapshot { tools: names_of(tools) });
                let ghost before = packages_view(packages@);
                packages.push(entry);
                assert(packages_view(packages@) =~= before + seq![
                    (manager_name(*kind), tool_names(views(tools@))),
                ]);
                proof {
                    let pv = packages_view(packages@);
                    let n = before.len() as int;
                    assert(pv[n].0 == manager_name(listings@[i as int].0));
                    assert forall|q: int| 0 <= q < pv.len() implies exists|p: int|
                        0 <= p < i + 1 && #[trigger] pv[q].0 == manager_name(
                            #[trigger] listings@[p].0,
                        ) by {
                        if q < n {
                            assert(pv[q] == before[q]);
                        }
                    }
                    if distinct_kinds(listings@) {
                        assert forall|a: int, b: int| 0 <= a < b < pv.len() implies (#[trigger] pv[
                            a
                        ]).0 != (#[trigger] pv[b]).0 by {
                            assert(pv[a] == before[a]);
                            if b < n {
                                assert(pv[b] == before[b]);
                            } else {
                                let p = choose|p: int|
                                    0 <= p < i && #[trigger] before[a].0 == manager_name(
                                        #[trigger] listings@[p].0,
                                    );
                                lemma_manager_name_injective(
                                    listings@[p].0,
                                    listings@[i as int].0,
                                );
                            }
                        }
                    }
                }
            },
            None => {},
        }
        i = i + 1;
    }
    assert(listings@.take(listings.len() as int) =~= listings@);
    Snapshot {
        meta: SnapshotMeta { date, hostname, lazypkg_version: version },
        packages,
    }
}

/// The snapshot date: the seconds since the Unix epoch, in decimal.
pub fn format_now(unix_seconds: u64) -> (r: String)
    ensures
        r@ == decimal(unix_seconds as nat),
{
    decimal_string(unix_seconds)
}

/// The host name recorded in a snapshot: the trimmed contents of the host
/// name file, or `unknown` when it could not be read or is blank.
pub fn hostname_from(contents: Option<String>) -> (r: String)
    ensures
        r@ == match contents {
            Some(c) => if trim(c@).len() > 0 {
                trim(c@)
            } else {
                "unknown"@
            },
            None => "unknown"@,
        },
{
    match contents {
        Some(c) => {
            let v = chars_of(c.as_str());
            let (a, b) = trim_bounds(&v);
            if a < b {
                string_from(&v, a, b)
            } else {
                String::from_str("unknown")
            }
        },
        None => String::from_str("unknown"),
    }
}

/// `base` with the relative component `part` appended, as `PathBuf::push`
/// (and `Path::join`) does on Unix: no separator after an empty base or one
/// that already ends in `/`, else one `/` between them.
pub open spec fn path_join(base: Seq<char>, part: Seq<char>) -> Seq<char> {
    if base.len() == 0 {
        part
    } else if base.last() == '/' {
        base + part
    } else {
        base + "/"@ + part
    }
}

/// The configuration directory: `$XDG_CONFIG_HOME` when it is set, else
/// `$HOME/.config`.
pub open spec fn config_dir(xdg_config_home: Option<Seq<char>>, home: Seq<char>) -> Seq<char> {
    match xdg_config_home {
        Some(x) => x,
        None => path_join(home, ".config"@),
    }
}

/// Appends the relative component `part` to the path `base`.
fn push_component(base: &mut String, part: &str)
    ensures
        final(base)@ == path_join(old(base)@, part@),
{
    let v = chars_of(base.as_str());
    if v.len() > 0 && v[v.len() - 1] != '/' {
        append_str(base, "/");
    }
    append_str(base, part);
    proof {
        if v@.len() > 0 {
            assert(v@.last() == v@[v@.len() - 1]);
        }
    }
}

/// Where snapshots are written and read: `lazypkg/snapshot.toml` under the
/// configuration directory (`$XDG_CONFIG_HOME` when it is set, given here as
/// `xdg_config_home`, else `.config` under the home directory `home`).
pub fn snapshot_path(xdg_config_home: Option<&str>, home: &str) -> (r: String)
    ensures
        r@ == path_join(
            path_join(
                config_dir(
                    match xdg_config_home {
                        Some(x) => Some(x@),
                        None => None,
                    },
                    home@,
                ),
                "lazypkg"@,
            ),
            "snapshot.toml"@,
        ),
{
    let mut p = String::new();
    match xdg_config_home {
        Some(x) => append_str(&mut p, x),
        None => {
            append_str(&mut p, home);
            assert(p@ == home@);
            push_component(&mut p, ".config");
        },
    }
    push_component(&mut p, "lazypkg");
    push_component(&mut p, "snapshot.toml");
    p
}

} // verus!
