//! Packages installed globally with `pnpm`.
use vstd::prelude::*;

use super::{
    distinct_keys, distinct_names, is_sorted_version_of, opt_view, tools_from_pairs, views,
    ManagerKind, PackageManager, Tool, ToolView,
};

verus! {

/// The `pnpm` package manager.
pub struct PnpmManager;

/// One dependency of a `pnpm list -g --json` entry.
#[derive(Debug)]
pub struct PnpmDep {
    pub version: Option<String>,
}

/// One entry of `pnpm list -g --json`: its dependencies by name (an absent
/// `dependencies` object is an empty list).
#[derive(Debug)]
pub struct PnpmEntry {
    pub dependencies: Vec<(String, PnpmDep)>,
}

impl PnpmEntry {
    /// The dependencies are a JSON object keyed by name: no name occurs twice.
    pub open spec fn wf(&self) -> bool {
        distinct_keys(self.dependencies@)
    }
}

/// The tool that one dependency stands for.
pub open spec fn pnpm_dep_tool(entry: (String, PnpmDep)) -> ToolView {
    ToolView { name: entry.0@, version: opt_view(entry.1.version), manager: "pnpm"@ }
}

/// The dependencies that the listing reports: those of its first entry.
pub open spec fn pnpm_listed_deps(entries: Seq<PnpmEntry>) -> Seq<(String, PnpmDep)> {
    if entries.len() > 0 {
        entries[0].dependencies@
    } else {
        Seq::empty()
    }
}

impl PnpmManager {
    /// The `pnpm` manager.
    pub fn new() -> Self {
        PnpmManager
    }

    /// The tools of the first entry of a listing, sorted by name.
    pub fn tools_from_entries(entries: Vec<PnpmEntry>) -> (r: Vec<Tool>)
        ensures
            is_sorted_version_of(
                views(r@),
                pnpm_listed_deps(entries@).map_values(|e: (String, PnpmDep)| pnpm_dep_tool(e)),
            ),
            entries@.len() > 0 && entries@[0].wf() ==> distinct_names(views(r@)),
    {
        let ghost all = entries@;
        let mut entries = entries;
        let deps: Vec<(String, PnpmDep)> = if entries.len() > 0 {
            entries.remove(0).dependencies
        } else {
            Vec::new()
        };
        let ghost orig = deps@;
        assert(orig == pnpm_listed_deps(all));
        let mut rest = deps;
        let mut pairs: Vec<(String, Option<String>)> = Vec::new();
        let ghost mut k: int = 0;
        while rest.len() > 0
            invariant
                0 <= k <= orig.len(),
                rest@ == orig.skip(k),
                pairs@.len() == k,
                forall|q: int|
                    0 <= q < k ==> super::pair_tool(#[trigger] pairs@[q], "pnpm"@) == pnpm_dep_tool(
                        orig[q],
                    ),
            decreases rest.len(),
        {
            let (name, dep) = rest.remove(0);
            pairs.push((name, dep.version));
            assert(rest@ =~= orig.skip(k + 1));
            proof {
                k = k + 1;
            }
        }
        proof {
            if distinct_keys(orig) {
                assert forall|a: int, b: int| 0 <= a < b < pairs@.len() implies (#[trigger] pairs@[
                    a
                ]).0@ != (#[trigger] pairs@[b]).0@ by {
                    assert(super::pair_tool(pairs@[a], "pnpm"@) == pnpm_dep_tool(orig[a]));
                    assert(super::pair_tool(pairs@[b], "pnpm"@) == pnpm_dep_tool(orig[b]));
                }
            }
        }
        let r = tools_from_pairs(pairs, "pnpm");
        assert(pairs@.map_values(|p: (String, Option<String>)| super::pair_tool(p, "pnpm"@))
            =~= orig.map_values(|e: (String, PnpmDep)| pnpm_dep_tool(e)));
        r
    }
}

impl PackageManager for PnpmManager {
    open spec fn spec_kind(&self) -> ManagerKind {
        ManagerKind::Pnpm
    }

    fn kind(&self) -> (k: ManagerKind) {
        ManagerKind::Pnpm
    }

    fn name(&self) -> (r: &str) {
        ManagerKind::Pnpm.name()
    }

    fn icon(&self) -> (r: &str) {
        ManagerKind::Pnpm.icon()
    }
}

} // verus!
