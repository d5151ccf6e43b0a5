//! Packages installed globally with `npm`.
use vstd::prelude::*;

use super::{
    distinct_keys, distinct_names, is_sorted_version_of, opt_view, tools_from_pairs, views,
    ManagerKind, PackageManager, Tool, ToolView,
};

verus! {

/// The `npm` package manager.
pub struct NpmManager;

/// One dependency entry of `npm list -g --json`.
#[derive(Debug)]
pub struct NpmDep {
    pub version: Option<String>,
}

/// The listing of `npm list -g --json --depth=0`: each dependency by name
/// (an absent `dependencies` object is an empty list).
#[derive(Debug)]
pub struct NpmList {
    pub dependencies: Vec<(String, NpmDep)>,
}

impl NpmList {
    /// The dependencies are a JSON object keyed by name: no name occurs twice.
    pub open spec fn wf(&self) -> bool {
        distinct_keys(self.dependencies@)
    }
}

/// The tool that one dependency of the listing stands for.
pub open spec fn npm_dep_tool(entry: (String, NpmDep)) -> ToolView {
    ToolView { name: entry.0@, version: opt_view(entry.1.version), manager: "npm"@ }
}

impl NpmManager {
    /// The `npm` manager.
    pub fn new() -> Self {
        NpmManager
    }

    /// The tools of a listing, sorted by name.
    pub fn tools_from_list(list: NpmList) -> (r: Vec<Tool>)
        ensures
            is_sorted_version_of(
                views(r@),
                list.dependencies@.map_values(|e: (String, NpmDep)| npm_dep_tool(e)),
            ),
            list.wf() ==> distinct_names(views(r@)),
    {
        let ghost orig = list.dependencies@;
        let mut rest = list.dependencies;
        let mut pairs: Vec<(String, Option<String>)> = Vec::new();
        let ghost mut k: int = 0;
        while rest.len() > 0
            invariant
                0 <= k <= orig.len(),
                rest@ == orig.skip(k),
                pairs@.len() == k,
                forall|q: int|
                    0 <= q < k ==> super::pair_tool(#[trigger] pairs@[q], "npm"@) == npm_dep_tool(
                        orig[q],
                    ),
            decreases rest.len(),
        {
            let (name, dep) = rest.remove(0);
            pairs.push((name, dep.version));
            assert(rest@ =~= orig.skip(k + 1));
            proof {
                k = k + 1;
            }
        }
        proof {
            if distinct_keys(orig) {
                assert forall|a: int, b: int| 0 <= a < b < pairs@.len() implies (#[trigger] pairs@[
                    a
                ]).0@ != (#[trigger] pairs@[b]).0@ by {
                    assert(super::pair_tool(pairs@[a], "npm"@) == npm_dep_tool(orig[a]));
                    assert(super::pair_tool(pairs@[b], "npm"@) == npm_dep_tool(orig[b]));
                }
            }
        }
        let r = tools_from_pairs(pairs, "npm");
        assert(pairs@.map_values(|p: (String, Option<String>)| super::pair_tool(p, "npm"@))
            =~= orig.map_values(|e: (String, NpmDep)| npm_dep_tool(e)));
        r
    }
}

impl PackageManager for NpmManager {
    open spec fn spec_kind(&self) -> ManagerKind {
        ManagerKind::Npm
    }

    fn kind(&self) -> (k: ManagerKind) {
        ManagerKind::Npm
    }

    fn name(&self) -> (r: &str) {
        ManagerKind::Npm.name()
    }

    fn icon(&self) -> (r: &str) {
        ManagerKind::Npm.icon()
    }
}

} // verus!
