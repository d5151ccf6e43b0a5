//! Python packages installed for the user with `pip`.
use vstd::prelude::*;

use super::{is_sorted_version_of, tools_from_pairs, views, ManagerKind, PackageManager, Tool, ToolView};

verus! {

/// The `pip` package manager.
pub struct PipManager;

/// One package of `pip list --format=json --user`.
#[derive(Debug)]
pub struct PipPackage {
    pub name: String,
    pub version: String,
}

/// The tool that one package of the listing stands for.
pub open spec fn pip_package_tool(p: PipPackage) -> ToolView {
    ToolView { name: p.name@, version: Some(p.version@), manager: "pip"@ }
}

impl PipManager {
    /// The `pip` manager.
    pub fn new() -> Self {
        PipManager
    }

    /// The tools of a listing, sorted by name.
    pub fn tools_from_packages(packages: Vec<PipPackage>) -> (r: Vec<Tool>)
        ensures
            is_sorted_version_of(
                views(r@),
                packages@.map_values(|p: PipPackage| pip_package_tool(p)),
            ),
    {
        let ghost orig = packages@;
        let mut rest = packages;
        let mut pairs: Vec<(String, Option<String>)> = Vec::new();
        let ghost mut k: int = 0;
        while rest.len() > 0
            invariant
                0 <= k <= orig.len(),
                rest@ == orig.skip(k),
                pairs@.len() == k,
                forall|q: int|
                    0 <= q < k ==> super::pair_tool(#[trigger] pairs@[q], "pip"@) == pip_package_tool(
                        orig[q],
                    ),
            decreases rest.len(),
        {
            let p = rest.remove(0);
            pairs.push((p.name, Some(p.version)));
            assert(rest@ =~= orig.skip(k + 1));
            proof {
                k = k + 1;
            }
        }
        let r = tools_from_pairs(pairs, "pip");
        assert(pairs@.map_values(|p: (String, Option<String>)| super::pair_tool(p, "pip"@))
            =~= orig.map_values(|p: PipPackage| pip_package_tool(p)));
        r
    }
}

impl PackageManager for PipManager {
    open spec fn spec_kind(&self) -> ManagerKind {
        ManagerKind::Pip
    }

    fn kind(&self) -> (k: ManagerKind) {
        ManagerKind::Pip
    }

    fn name(&self) -> (r: &str) {
        ManagerKind::Pip.name()
    }

    fn icon(&self) -> (r: &str) {
        ManagerKind::Pip.icon()
    }
}

} // verus!
