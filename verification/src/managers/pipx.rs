//! Python applications installed with `pipx`.
use vstd::prelude::*;

use super::{
    distinct_keys, distinct_names, is_sorted_version_of, tools_from_pairs, views, ManagerKind,
    PackageManager, Tool, ToolView,
};

verus! {

/// The `pipx` package manager.
pub struct PipxManager;

/// The main package of a virtual environment.
#[derive(Debug)]
pub struct PipxMainPackage {
    pub package_version: Option<String>,
}

/// The metadata of a virtual environment.
#[derive(Debug)]
pub struct PipxMetadata {
    pub main_package: Option<PipxMainPackage>,
}

/// One virtual environment of `pipx list --json`.
#[derive(Debug)]
pub struct PipxVenv {
    pub metadata: Option<PipxMetadata>,
}

/// The listing of `pipx list --json`: each virtual environment by name.
#[derive(Debug)]
pub struct PipxList {
    pub venvs: Vec<(String, PipxVenv)>,
}

impl PipxList {
    /// The environments are a JSON object keyed by name: no name occurs twice.
    pub open spec fn wf(&self) -> bool {
        distinct_keys(self.venvs@)
    }
}

/// The version of a virtual environment's main package, when it is recorded.
pub open spec fn venv_version(v: PipxVenv) -> Option<Seq<char>> {
    match v.metadata {
        Some(m) => match m.main_package {
            Some(p) => match p.package_version {
                Some(s) => Some(s@),
                None => None,
            },
            None => None,
        },
        None => None,
    }
}

/// The tool that one virtual environment stands for.
pub open spec fn pipx_venv_tool(entry: (String, PipxVenv)) -> ToolView {
    ToolView { name: entry.0@, version: venv_version(entry.1), manager: "pipx"@ }
}

impl PipxManager {
    /// The `pipx` manager.
    pub fn new() -> Self {
        PipxManager
    }

    /// The version recorded for a virtual environment.
    fn version_of(venv: PipxVenv) -> (r: Option<String>)
        ensures
            super::opt_view(r) == venv_version(venv),
    {
        match venv.metadata {
            Some(m) => match m.main_package {
                Some(p) => p.package_version,
                None => None,
            },
            None => None,
        }
    }

    /// The tools of a listing, sorted by name.
    pub fn tools_from_list(list: PipxList) -> (r: Vec<Tool>)
        ensures
            is_sorted_version_of(
                views(r@),
                list.venvs@.map_values(|e: (String, PipxVenv)| pipx_venv_tool(e)),
            ),
            list.wf() ==> distinct_names(views(r@)),
    {
        let ghost orig = list.venvs@;
        let mut rest = list.venvs;
        let mut pairs: Vec<(String, Option<String>)> = Vec::new();
        let ghost mut k: int = 0;
        while rest.len() > 0
            invariant
                0 <= k <= orig.len(),
                rest@ == orig.skip(k),
                pairs@.len() == k,
                forall|q: int|
                    0 <= q < k ==> super::pair_tool(#[trigger] pairs@[q], "pipx"@) == pipx_venv_tool(
                        orig[q],
                    ),
            decreases rest.len(),
        {
            let (name, venv) = rest.remove(0);
            let version = Self::version_of(venv);
            pairs.push((name, version));
            assert(rest@ =~= orig.skip(k + 1));
            proof {
                k = k + 1;
            }
        }
        proof {
            if distinct_keys(orig) {
                assert forall|a: int, b: int| 0 <= a < b < pairs@.len() implies (#[trigger] pairs@[
                    a
                ]).0@ != (#[trigger] pairs@[b]).0@ by {
                    assert(super::pair_tool(pairs@[a], "pipx"@) == pipx_venv_tool(orig[a]));
                    assert(super::pair_tool(pairs@[b], "pipx"@) == pipx_venv_tool(orig[b]));
                }
            }
        }
        let r = tools_from_pairs(pairs, "pipx");
        assert(pairs@.map_values(|p: (String, Option<String>)| super::pair_tool(p, "pipx"@))
            =~= orig.map_values(|e: (String, PipxVenv)| pipx_venv_tool(e)));
        r
    }
}

impl PackageManager for PipxManager {
    open spec fn spec_kind(&self) -> ManagerKind {
        ManagerKind::Pipx
    }

    fn kind(&self) -> (k: ManagerKind) {
        ManagerKind::Pipx
    }

    fn name(&self) -> (r: &str) {
        ManagerKind::Pipx.name()
    }

    fn icon(&self) -> (r: &str) {
        ManagerKind::Pipx.icon()
    }
}

} // verus!
