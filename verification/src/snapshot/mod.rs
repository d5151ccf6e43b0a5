//! Snapshots of the installed toolchain: what every manager had installed,
//! for restoring it on another machine.
use vstd::prelude::*;

pub mod export;
pub mod import;

verus! {

/// Where and when a snapshot was taken.
#[derive(Debug)]
pub struct SnapshotMeta {
    pub date: String,
    pub hostname: String,
    pub lazypkg_version: String,
}

/// The tools one manager had installed.
#[derive(Debug)]
pub struct ManagerSnapshot {
    pub tools: Vec<String>,
}

/// A snapshot: its metadata and, per manager name, the installed tools.
#[derive(Debug)]
pub struct Snapshot {
    pub meta: SnapshotMeta,
    pub packages: Vec<(String, ManagerSnapshot)>,
}

/// The characters of each string.
pub open spec fn names_view(v: Seq<String>) -> Seq<Seq<char>> {
    v.map_values(|s: String| s@)
}

/// The packages of a snapshot as (manager name, tool names) pairs.
pub open spec fn packages_view(p: Seq<(String, ManagerSnapshot)>) -> Seq<(Seq<char>, Seq<Seq<char>>)> {
    p.map_values(|e: (String, ManagerSnapshot)| (e.0@, names_view(e.1.tools@)))
}

/// No manager is named by two entries.
pub open spec fn distinct_managers(p: Seq<(Seq<char>, Seq<Seq<char>>)>) -> bool {
    forall|i: int, j: int| 0 <= i < j < p.len() ==> (#[trigger] p[i]).0 != (#[trigger] p[j]).0
}

impl Snapshot {
    /// A snapshot file keys its packages by manager name: no manager is named
    /// twice.
    pub open spec fn wf(&self) -> bool {
        distinct_managers(packages_view(self.packages@))
    }
}

} // verus!
