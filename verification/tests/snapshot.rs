use lazypkg::managers::{all_managers, ManagerKind, Tool};
use lazypkg::snapshot::export::{build_snapshot, format_now, hostname_from, snapshot_path};
use std::path::PathBuf;
use lazypkg::snapshot::import::{
    compute_diff, install_missing, install_requests, join_strings, managers_to_query,
    ImportDiff, InstallRequest, InstalledTools,
};
use lazypkg::snapshot::{ManagerSnapshot, Snapshot, SnapshotMeta};

fn tool(name: &str, manager: &str) -> Tool {
    Tool { name: name.to_string(), version: Some("1.0".to_string()), manager: manager.to_string() }
}

fn strings(v: &[&str]) -> Vec<String> {
    v.iter().map(|s| s.to_string()).collect()
}

fn snapshot(packages: Vec<(&str, Vec<&str>)>) -> Snapshot {
    Snapshot {
        meta: SnapshotMeta {
            date: "0".to_string(),
            hostname: "h".to_string(),
            lazypkg_version: "0.1.0".to_string(),
        },
        packages: packages
            .into_iter()
            .map(|(m, t)| (m.to_string(), ManagerSnapshot { tools: strings(&t) }))
            .collect(),
    }
}

#[test]
fn snapshot_keeps_successful_listings() {
    let listings = vec![
        (ManagerKind::Cargo, Some(vec![tool("bat", "cargo"), tool("fd", "cargo")])),
        (ManagerKind::Dnf, None),
        (ManagerKind::Npm, Some(vec![])),
    ];
    let s = build_snapshot(&listings, format_now(1700000000), "box".to_string(), "0.1.0".to_string());
    assert_eq!(s.meta.date, "1700000000");
    assert_eq!(s.meta.hostname, "box");
    assert_eq!(s.packages.len(), 2);
    assert_eq!(s.packages[0].0, "cargo");
    assert_eq!(s.packages[0].1.tools, strings(&["bat", "fd"]));
    assert_eq!(s.packages[1].0, "npm");
    assert!(s.packages[1].1.tools.is_empty());
}

#[test]
fn snapshot_of_every_manager_names_each_once() {
    let listings: Vec<(ManagerKind, Option<Vec<Tool>>)> =
        all_managers().into_iter().map(|k| (k, Some(vec![]))).collect();
    let s = build_snapshot(&listings, format_now(1), "h".to_string(), "v".to_string());
    assert_eq!(s.packages.len(), 6);
    for i in 0..s.packages.len() {
        for j in (i + 1)..s.packages.len() {
            assert_ne!(s.packages[i].0, s.packages[j].0);
        }
    }
}

#[test]
fn format_now_is_decimal() {
    assert_eq!(format_now(0), "0");
    assert_eq!(format_now(9), "9");
    assert_eq!(format_now(10), "10");
    assert_eq!(format_now(u64::MAX), u64::MAX.to_string());
}

#[test]
fn hostname_is_trimmed_or_unknown() {
    assert_eq!(hostname_from(Some("  myhost\n".to_string())), "myhost");
    assert_eq!(hostname_from(Some(" \n".to_string())), "unknown");
    assert_eq!(hostname_from(None), "unknown");
}

#[test]
fn diff_lists_missing_tools() {
    let s = snapshot(vec![
        ("cargo", vec!["bat", "fd", "rg"]),
        ("brew", vec!["wget"]),
        ("npm", vec!["yarn"]),
        ("pip", vec!["black"]),
    ]);
    let installed = vec![
        InstalledTools { manager: "cargo".to_string(), tools: strings(&["fd"]) },
        InstalledTools { manager: "npm".to_string(), tools: strings(&["yarn", "eslint"]) },
    ];
    let d = compute_diff(&s, &installed);
    assert_eq!(d.len(), 1);
    assert_eq!(d[0].manager, "cargo");
    assert_eq!(d[0].missing_tools, strings(&["bat", "rg"]));
}

#[test]
fn restoring_on_the_same_machine_needs_nothing() {
    let listings = vec![
        (ManagerKind::Cargo, Some(vec![tool("bat", "cargo")])),
        (ManagerKind::Pipx, Some(vec![tool("black", "pipx"), tool("httpie", "pipx")])),
    ];
    let s = build_snapshot(&listings, "1".to_string(), "h".to_string(), "v".to_string());
    let installed: Vec<InstalledTools> = s
        .packages
        .iter()
        .map(|(m, p)| InstalledTools { manager: m.clone(), tools: p.tools.clone() })
        .collect();
    assert!(compute_diff(&s, &installed).is_empty());
}

#[test]
fn managers_to_query_skips_unknown() {
    let s = snapshot(vec![("brew", vec![]), ("pipx", vec![]), ("cargo", vec![])]);
    assert_eq!(managers_to_query(&s), vec![ManagerKind::Pipx, ManagerKind::Cargo]);
}

#[test]
fn install_requests_follow_the_diff() {
    let diffs = vec![
        ImportDiff { manager: "npm".to_string(), missing_tools: strings(&["a", "b"]) },
        ImportDiff { manager: "brew".to_string(), missing_tools: strings(&["c"]) },
        ImportDiff { manager: "dnf".to_string(), missing_tools: strings(&["d"]) },
    ];
    let r = install_requests(&diffs);
    let pairs: Vec<(ManagerKind, String)> = r.into_iter().map(|x| (x.manager, x.tool)).collect();
    assert_eq!(
        pairs,
        vec![
            (ManagerKind::Npm, "a".to_string()),
            (ManagerKind::Npm, "b".to_string()),
            (ManagerKind::Dnf, "d".to_string()),
        ]
    );
}

#[test]
fn install_report_when_all_succeed() {
    let outcomes = vec![
        (InstallRequest { manager: ManagerKind::Cargo, tool: "bat".to_string() }, Ok(())),
        (InstallRequest { manager: ManagerKind::Pip, tool: "black".to_string() }, Ok(())),
    ];
    assert_eq!(install_missing(&outcomes), Ok(strings(&["cargo/bat", "pip/black"])));
}

#[test]
fn install_report_lists_failures() {
    let outcomes = vec![
        (InstallRequest { manager: ManagerKind::Cargo, tool: "bat".to_string() }, Ok(())),
        (
            InstallRequest { manager: ManagerKind::Npm, tool: "x".to_string() },
            Err("exit 1".to_string()),
        ),
        (
            InstallRequest { manager: ManagerKind::Dnf, tool: "y".to_string() },
            Err("no such package".to_string()),
        ),
    ];
    assert_eq!(
        install_missing(&outcomes),
        Err("Some installs failed:\nnpm/x: exit 1\ndnf/y: no such package".to_string())
    );
}

#[test]
fn nothing_to_install_is_ok() {
    assert_eq!(install_missing(&vec![]), Ok(vec![]));
}

#[test]
fn join_strings_separates() {
    assert_eq!(join_strings(&strings(&["a", "b", "c"]), ", "), "a, b, c");
    assert_eq!(join_strings(&vec![], ", "), "");
}

#[test]
fn snapshot_path_under_config_dir() {
    assert_eq!(snapshot_path(Some("/x/cfg"), "/home/u"), "/x/cfg/lazypkg/snapshot.toml");
    assert_eq!(snapshot_path(Some("/x/cfg/"), "/home/u"), "/x/cfg/lazypkg/snapshot.toml");
    assert_eq!(snapshot_path(None, "/home/u"), "/home/u/.config/lazypkg/snapshot.toml");
    assert_eq!(snapshot_path(None, "/"), "/.config/lazypkg/snapshot.toml");
    assert_eq!(snapshot_path(None, ""), ".config/lazypkg/snapshot.toml");
    assert_eq!(snapshot_path(Some(""), "/home/u"), "lazypkg/snapshot.toml");
}

#[test]
fn snapshot_path_agrees_with_path_join() {
    for (xdg, home) in [(Some("/x/cfg"), "/h"), (Some("rel/"), "/h"), (None, "/home/u/"), (None, "")] {
        let expected = xdg
            .map(PathBuf::from)
            .unwrap_or_else(|| PathBuf::from(home).join(".config"))
            .join("lazypkg")
            .join("snapshot.toml");
        assert_eq!(snapshot_path(xdg, home), expected.to_str().unwrap());
    }
}
