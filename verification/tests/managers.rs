use lazypkg::managers::cargo::CargoManager;
use lazypkg::managers::dnf::DnfManager;
use lazypkg::managers::npm::{NpmDep, NpmList, NpmManager};
use lazypkg::managers::pip::{PipManager, PipPackage};
use lazypkg::managers::pipx::{PipxList, PipxMainPackage, PipxManager, PipxMetadata, PipxVenv};
use lazypkg::managers::pnpm::{PnpmDep, PnpmEntry, PnpmManager};
use lazypkg::managers::{all_managers, command_text, ManagerKind, PackageManager, Tool};

// ---- cargo ----

#[test]
fn test_parse_crate_key_with_registry() {
    let key = "tokei 12.1.2 (registry+https://github.com/rust-lang/crates.io-index)";
    let (name, version) = CargoManager::parse_crate_key(key).unwrap();
    assert_eq!(name, "tokei");
    assert_eq!(version, Some("12.1.2".to_string()));
}

#[test]
fn test_parse_crate_key_ripgrep() {
    let key = "ripgrep 14.1.1 (registry+https://github.com/rust-lang/crates.io-index)";
    let (name, version) = CargoManager::parse_crate_key(key).unwrap();
    assert_eq!(name, "ripgrep");
    assert_eq!(version, Some("14.1.1".to_string()));
}

#[test]
fn test_parse_crate_key_no_registry() {
    // Minimal key with just name and version
    let key = "mytool 1.0.0";
    let (name, version) = CargoManager::parse_crate_key(key).unwrap();
    assert_eq!(name, "mytool");
    assert_eq!(version, Some("1.0.0".to_string()));
}

#[test]
fn test_parse_crate_key_name_only() {
    let key = "sometool";
    let (name, version) = CargoManager::parse_crate_key(key).unwrap();
    assert_eq!(name, "sometool");
    assert_eq!(version, None);
}

#[test]
fn test_list_installed_parses_toml() {
    let toml_content = r#"
[v1]
"tokei 12.1.2 (registry+https://github.com/rust-lang/crates.io-index)" = []
"ripgrep 14.1.1 (registry+https://github.com/rust-lang/crates.io-index)" = ["dep1"]
"#;
    let doc: toml::Value = toml_content.parse().unwrap();
    let v1 = doc.get("v1").and_then(|v| v.as_table()).unwrap();

    let mut tools: Vec<(String, Option<String>)> = v1
        .keys()
        .filter_map(|k| CargoManager::parse_crate_key(k))
        .collect();
    tools.sort_by(|a, b| a.0.cmp(&b.0));

    assert_eq!(tools.len(), 2);
    assert_eq!(tools[0].0, "ripgrep");
    assert_eq!(tools[0].1, Some("14.1.1".to_string()));
    assert_eq!(tools[1].0, "tokei");
    assert_eq!(tools[1].1, Some("12.1.2".to_string()));
}

#[test]
fn crate_key_with_empty_name_and_trailing_space() {
    let (name, version) = CargoManager::parse_crate_key(" 1.0").unwrap();
    assert_eq!(name, "");
    assert_eq!(version, Some("1.0".to_string()));
    let (name, version) = CargoManager::parse_crate_key("tool ").unwrap();
    assert_eq!(name, "tool");
    assert_eq!(version, Some("".to_string()));
}

#[test]
fn crates_toml_listing_is_sorted() {
    let doc = r#"
[v1]
"tokei 12.1.2 (registry+https://github.com/rust-lang/crates.io-index)" = []
"bat 0.24.0 (registry+https://github.com/rust-lang/crates.io-index)" = ["bat"]
"ripgrep 14.1.1 (registry+https://github.com/rust-lang/crates.io-index)" = ["rg"]

[v2]
"#;
    let tools = CargoManager::tools_from_crates_toml(doc).unwrap();
    let names: Vec<&str> = tools.iter().map(|t| t.name.as_str()).collect();
    assert_eq!(names, vec!["bat", "ripgrep", "tokei"]);
    assert_eq!(tools[1].version, Some("14.1.1".to_string()));
    assert!(tools.iter().all(|t| t.manager == "cargo"));
}

#[test]
fn crates_toml_without_v1_lists_nothing() {
    let tools = CargoManager::tools_from_crates_toml("[v2]\n").unwrap();
    assert!(tools.is_empty());
    let tools = CargoManager::tools_from_crates_toml("v1 = 3\n").unwrap();
    assert!(tools.is_empty());
}

#[test]
fn crates_toml_that_is_no_toml_is_an_error() {
    let err = CargoManager::tools_from_crates_toml("[v1\nnot toml").unwrap_err();
    assert_eq!(err.context, "Failed to parse .crates.toml");
    assert!(!err.detail.is_empty());
}

#[test]
fn crate_keys_to_tools() {
    let keys = vec!["zoxide 0.9.4 (x)".to_string(), "alpha".to_string()];
    let tools = CargoManager::tools_from_crate_keys(&keys);
    assert_eq!(tools.len(), 2);
    assert_eq!(tools[0].name, "alpha");
    assert_eq!(tools[0].version, None);
    assert_eq!(tools[1].name, "zoxide");
    assert_eq!(tools[1].version, Some("0.9.4".to_string()));
}

// ---- dnf ----

#[test]
fn test_parse_dnf_output_basic() {
    let input = "bat 0.24.0-3.fc41\nripgrep 14.1.1-1.fc41\n";
    let tools = DnfManager::parse_output(input);
    assert_eq!(tools.len(), 2);
    // sorted
    assert_eq!(tools[0].name, "bat");
    assert_eq!(tools[0].version, Some("0.24.0-3.fc41".to_string()));
    assert_eq!(tools[1].name, "ripgrep");
    assert_eq!(tools[1].version, Some("14.1.1-1.fc41".to_string()));
}

#[test]
fn test_parse_dnf_empty_output() {
    let tools = DnfManager::parse_output("");
    assert_eq!(tools.len(), 0);
}

#[test]
fn dnf_output_skips_repository_lines_and_blank_lines() {
    let input = "Updating and loading repositories:\r\nRepositories loaded.\n\n   \n  zsh   5.9-1  extra\r\nfd\n";
    let tools = DnfManager::parse_output(input);
    assert_eq!(tools.len(), 2);
    assert_eq!(tools[0].name, "fd");
    assert_eq!(tools[0].version, None);
    assert_eq!(tools[1].name, "zsh");
    assert_eq!(tools[1].version, Some("5.9-1".to_string()));
    assert_eq!(tools[1].manager, "dnf");
}

#[test]
fn dnf_sort_keeps_order_of_equal_names() {
    let tools = DnfManager::parse_output("b 2\na 1\nb 1\n");
    let pairs: Vec<(String, Option<String>)> =
        tools.into_iter().map(|t| (t.name, t.version)).collect();
    assert_eq!(
        pairs,
        vec![
            ("a".to_string(), Some("1".to_string())),
            ("b".to_string(), Some("2".to_string())),
            ("b".to_string(), Some("1".to_string())),
        ]
    );
}

#[test]
fn names_sort_by_code_point() {
    let tools = DnfManager::parse_output("b\nB\nab\na\n_x\n");
    let names: Vec<String> = tools.into_iter().map(|t| t.name).collect();
    let mut expected = names.clone();
    expected.sort();
    assert_eq!(names, expected);
    assert_eq!(names, vec!["B", "_x", "a", "ab", "b"]);
}

// ---- JSON listings (built from the parsed JSON by calls) ----

fn npm_list(json: &str) -> NpmList {
    let v: serde_json::Value = serde_json::from_str(json).unwrap();
    let mut dependencies = Vec::new();
    if let Some(obj) = v.get("dependencies").and_then(|d| d.as_object()) {
        for (name, dep) in obj {
            let version = dep.get("version").and_then(|x| x.as_str()).map(|s| s.to_string());
            dependencies.push((name.clone(), NpmDep { version }));
        }
    }
    NpmList { dependencies }
}

fn pip_packages(json: &str) -> Vec<PipPackage> {
    let v: serde_json::Value = serde_json::from_str(json).unwrap();
    v.as_array()
        .unwrap()
        .iter()
        .map(|p| PipPackage {
            name: p["name"].as_str().unwrap().to_string(),
            version: p["version"].as_str().unwrap().to_string(),
        })
        .collect()
}

fn pipx_list(json: &str) -> PipxList {
    let v: serde_json::Value = serde_json::from_str(json).unwrap();
    let mut venvs = Vec::new();
    for (name, venv) in v["venvs"].as_object().unwrap() {
        let metadata = venv.get("metadata").map(|m| PipxMetadata {
            main_package: m.get("main_package").map(|p| PipxMainPackage {
                package_version: p
                    .get("package_version")
                    .and_then(|x| x.as_str())
                    .map(|s| s.to_string()),
            }),
        });
        venvs.push((name.clone(), PipxVenv { metadata }));
    }
    PipxList { venvs }
}

fn pnpm_entries(json: &str) -> Vec<PnpmEntry> {
    let v: serde_json::Value = serde_json::from_str(json).unwrap();
    v.as_array()
        .unwrap()
        .iter()
        .map(|e| {
            let mut dependencies = Vec::new();
            if let Some(obj) = e.get("dependencies").and_then(|d| d.as_object()) {
                for (name, dep) in obj {
                    let version =
                        dep.get("version").and_then(|x| x.as_str()).map(|s| s.to_string());
                    dependencies.push((name.clone(), PnpmDep { version }));
                }
            }
            PnpmEntry { dependencies }
        })
        .collect()
}

#[test]
fn test_parse_npm_json_basic() {
    let json = r#"
{
  "dependencies": {
    "typescript": {"version": "5.4.5"},
    "yarn": {"version": "1.22.22"},
    "eslint": {"version": "9.0.0"}
  }
}
"#;
    let tools = NpmManager::tools_from_list(npm_list(json));
    assert_eq!(tools.len(), 3);
    // sorted
    assert_eq!(tools[0].name, "eslint");
    assert_eq!(tools[0].version, Some("9.0.0".to_string()));
    assert_eq!(tools[1].name, "typescript");
    assert_eq!(tools[2].name, "yarn");
    assert_eq!(tools[2].version, Some("1.22.22".to_string()));
}

#[test]
fn test_parse_npm_json_empty_deps() {
    let json = r#"{"dependencies": {}}"#;
    let tools = NpmManager::tools_from_list(npm_list(json));
    assert_eq!(tools.len(), 0);
}

#[test]
fn test_parse_npm_json_no_deps_key() {
    // npm list -g with nothing installed may omit the key
    let json = r#"{}"#;
    let tools = NpmManager::tools_from_list(npm_list(json));
    assert_eq!(tools.len(), 0);
}

#[test]
fn test_parse_npm_json_missing_version() {
    let json = r#"{"dependencies": {"sometool": {}}}"#;
    let tools = NpmManager::tools_from_list(npm_list(json));
    assert_eq!(tools.len(), 1);
    assert_eq!(tools[0].name, "sometool");
    assert_eq!(tools[0].version, None);
}

#[test]
fn test_parse_pip_json_basic() {
    let json = r#"[
  {"name": "requests", "version": "2.31.0"},
  {"name": "black", "version": "24.4.0"},
  {"name": "ansible", "version": "9.0.0"}
]"#;
    let tools = PipManager::tools_from_packages(pip_packages(json));
    assert_eq!(tools.len(), 3);
    // sorted
    assert_eq!(tools[0].name, "ansible");
    assert_eq!(tools[0].version, Some("9.0.0".to_string()));
    assert_eq!(tools[1].name, "black");
    assert_eq!(tools[2].name, "requests");
    assert_eq!(tools[2].version, Some("2.31.0".to_string()));
}

#[test]
fn test_parse_pip_json_empty() {
    let json = "[]";
    let tools = PipManager::tools_from_packages(pip_packages(json));
    assert_eq!(tools.len(), 0);
}

#[test]
fn test_parse_pip_json_single() {
    let json = r#"[{"name": "mycli", "version": "0.1.0"}]"#;
    let tools = PipManager::tools_from_packages(pip_packages(json));
    assert_eq!(tools.len(), 1);
    assert_eq!(tools[0].name, "mycli");
    assert_eq!(tools[0].manager, "pip");
}

#[test]
fn test_parse_pipx_json_basic() {
    let json = r#"
{
  "venvs": {
    "black": {
      "metadata": {
        "main_package": {
          "package": "black",
          "package_version": "24.4.0"
        }
      }
    },
    "httpie": {
      "metadata": {
        "main_package": {
          "package": "httpie",
          "package_version": "3.2.2"
        }
      }
    }
  }
}
"#;
    let tools = PipxManager::tools_from_list(pipx_list(json));
    assert_eq!(tools.len(), 2);
    // sorted
    assert_eq!(tools[0].name, "black");
    assert_eq!(tools[0].version, Some("24.4.0".to_string()));
    assert_eq!(tools[1].name, "httpie");
    assert_eq!(tools[1].version, Some("3.2.2".to_string()));
}

#[test]
fn test_parse_pipx_json_empty_venvs() {
    let json = r#"{"venvs": {}}"#;
    let tools = PipxManager::tools_from_list(pipx_list(json));
    assert_eq!(tools.len(), 0);
}

#[test]
fn test_parse_pipx_json_missing_version() {
    let json = r#"
{
  "venvs": {
    "sometool": {
      "metadata": {
        "main_package": {
          "package": "sometool"
        }
      }
    }
  }
}
"#;
    let tools = PipxManager::tools_from_list(pipx_list(json));
    assert_eq!(tools.len(), 1);
    assert_eq!(tools[0].name, "sometool");
    assert_eq!(tools[0].version, None);
}

#[test]
fn pipx_venv_without_metadata_has_no_version() {
    let list = PipxList {
        venvs: vec![
            ("b".to_string(), PipxVenv { metadata: None }),
            ("a".to_string(), PipxVenv { metadata: Some(PipxMetadata { main_package: None }) }),
        ],
    };
    let tools = PipxManager::tools_from_list(list);
    assert_eq!(tools[0].name, "a");
    assert_eq!(tools[0].version, None);
    assert_eq!(tools[1].version, None);
    assert_eq!(tools[1].manager, "pipx");
}

#[test]
fn test_parse_pnpm_json_basic() {
    let json = r#"[
  {
    "name": "root",
    "version": "0.0.1",
    "dependencies": {
      "typescript": {"version": "5.4.5"},
      "prettier": {"version": "3.2.5"}
    }
  }
]"#;
    let tools = PnpmManager::tools_from_entries(pnpm_entries(json));
    assert_eq!(tools.len(), 2);
    // sorted
    assert_eq!(tools[0].name, "prettier");
    assert_eq!(tools[0].version, Some("3.2.5".to_string()));
    assert_eq!(tools[1].name, "typescript");
    assert_eq!(tools[1].version, Some("5.4.5".to_string()));
}

#[test]
fn test_parse_pnpm_json_empty_array() {
    let json = "[]";
    let tools = PnpmManager::tools_from_entries(pnpm_entries(json));
    assert_eq!(tools.len(), 0);
}

#[test]
fn test_parse_pnpm_json_empty_deps() {
    let json = r#"[{"name": "root", "version": "0.0.1", "dependencies": {}}]"#;
    let tools = PnpmManager::tools_from_entries(pnpm_entries(json));
    assert_eq!(tools.len(), 0);
}

#[test]
fn test_parse_pnpm_json_missing_version() {
    let json = r#"[{"dependencies": {"sometool": {}}}]"#;
    let tools = PnpmManager::tools_from_entries(pnpm_entries(json));
    assert_eq!(tools.len(), 1);
    assert_eq!(tools[0].name, "sometool");
    assert_eq!(tools[0].version, None);
}

#[test]
fn pnpm_reads_only_the_first_entry() {
    let entries = vec![
        PnpmEntry { dependencies: vec![("x".to_string(), PnpmDep { version: None })] },
        PnpmEntry { dependencies: vec![("y".to_string(), PnpmDep { version: None })] },
    ];
    let tools = PnpmManager::tools_from_entries(entries);
    assert_eq!(tools.len(), 1);
    assert_eq!(tools[0].name, "x");
    assert_eq!(tools[0].manager, "pnpm");
}

// ---- managers ----

#[test]
fn all_managers_in_display_order() {
    let names: Vec<&str> = all_managers().iter().map(|k| k.name()).collect();
    assert_eq!(names, vec!["cargo", "dnf", "pipx", "pip", "npm", "pnpm"]);
    assert_eq!(ManagerKind::Cargo.icon(), "🦀");
    assert_eq!(ManagerKind::Pip.icon(), "🐍");
    assert_eq!(ManagerKind::Pnpm.icon(), "📦");
}

#[test]
fn managers_found_by_name() {
    for k in all_managers() {
        assert_eq!(ManagerKind::from_name(k.name()), Some(k));
    }
    assert_eq!(ManagerKind::from_name("brew"), None);
    assert_eq!(ManagerKind::from_name("Pip"), None);
}

#[test]
fn manager_structs_name_themselves() {
    assert_eq!(CargoManager::new().name(), "cargo");
    assert_eq!(DnfManager::new().name(), "dnf");
    assert_eq!(NpmManager::new().name(), "npm");
    assert_eq!(PipManager::new().name(), "pip");
    assert_eq!(PipxManager::new().name(), "pipx");
    assert_eq!(PnpmManager::new().kind(), ManagerKind::Pnpm);
    assert_eq!(PipxManager::new().icon(), "🐍");
}

#[test]
fn command_text_of_blank_output_is_none() {
    assert_eq!(command_text(b""), None);
    assert_eq!(command_text(b" \n\t "), None);
    assert_eq!(command_text(b" {}\n"), Some(" {}\n".to_string()));
    // invalid UTF-8 is decoded with replacement characters
    assert_eq!(command_text(&[0x61, 0xff]), Some("a\u{fffd}".to_string()));
}

#[test]
fn tool_fields() {
    let t = Tool { name: "x".to_string(), version: None, manager: "npm".to_string() };
    assert_eq!(t.clone().manager, "npm");
}
