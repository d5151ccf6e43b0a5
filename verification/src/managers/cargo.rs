//! Tools installed with `cargo install`, as recorded in `.crates.toml`.
use vstd::prelude::*;

use super::{
    is_sorted_version_of, make_tool, sort_by_name, views, ManagerKind, PackageManager, ParseError,
    Tool, ToolView,
};
use crate::text::{chars_of, find_char, find_char_at, lemma_find_char_bounds, string_from};

verus! {

/// The `cargo` package manager.
pub struct CargoManager;

/// The crate name of a `.crates.toml` key: the text before the first space.
pub open spec fn crate_key_name(key: Seq<char>) -> Seq<char> {
    key.subrange(0, find_char(key, ' ', 0))
}

/// The crate version of a `.crates.toml` key: the text between the first and
/// the second space (or the end), when there is a first space.
pub open spec fn crate_key_version(key: Seq<char>) -> Option<Seq<char>> {
    let i = find_char(key, ' ', 0);
    if i < key.len() {
        Some(key.subrange(i + 1, find_char(key, ' ', i + 1)))
    } else {
        None
    }
}

/// The tool that a `.crates.toml` key records.
pub open spec fn crate_key_tool(key: Seq<char>) -> ToolView {
    ToolView { name: crate_key_name(key), version: crate_key_version(key), manager: "cargo"@ }
}

/// What `toml::Value`'s `FromStr` (`str::parse::<toml::Value>`) makes of the
/// document `doc`, asked for the keys of its table `table`: `None` when it is
/// no valid TOML, `Some(None)` when it has no table of that name, else the
/// keys, in the table's order.
pub uninterp spec fn toml_table_keys(doc: Seq<char>, table: Seq<char>) -> Option<Option<Seq<Seq<char>>>>;

/// The characters of each string.
pub open spec fn string_views(v: Seq<String>) -> Seq<Seq<char>> {
    v.map_values(|s: String| s@)
}

/// `toml::de::Error`, the error of the TOML parser.
#[verifier::external_type_specification]
#[verifier::external_body]
pub struct ExTomlError(toml::de::Error);

/// Parses `doc` with `toml::Value`'s `FromStr` and, when that succeeds, looks
/// up `table` with `Value::get`, telling a `Value::Table` apart from other
/// values, and collects its keys with `Map::keys`. Claimed: an error exactly
/// when `toml_table_keys(doc, table)` is `None`, else the keys it names. The
/// error itself is not described.
#[verifier::external_body]
fn toml_keys_of_table(doc: &str, table: &str) -> (r: Result<Option<Vec<String>>, toml::de::Error>)
    ensures
        r is Err <==> toml_table_keys(doc@, table@) is None,
        r matches Ok(keys) ==> toml_table_keys(doc@, table@) == Some(
            match keys {
                Some(k) => Some(string_views(k@)),
                None => None,
            },
        ),
{
    let value = doc.parse::<toml::Value>()?;
    match value.get(table) {
        Some(toml::Value::Table(t)) => Ok(Some(t.keys().cloned().collect())),
        _ => Ok(None),
    }
}

/// `Display` of `toml::de::Error`: the parser's message. Nothing is claimed
/// of it.
#[verifier::external_body]
fn toml_error_message(e: &toml::de::Error) -> String {
    e.to_string()
}

impl CargoManager {
    /// The `cargo` manager.
    pub fn new() -> Self {
        CargoManager
    }

    /// Splits a `.crates.toml` key of the form `"name version (source)"` into
    /// its name and version.
    pub fn parse_crate_key(key: &str) -> (r: Option<(String, Option<String>)>)
        ensures
            r matches Some((name, version)) && name@ == crate_key_name(key@) && super::opt_view(
                version,
            ) == crate_key_version(key@),
    {
        let v = chars_of(key);
        proof {
            lemma_find_char_bounds(v@, ' ', 0);
        }
        let i = find_char_at(&v, ' ', 0);
        let name = string_from(&v, 0, i);
        let version = if i < v.len() {
            proof {
                lemma_find_char_bounds(v@, ' ', i + 1);
            }
            let j = find_char_at(&v, ' ', i + 1);
            Some(string_from(&v, i + 1, j))
        } else {
            None
        };
        Some((name, version))
    }

    /// The tools recorded by the keys of the `v1` table, sorted by name.
    pub fn tools_from_crate_keys(keys: &Vec<String>) -> (r: Vec<Tool>)
        ensures
            is_sorted_version_of(
                views(r@),
                string_views(keys@).map_values(|k: Seq<char>| crate_key_tool(k)),
            ),
    {
        let mut tools: Vec<Tool> = Vec::new();
        let mut i: usize = 0;
        while i < keys.len()
            invariant
                i <= keys.len(),
                views(tools@) == string_views(keys@).take(i as int).map_values(
                    |k: Seq<char>| crate_key_tool(k),
                ),
            decreases keys.len() - i,
        {
            let ghost before = views(tools@);
            let parsed = Self::parse_crate_key(keys[i].as_str());
            match parsed {
                Some((name, version)) => {
                    let t = make_tool(name, version, "cargo");
                    assert(t@ == crate_key_tool(keys@[i as int]@));
                    tools.push(t);
                    assert(views(tools@) =~= before.push(t@));
                },
                None => {},
            }
            assert(string_views(keys@).take(i + 1) =~= string_views(keys@).take(i as int).push(
                keys@[i as int]@,
            ));
            assert(views(tools@) =~= string_views(keys@).take(i + 1).map_values(
                |k: Seq<char>| crate_key_tool(k),
            ));
            i = i + 1;
        }
        assert(string_views(keys@).take(keys.len() as int) =~= string_views(keys@));
        sort_by_name(tools)
    }

    /// The tools listed in the text of a `.crates.toml` file: none when it has
    /// no `v1` table, an error when it is no valid TOML.
    pub fn tools_from_crates_toml(doc: &str) -> (r: Result<Vec<Tool>, ParseError>)
        ensures
            r is Err <==> toml_table_keys(doc@, "v1"@) is None,
            r matches Ok(tools) ==> match toml_table_keys(doc@, "v1"@) {
                Some(Some(keys)) => is_sorted_version_of(
                    views(tools@),
                    keys.map_values(|k: Seq<char>| crate_key_tool(k)),
                ),
                _ => tools@.len() == 0,
            },
            r matches Err(e) ==> e.context@ == "Failed to parse .crates.toml"@,
    {
        match toml_keys_of_table(doc, "v1") {
            Ok(Some(keys)) => Ok(Self::tools_from_crate_keys(&keys)),
            Ok(None) => Ok(Vec::new()),
            Err(e) => Err(
                ParseError {
                    context: String::from_str("Failed to parse .crates.toml"),
                    detail: toml_error_message(&e),
                },
            ),
        }
    }
}

impl PackageManager for CargoManager {
    open spec fn spec_kind(&self) -> ManagerKind {
        ManagerKind::Cargo
    }

    fn kind(&self) -> (k: ManagerKind) {
        ManagerKind::Cargo
    }

    fn name(&self) -> (r: &str) {
        ManagerKind::Cargo.name()
    }

    fn icon(&self) -> (r: &str) {
        ManagerKind::Cargo.icon()
    }
}

} // verus!
