//! Cheatsheets for tools: a tldr page when one can be found, else the tool's
//! own `--help` output.
use vstd::prelude::*;

pub mod help;
pub mod tldr;

use crate::text::append_str;

verus! {

/// The cheatsheet shown for a tool: the tldr page when there is one, else the
/// `--help` cheatsheet (asked for only when the former is missing).
pub fn pick_cheatsheet(tldr: Option<String>, help: Option<String>) -> (r: Option<String>)
    ensures
        r == (if tldr is Some {
            tldr
        } else {
            help
        }),
{
    match tldr {
        Some(content) => Some(content),
        None => help,
    }
}

/// The text shown when no cheatsheet was found for a tool.
pub fn missing_cheatsheet_message(tool_name: &str) -> (r: String)
    ensures
        r@ == "No cheatsheet found for '"@ + tool_name@ + "'"@,
{
    let mut r = String::new();
    append_str(&mut r, "No cheatsheet found for '");
    append_str(&mut r, tool_name);
    append_str(&mut r, "'");
    r
}


/// What a source's answer contributes: its cheatsheet, none on an error.
pub open spec fn fetched(a: Result<Option<String>, String>) -> Option<String> {
    match a {
        Ok(o) => o,
        Err(_) => None,
    }
}

/// A source of cheatsheets for tools.
pub trait CheatsheetProvider {
    /// The cheatsheet of the named tool: `Ok(None)` when this source has
    /// none, an error when it could not be asked.
    fn fetch(&self, tool_name: &str) -> Result<Option<String>, String>;
}

/// The cheatsheet of a tool: the `tldr` source is asked first; only when it
/// has none (or fails) is `help` asked, for the same tool, and its answer
/// taken (see `pick_cheatsheet`). `help` may be called only then.
pub fn load_cheatsheet<
    T: CheatsheetProvider,
    H: FnOnce(&str) -> Result<Option<String>, String>,
>(tldr: &T, help: H, tool_name: &str) -> (r: Option<String>)
    requires
        forall|a: Result<Option<String>, String>|
            call_ensures(T::fetch, (tldr, tool_name), a) && fetched(a) is None
                ==> #[trigger] help.requires((tool_name,)),
    ensures
        exists|a: Result<Option<String>, String>|
            #[trigger] call_ensures(T::fetch, (tldr, tool_name), a) && if fetched(a) is Some {
                r == fetched(a)
            } else {
                exists|b: Result<Option<String>, String>|
                    #[trigger] help.ensures((tool_name,), b) && r == fetched(b)
            },
{
    let answer = tldr.fetch(tool_name);
    let ghost a = answer;
    let first = match answer {
        Ok(o) => o,
        Err(_) => None,
    };
    if first.is_some() {
        return pick_cheatsheet(first, None);
    }
    assert(call_ensures(T::fetch, (tldr, tool_name), a) && fetched(a) is None);
    assert(help.requires((tool_name,)));
    let second = match help(tool_name) {
        Ok(o) => o,
        Err(_) => None,
    };
    pick_cheatsheet(first, second)
}

} // verus!
