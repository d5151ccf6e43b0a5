//! Cheatsheets from tldr pages: the local tealdeer cache, then GitHub.
use vstd::prelude::*;

use crate::text::append_str;

verus! {

/// Produces cheatsheets from tldr pages.
pub struct TldrProvider;

/// The places where tealdeer may have cached the page of `tool` under the
/// home directory `home`, in the order they are tried.
pub open spec fn cache_paths(home: Seq<char>, tool: Seq<char>) -> Seq<Seq<char>> {
    seq![
        home + "/.local/share/tealdeer/tldr-pages/pages/common/"@ + tool + ".md"@,
        home + "/.local/share/tealdeer/tldr-pages/pages/linux/"@ + tool + ".md"@,
        home + "/.cache/tealdeer/"@ + tool + ".md"@,
    ]
}

/// The addresses of the page of `tool` in the tldr repository, in the order
/// they are tried.
pub open spec fn page_urls(tool: Seq<char>) -> Seq<Seq<char>> {
    seq![
        "https://raw.githubusercontent.com/tldr-pages/tldr/main/pages/common/"@ + tool + ".md"@,
        "https://raw.githubusercontent.com/tldr-pages/tldr/main/pages/linux/"@ + tool + ".md"@,
    ]
}

/// The text `a + b + c` as a new string.
fn concat3(a: &str, b: &str, c: &str) -> (r: String)
    ensures
        r@ == a@ + b@ + c@,
{
    let mut r = String::new();
    append_str(&mut r, a);
    append_str(&mut r, b);
    append_str(&mut r, c);
    r
}

/// The characters of each string.
pub open spec fn all_chars(v: Seq<String>) -> Seq<Seq<char>> {
    v.map_values(|s: String| s@)
}

impl TldrProvider {
    /// The tldr provider.
    pub fn new() -> Self {
        TldrProvider
    }

    /// The cached page files to try for `tool`, in order.
    pub fn cache_candidates(home: &str, tool: &str) -> (r: Vec<String>)
        ensures
            all_chars(r@) == cache_paths(home@, tool@),
    {
        let mut r = Vec::new();
        let mut p = String::new();
        append_str(&mut p, home);
        append_str(&mut p, "/.local/share/tealdeer/tldr-pages/pages/common/");
        append_str(&mut p, tool);
        append_str(&mut p, ".md");
        r.push(p);
        let mut p = String::new();
        append_str(&mut p, home);
        append_str(&mut p, "/.local/share/tealdeer/tldr-pages/pages/linux/");
        append_str(&mut p, tool);
        append_str(&mut p, ".md");
        r.push(p);
        let mut p = String::new();
        append_str(&mut p, home);
        append_str(&mut p, "/.cache/tealdeer/");
        append_str(&mut p, tool);
        append_str(&mut p, ".md");
        r.push(p);
        assert(all_chars(r@) =~= cache_paths(home@, tool@));
        r
    }

    /// The page addresses to try for `tool`, in order.
    pub fn github_urls(tool: &str) -> (r: Vec<String>)
        ensures
            all_chars(r@) == page_urls(tool@),
    {
        let mut r = Vec::new();
        r.push(concat3("https://raw.githubusercontent.com/tldr-pages/tldr/main/pages/common/", tool, ".md"));
        r.push(concat3("https://raw.githubusercontent.com/tldr-pages/tldr/main/pages/linux/", tool, ".md"));
        assert(all_chars(r@) =~= page_urls(tool@));
        r
    }
}

} // verus!
