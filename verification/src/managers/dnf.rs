//! Packages that the user installed with `dnf`.
use vstd::prelude::*;

use super::{
    is_sorted_version_of, make_tool, sort_by_name, views, ManagerKind, PackageManager, Tool,
    ToolView,
};
use crate::text::{
    chars_of, chars_start_with, line_ranges, lines, skip_whitespace, skip_ws, starts_with,
    string_from, sub_chars, trim, trim_bounds, word_end, word_end_at,
};

verus! {

/// The `dnf` package manager.
pub struct DnfManager;

/// The tool that one line of `dnf repoquery --qf "%{name} %{version}\n"`
/// output names: its first two whitespace-separated words, once trimmed;
/// nothing for blank lines and the lines `dnf` prints about its repositories.
pub open spec fn dnf_line_tool(line: Seq<char>) -> Option<ToolView> {
    let t = trim(line);
    if t.len() == 0 || starts_with(t, "Updating and loading repositories:"@) || starts_with(
        t,
        "Repositories loaded."@,
    ) {
        None
    } else {
        let a = skip_ws(t, 0);
        let e = word_end(t, a);
        let b = skip_ws(t, e);
        Some(
            ToolView {
                name: t.subrange(a, e),
                version: if b < t.len() {
                    Some(t.subrange(b, word_end(t, b)))
                } else {
                    None
                },
                manager: "dnf"@,
            },
        )
    }
}

/// The tools named by the lines of an output, in line order.
pub open spec fn dnf_output_tools(output: Seq<char>) -> Seq<ToolView> {
    lines(output).filter_map(|l: Seq<char>| dnf_line_tool(l))
}

impl DnfManager {
    /// The `dnf` manager.
    pub fn new() -> Self {
        DnfManager
    }

    /// The tool named by one line of output, if any.
    fn line_tool(line: &Vec<char>) -> (r: Option<Tool>)
        ensures
            match r {
                Some(t) => dnf_line_tool(line@) == Some(t@),
                None => dnf_line_tool(line@) is None,
            },
    {
        let (a0, b0) = trim_bounds(line);
        if a0 >= b0 {
            return None;
        }
        let t = sub_chars(line, a0, b0);
        assert(t@ == trim(line@));
        if chars_start_with(&t, 0, t.len(), "Updating and loading repositories:") || chars_start_with(
            &t,
            0,
            t.len(),
            "Repositories loaded.",
        ) {
            assert(t@.subrange(0, t@.len() as int) =~= t@);
            return None;
        }
        assert(t@.subrange(0, t@.len() as int) =~= t@);
        let a = skip_whitespace(&t, 0);
        let e = word_end_at(&t, a);
        let b = skip_whitespace(&t, e);
        let name = string_from(&t, a, e);
        let version = if b < t.len() {
            let f = word_end_at(&t, b);
            Some(string_from(&t, b, f))
        } else {
            None
        };
        Some(make_tool(name, version, "dnf"))
    }

    /// Parses the output of `dnf repoquery --userinstalled --qf "%{name} %{version}\n"`
    /// into tools sorted by name.
    pub fn parse_output(output: &str) -> (r: Vec<Tool>)
        ensures
            is_sorted_version_of(views(r@), dnf_output_tools(output@)),
    {
        let v = chars_of(output);
        let ranges = line_ranges(&v);
        let ghost ls = lines(v@);
        let ghost f = |l: Seq<char>| dnf_line_tool(l);
        let mut tools: Vec<Tool> = Vec::new();
        let mut k: usize = 0;
        while k < ranges.len()
            invariant
                v@ == output@,
                ls == lines(v@),
                ranges.len() == ls.len(),
                forall|q: int|
                    0 <= q < ranges.len() ==> #[trigger] ranges[q].0 <= ranges[q].1 <= v.len()
                        && v@.subrange(ranges[q].0 as int, ranges[q].1 as int) == ls[q],
                k <= ranges.len(),
                f == (|l: Seq<char>| dnf_line_tool(l)),
                views(tools@) == ls.take(k as int).filter_map(f),
            decreases ranges.len() - k,
        {
            let (s, e) = ranges[k];
            let line = sub_chars(&v, s, e);
            assert(line@ == ls[k as int]);
            let ghost before = views(tools@);
            assert(ls.take(k + 1).drop_last() =~= ls.take(k as int));
            assert(ls.take(k + 1).last() == ls[k as int]);
            match Self::line_tool(&line) {
                Some(t) => {
                    tools.push(t);
                    assert(views(tools@) =~= before + seq![t@]);
                },
                None => {},
            }
            k = k + 1;
        }
        assert(ls.take(ranges.len() as int) =~= ls);
        sort_by_name(tools)
    }
}

impl PackageManager for DnfManager {
    open spec fn spec_kind(&self) -> ManagerKind {
        ManagerKind::Dnf
    }

    fn kind(&self) -> (k: ManagerKind) {
        ManagerKind::Dnf
    }

    fn name(&self) -> (r: &str) {
        ManagerKind::Dnf.name()
    }

    fn icon(&self) -> (r: &str) {
        ManagerKind::Dnf.icon()
    }
}

} // verus!
