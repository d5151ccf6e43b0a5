//! Installed tools, the package managers that list them, and their ordering.
use vstd::prelude::*;

use crate::text::{
    append_str, chars_of, copy_string, decode_lossy, is_blank, lemma_name_le_refl, lemma_name_le_total,
    lemma_name_le_trans, lemma_trim_empty_iff_blank, name_le, str_eq, str_le, trim_bounds, utf8_lossy,
};

pub mod cargo;
pub mod dnf;
pub mod npm;
pub mod pip;
pub mod pipx;
pub mod pnpm;

verus! {

/// An installed tool as a package manager reports it.
#[derive(Debug, Clone)]
pub struct Tool {
    pub name: String,
    pub version: Option<String>,
    pub manager: String,
}

/// The abstract contents of a `Tool`.
pub ghost struct ToolView {
    pub name: Seq<char>,
    pub version: Option<Seq<char>>,
    pub manager: Seq<char>,
}

/// The characters of an optional string.
pub open spec fn opt_view(o: Option<String>) -> Option<Seq<char>> {
    match o {
        Some(s) => Some(s@),
        None => None,
    }
}

impl View for Tool {
    type V = ToolView;

    open spec fn view(&self) -> ToolView {
        ToolView { name: self.name@, version: opt_view(self.version), manager: self.manager@ }
    }
}

/// The views of a sequence of tools.
pub open spec fn views(s: Seq<Tool>) -> Seq<ToolView> {
    s.map_values(|t: Tool| t@)
}

/// Every tool comes no later than the tools after it, by name.
pub open spec fn sorted_by_name(s: Seq<ToolView>) -> bool {
    forall|i: int, j: int| 0 <= i < j < s.len() ==> name_le(#[trigger] s[i].name, #[trigger] s[j].name)
}

/// The tools of `s` named `n`, in their order in `s`.
pub open spec fn named(s: Seq<ToolView>, n: Seq<char>) -> Seq<ToolView> {
    s.filter(|t: ToolView| t.name == n)
}

/// `out` is `inp` sorted by name, tools of equal name kept in their order
/// (what a stable sort by name, such as `sort_by` on names, gives).
pub open spec fn is_sorted_version_of(out: Seq<ToolView>, inp: Seq<ToolView>) -> bool {
    &&& sorted_by_name(out)
    &&& forall|n: Seq<char>| #[trigger] named(out, n) == named(inp, n)
}

/// No two tools share a name.
pub open spec fn distinct_names(s: Seq<ToolView>) -> bool {
    forall|i: int, j: int| 0 <= i < j < s.len() ==> (#[trigger] s[i]).name != (#[trigger] s[j]).name
}

/// No two entries share a key (as in a JSON object read into a map).
pub open spec fn distinct_keys<V>(entries: Seq<(String, V)>) -> bool {
    forall|i: int, j: int|
        0 <= i < j < entries.len() ==> (#[trigger] entries[i]).0@ != (#[trigger] entries[j]).0@
}

/// Without repeated names, at most one tool has a given name.
proof fn lemma_named_at_most_one(s: Seq<ToolView>, n: Seq<char>)
    requires
        distinct_names(s),
    ensures
        named(s, n).len() <= 1,
    decreases s.len(),
{
    if s.len() > 0 {
        let init = s.drop_last();
        lemma_named_push(init, s.last(), n);
        assert(init.push(s.last()) =~= s);
        assert(distinct_names(init)) by {
            assert forall|i: int, j: int| 0 <= i < j < init.len() implies (#[trigger] init[i]).name
                != (#[trigger] init[j]).name by {
                assert(init[i] == s[i] && init[j] == s[j]);
            }
        }
        if s.last().name == n {
            assert forall|i: int| 0 <= i < init.len() implies (#[trigger] init[i]).name != n by {
                assert(init[i] == s[i]);
                assert(s.last() == s[s.len() - 1]);
            }
            lemma_named_none(init, n);
        } else {
            lemma_named_at_most_one(init, n);
        }
    }
}

/// A tool named `n` at position `i` is kept when filtering by `n`, and so is
/// a second one at `j`.
proof fn lemma_named_counts(s: Seq<ToolView>, n: Seq<char>, i: int, j: int)
    requires
        0 <= i < s.len(),
        s[i].name == n,
        i < j < s.len() ==> s[j].name == n,
    ensures
        named(s, n).len() >= 1,
        i < j < s.len() ==> named(s, n).len() >= 2,
    decreases s.len(),
{
    let init = s.drop_last();
    let last = s.len() - 1;
    lemma_named_push(init, s.last(), n);
    assert(init.push(s.last()) =~= s);
    assert(s.last() == s[last]);
    if i < last {
        assert(init[i] == s[i]);
        if i < j < last {
            assert(init[j] == s[j]);
            lemma_named_counts(init, n, i, j);
        } else {
            lemma_named_counts(init, n, i, i);
        }
    }
}

/// A sorted version of tools without repeated names repeats no name either.
pub proof fn lemma_sorted_version_keeps_distinct(out: Seq<ToolView>, inp: Seq<ToolView>)
    requires
        is_sorted_version_of(out, inp),
        distinct_names(inp),
    ensures
        distinct_names(out),
{
    assert forall|i: int, j: int| 0 <= i < j < out.len() implies (#[trigger] out[i]).name
        != (#[trigger] out[j]).name by {
        if out[i].name == out[j].name {
            let n = out[i].name;
            lemma_named_counts(out, n, i, j);
            lemma_named_at_most_one(inp, n);
            assert(named(out, n) == named(inp, n));
        }
    }
}

/// A manager's listing could not be understood: what was being read, and the
/// parser's own account of the problem.
#[derive(Debug)]
pub struct ParseError {
    pub context: String,
    pub detail: String,
}

/// The package managers the browser knows.
#[derive(Debug, Clone, Copy, PartialEq, Eq, Structural)]
pub enum ManagerKind {
    Cargo,
    Dnf,
    Pipx,
    Pip,
    Npm,
    Pnpm,
}

/// The name under which a manager is shown and stored.
pub open spec fn manager_name(k: ManagerKind) -> Seq<char> {
    match k {
        ManagerKind::Cargo => "cargo"@,
        ManagerKind::Dnf => "dnf"@,
        ManagerKind::Pipx => "pipx"@,
        ManagerKind::Pip => "pip"@,
        ManagerKind::Npm => "npm"@,
        ManagerKind::Pnpm => "pnpm"@,
    }
}

/// The icon shown beside a manager.
pub open spec fn manager_icon(k: ManagerKind) -> Seq<char> {
    match k {
        ManagerKind::Cargo => "🦀"@,
        ManagerKind::Dnf => "📦"@,
        ManagerKind::Pipx => "🐍"@,
        ManagerKind::Pip => "🐍"@,
        ManagerKind::Npm => "📦"@,
        ManagerKind::Pnpm => "📦"@,
    }
}

/// The manager with a given name, if any.
pub open spec fn kind_named(n: Seq<char>) -> Option<ManagerKind> {
    if n == "cargo"@ {
        Some(ManagerKind::Cargo)
    } else if n == "dnf"@ {
        Some(ManagerKind::Dnf)
    } else if n == "pipx"@ {
        Some(ManagerKind::Pipx)
    } else if n == "pip"@ {
        Some(ManagerKind::Pip)
    } else if n == "npm"@ {
        Some(ManagerKind::Npm)
    } else if n == "pnpm"@ {
        Some(ManagerKind::Pnpm)
    } else {
        None
    }
}

/// All managers, in the order the browser lists them.
pub open spec fn all_kinds() -> Seq<ManagerKind> {
    seq![
        ManagerKind::Cargo,
        ManagerKind::Dnf,
        ManagerKind::Pipx,
        ManagerKind::Pip,
        ManagerKind::Npm,
        ManagerKind::Pnpm,
    ]
}

/// Each manager is found again by its name.
pub proof fn lemma_kind_named_inverse(k: ManagerKind)
    ensures
        kind_named(manager_name(k)) == Some(k),
{
    reveal_strlit("cargo");
    reveal_strlit("dnf");
    reveal_strlit("pipx");
    reveal_strlit("pip");
    reveal_strlit("npm");
    reveal_strlit("pnpm");
    assert("cargo"@.len() == 5 && "dnf"@.len() == 3 && "pipx"@.len() == 4);
    assert("pip"@.len() == 3 && "npm"@.len() == 3 && "pnpm"@.len() == 4);
    assert("dnf"@[0] == 'd' && "pip"@[0] == 'p' && "npm"@[0] == 'n');
    assert("pipx"@[1] == 'i' && "pnpm"@[1] == 'n');
}

/// Two managers share a name only when they are the same manager.
pub proof fn lemma_manager_name_injective(a: ManagerKind, b: ManagerKind)
    ensures
        manager_name(a) == manager_name(b) <==> a == b,
{
    lemma_kind_named_inverse(a);
    lemma_kind_named_inverse(b);
}

impl ManagerKind {
    /// The manager's name.
    pub fn name(&self) -> (r: &'static str)
        ensures
            r@ == manager_name(*self),
    {
        match self {
            ManagerKind::Cargo => "cargo",
            ManagerKind::Dnf => "dnf",
            ManagerKind::Pipx => "pipx",
            ManagerKind::Pip => "pip",
            ManagerKind::Npm => "npm",
            ManagerKind::Pnpm => "pnpm",
        }
    }

    /// The manager's icon.
    pub fn icon(&self) -> (r: &'static str)
        ensures
            r@ == manager_icon(*self),
    {
        match self {
            ManagerKind::Cargo => "🦀",
            ManagerKind::Dnf => "📦",
            ManagerKind::Pipx => "🐍",
            ManagerKind::Pip => "🐍",
            ManagerKind::Npm => "📦",
            ManagerKind::Pnpm => "📦",
        }
    }

    /// The manager with the given name.
    pub fn from_name(n: &str) -> (r: Option<ManagerKind>)
        ensures
            r == kind_named(n@),
    {
        if str_eq(n, "cargo") {
            Some(ManagerKind::Cargo)
        } else if str_eq(n, "dnf") {
            Some(ManagerKind::Dnf)
        } else if str_eq(n, "pipx") {
            Some(ManagerKind::Pipx)
        } else if str_eq(n, "pip") {
            Some(ManagerKind::Pip)
        } else if str_eq(n, "npm") {
            Some(ManagerKind::Npm)
        } else if str_eq(n, "pnpm") {
            Some(ManagerKind::Pnpm)
        } else {
            None
        }
    }
}

/// What every package manager tells about itself.
pub trait PackageManager {
    /// Which manager this is.
    spec fn spec_kind(&self) -> ManagerKind;

    /// Which manager this is.
    fn kind(&self) -> (k: ManagerKind)
        ensures
            k == self.spec_kind(),
    ;

    /// The manager's name.
    fn name(&self) -> (r: &str)
        ensures
            r@ == manager_name(self.spec_kind()),
    ;

    /// The manager's icon.
    fn icon(&self) -> (r: &str)
        ensures
            r@ == manager_icon(self.spec_kind()),
    ;
}

/// Every manager the browser knows, in display order.
pub fn all_managers() -> (r: Vec<ManagerKind>)
    ensures
        r@ == all_kinds(),
{
    let mut r = Vec::new();
    r.push(ManagerKind::Cargo);
    r.push(ManagerKind::Dnf);
    r.push(ManagerKind::Pipx);
    r.push(ManagerKind::Pip);
    r.push(ManagerKind::Npm);
    r.push(ManagerKind::Pnpm);
    assert(r@ =~= all_kinds());
    r
}

/// A copy of a tool.
pub fn copy_tool(t: &Tool) -> (r: Tool)
    ensures
        r@ == t@,
{
    let version = match &t.version {
        Some(v) => Some(copy_string(v)),
        None => None,
    };
    Tool { name: copy_string(&t.name), version, manager: copy_string(&t.manager) }
}

/// A tool named `name` of the manager `manager`.
pub fn make_tool(name: String, version: Option<String>, manager: &str) -> (r: Tool)
    ensures
        r@ == (ToolView { name: name@, version: opt_view(version), manager: manager@ }),
{
    let mut m = String::new();
    append_str(&mut m, manager);
    Tool { name, version, manager: m }
}

/// Filtering by name commutes with appending one element.
proof fn lemma_named_push(s: Seq<ToolView>, x: ToolView, n: Seq<char>)
    ensures
        named(s.push(x), n) == if x.name == n {
            named(s, n).push(x)
        } else {
            named(s, n)
        },
{
    reveal(Seq::filter);
    assert(s.push(x).drop_last() =~= s);
}

/// Filtering by name distributes over concatenation.
proof fn lemma_named_add(a: Seq<ToolView>, b: Seq<ToolView>, n: Seq<char>)
    ensures
        named(a + b, n) == named(a, n) + named(b, n),
{
    broadcast use Seq::filter_distributes_over_add;

}

/// No tool of `s` is named `n`, so none is kept.
proof fn lemma_named_none(s: Seq<ToolView>, n: Seq<char>)
    requires
        forall|i: int| 0 <= i < s.len() ==> (#[trigger] s[i]).name != n,
    ensures
        named(s, n) == Seq::<ToolView>::empty(),
    decreases s.len(),
{
    reveal(Seq::filter);
    if s.len() > 0 {
        lemma_named_none(s.drop_last(), n);
        assert(s.last() == s[s.len() - 1]);
    }
}

/// Inserting `x` where every earlier name is at most its name and every later
/// name is not, keeps a sorted sequence sorted and adds `x` behind the tools of
/// its name.
proof fn lemma_insert_sorted(out: Seq<ToolView>, x: ToolView, p: int)
    requires
        0 <= p <= out.len(),
        sorted_by_name(out),
        forall|q: int| 0 <= q < p ==> name_le((#[trigger] out[q]).name, x.name),
        forall|q: int| p <= q < out.len() ==> !name_le((#[trigger] out[q]).name, x.name),
    ensures
        sorted_by_name(out.insert(p, x)),
        forall|n: Seq<char>|
            #[trigger] named(out.insert(p, x), n) == if x.name == n {
                named(out, n).push(x)
            } else {
                named(out, n)
            },
{
    let res = out.insert(p, x);
    out.insert_ensures(p, x);
    assert forall|i: int, j: int| 0 <= i < j < res.len() implies name_le(
        #[trigger] res[i].name,
        #[trigger] res[j].name,
    ) by {
        if j < p {
        } else if j == p {
        } else if i == p {
            lemma_name_le_total(out[j - 1].name, x.name);
        } else if i < p {
            lemma_name_le_total(out[j - 1].name, x.name);
            lemma_name_le_trans(out[i].name, x.name, out[j - 1].name);
        } else {
        }
    }
    assert forall|n: Seq<char>|
        #[trigger] named(res, n) == if x.name == n {
            named(out, n).push(x)
        } else {
            named(out, n)
        } by {
        let front = out.subrange(0, p);
        let back = out.subrange(p, out.len() as int);
        assert(res =~= front.push(x) + back);
        assert(out =~= front + back);
        lemma_named_add(front.push(x), back, n);
        lemma_named_add(front, back, n);
        lemma_named_push(front, x, n);
        if x.name == n {
            assert forall|i: int| 0 <= i < back.len() implies (#[trigger] back[i]).name != n by {
                lemma_name_le_refl(x.name);
                assert(back[i] == out[p + i]);
            }
            lemma_named_none(back, n);
            assert(named(front, n) + Seq::<ToolView>::empty() =~= named(front, n));
            assert(named(front, n).push(x) + Seq::<ToolView>::empty() =~= named(front, n).push(x));
        }
    }
}

/// The tools sorted by name; tools of equal name keep their order.
pub fn sort_by_name(tools: Vec<Tool>) -> (r: Vec<Tool>)
    ensures
        is_sorted_version_of(views(r@), views(tools@)),
{
    let ghost orig = tools@;
    let mut rest = tools;
    let mut out: Vec<Tool> = Vec::new();
    let ghost mut k: int = 0;
    assert(views(out@) =~= views(orig.subrange(0, 0)));
    while rest.len() > 0
        invariant
            0 <= k <= orig.len(),
            rest@ == orig.subrange(k, orig.len() as int),
            is_sorted_version_of(views(out@), views(orig.subrange(0, k))),
        decreases rest.len(),
    {
        let x = rest.remove(0);
        assert(x == orig[k]);
        let mut p = out.len();
        while p > 0 && !str_le(out[p - 1].name.as_str(), x.name.as_str())
            invariant
                p <= out.len(),
                forall|q: int| p <= q < out.len() ==> !name_le((#[trigger] out@[q]).name@, x.name@),
            decreases p,
        {
            p = p - 1;
        }
        let ghost ov = views(out@);
        assert forall|q: int| 0 <= q < p implies name_le((#[trigger] ov[q]).name, x@.name) by {
            if q < p - 1 {
                lemma_name_le_trans(ov[q].name, ov[p - 1].name, x@.name);
            }
        }
        assert forall|q: int| p <= q < ov.len() implies !name_le((#[trigger] ov[q]).name, x@.name) by {
            assert(ov[q] == out@[q]@);
        }
        proof {
            lemma_insert_sorted(ov, x@, p as int);
        }
        out.insert(p, x);
        assert(views(out@) =~= ov.insert(p as int, x@));
        let ghost prefix = views(orig.subrange(0, k));
        assert(views(orig.subrange(0, k + 1)) =~= prefix.push(x@));
        assert forall|n: Seq<char>| #[trigger]
            named(views(out@), n) == named(views(orig.subrange(0, k + 1)), n) by {
            lemma_named_push(prefix, x@, n);
        }
        proof {
            k = k + 1;
        }
    }
    assert(orig.subrange(0, k) =~= orig);
    out
}

/// The text a command printed, or `None` when it printed nothing but
/// whitespace (invalid UTF-8 decoded with replacement characters).
pub fn command_text(stdout: &[u8]) -> (r: Option<String>)
    ensures
        r is None <==> is_blank(utf8_lossy(stdout@)),
        r matches Some(s) ==> s@ == utf8_lossy(stdout@),
{
    let text = decode_lossy(stdout);
    let v = chars_of(text.as_str());
    let (a, b) = trim_bounds(&v);
    proof {
        lemma_trim_empty_iff_blank(v@);
    }
    if a < b {
        Some(text)
    } else {
        None
    }
}

/// The tool that a (name, version) pair of a manager's listing stands for.
pub open spec fn pair_tool(p: (String, Option<String>), manager: Seq<char>) -> ToolView {
    ToolView { name: p.0@, version: opt_view(p.1), manager }
}

/// The tools of a manager's listing, as (name, version) pairs, sorted by name.
pub fn tools_from_pairs(pairs: Vec<(String, Option<String>)>, manager: &str) -> (r: Vec<Tool>)
    ensures
        is_sorted_version_of(
            views(r@),
            pairs@.map_values(|p: (String, Option<String>)| pair_tool(p, manager@)),
        ),
        distinct_keys(pairs@) ==> distinct_names(views(r@)),
{
    let ghost orig = pairs@;
    let ghost f = |p: (String, Option<String>)| pair_tool(p, manager@);
    let mut rest = pairs;
    let mut tools: Vec<Tool> = Vec::new();
    let ghost mut k: int = 0;
    assert(views(tools@) =~= orig.take(0).map_values(f));
    while rest.len() > 0
        invariant
            0 <= k <= orig.len(),
            rest@ == orig.skip(k),
            f == (|p: (String, Option<String>)| pair_tool(p, manager@)),
            views(tools@) == orig.take(k).map_values(f),
        decreases rest.len(),
    {
        let (name, version) = rest.remove(0);
        assert((name, version) == orig[k]);
        let ghost before = views(tools@);
        let t = make_tool(name, version, manager);
        assert(t@ == f(orig[k]));
        tools.push(t);
        assert(views(tools@) =~= before.push(t@));
        assert(orig.take(k + 1) =~= orig.take(k).push(orig[k]));
        assert(views(tools@) =~= orig.take(k + 1).map_values(f));
        assert(rest@ =~= orig.skip(k + 1));
        proof {
            k = k + 1;
        }
    }
    assert(orig.take(k) =~= orig);
    let r = sort_by_name(tools);
    proof {
        if distinct_keys(orig) {
            let m = orig.map_values(f);
            assert forall|i: int, j: int| 0 <= i < j < m.len() implies (#[trigger] m[i]).name
                != (#[trigger] m[j]).name by {
                assert(m[i].name == orig[i].0@ && m[j].name == orig[j].0@);
            }
            lemma_sorted_version_keeps_distinct(views(r@), m);
        }
    }
    r
}

} // verus!
