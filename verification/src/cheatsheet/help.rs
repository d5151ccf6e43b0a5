//! Cheatsheets taken from a tool's own `--help` output.
use vstd::prelude::*;

use crate::text::{
    chars_of, decode_lossy, find_char, is_ascii_alpha, is_ascii_letter, is_blank, join,
    lemma_find_char_bounds, lemma_trim_empty_iff_blank, line_ranges, lines, lines_from, push_char,
    strip_cr, trim_bounds, utf8_lossy,
};

verus! {

/// Produces cheatsheets from `--help` output.
pub struct HelpProvider;

/// How many lines of help a cheatsheet keeps.
pub const HELP_LINES: usize = 30;

/// Just past the first ASCII letter at or after `i`, or the end: where a
/// control sequence `ESC [ ... letter` that starts before `i` ends.
pub open spec fn csi_end(s: Seq<char>, i: int) -> int
    decreases s.len() - i,
{
    if 0 <= i < s.len() {
        if is_ascii_alpha(s[i]) {
            i + 1
        } else {
            csi_end(s, i + 1)
        }
    } else {
        i
    }
}

pub proof fn lemma_csi_end_bounds(s: Seq<char>, i: int)
    requires
        0 <= i,
    ensures
        csi_end(s, i) >= i,
        i <= s.len() ==> csi_end(s, i) <= s.len(),
    decreases s.len() - i,
{
    if i < s.len() && !is_ascii_alpha(s[i]) {
        lemma_csi_end_bounds(s, i + 1);
    }
}

/// The text of `s` from position `i` on with terminal escape sequences
/// removed: `ESC [` up to and with the first ASCII letter, or `ESC` and the
/// one character after it.
pub open spec fn strip_ansi_from(s: Seq<char>, i: int) -> Seq<char>
    decreases s.len() - i,
{
    if i < 0 || i >= s.len() {
        Seq::empty()
    } else if s[i] == '\x1b' {
        if i + 1 < s.len() && s[i + 1] == '[' {
            let j = csi_end(s, i + 2);
            if i < j && j <= s.len() {
                strip_ansi_from(s, j)
            } else {
                Seq::empty()
            }
        } else {
            strip_ansi_from(s, skip_two(s, i))
        }
    } else {
        seq![s[i]] + strip_ansi_from(s, i + 1)
    }
}

/// Two positions on from `i`, but not past the end.
pub open spec fn skip_two(s: Seq<char>, i: int) -> int {
    if i + 2 <= s.len() {
        i + 2
    } else {
        s.len() as int
    }
}

/// `s` with terminal escape sequences removed.
pub open spec fn strip_ansi_spec(s: Seq<char>) -> Seq<char> {
    strip_ansi_from(s, 0)
}

/// The first `n` lines, or all when there are fewer.
pub open spec fn first_lines(ls: Seq<Seq<char>>, n: int) -> Seq<Seq<char>> {
    if ls.len() <= n {
        ls
    } else {
        ls.take(n)
    }
}

/// The cheatsheet made of help text: `None` when the text is blank, else its
/// first lines, escape sequences removed, joined by newlines.
pub open spec fn help_cheatsheet(raw: Seq<char>) -> Option<Seq<char>> {
    if is_blank(raw) {
        None
    } else {
        Some(join(first_lines(lines(strip_ansi_spec(raw)), HELP_LINES as int), "\n"@))
    }
}

/// The help text of a run: its standard output, or its error output when the
/// standard output is empty.
pub open spec fn help_raw(stdout: Seq<u8>, stderr: Seq<u8>) -> Seq<char> {
    if stdout.len() == 0 {
        utf8_lossy(stderr)
    } else {
        utf8_lossy(stdout)
    }
}

/// Removing escape sequences leaves no escape character.
pub proof fn lemma_strip_ansi_no_escape(s: Seq<char>, i: int)
    ensures
        !strip_ansi_from(s, i).contains('\x1b'),
    decreases s.len() - i,
{
    if 0 <= i < s.len() {
        if s[i] == '\x1b' {
            if i + 1 < s.len() && s[i + 1] == '[' {
                lemma_csi_end_bounds(s, i + 2);
                lemma_strip_ansi_no_escape(s, csi_end(s, i + 2));
            } else {
                lemma_strip_ansi_no_escape(s, skip_two(s, i));
            }
        } else {
            lemma_strip_ansi_no_escape(s, i + 1);
            let rest = strip_ansi_from(s, i + 1);
            assert forall|k: int| 0 <= k < (seq![s[i]] + rest).len() implies (seq![s[i]]
                + rest)[k] != '\x1b' by {
                if k > 0 {
                    assert((seq![s[i]] + rest)[k] == rest[k - 1]);
                }
            }
        }
    }
}

/// Text without escape characters is left as it is.
pub proof fn lemma_strip_ansi_identity(s: Seq<char>, i: int)
    requires
        0 <= i <= s.len(),
        !s.contains('\x1b'),
    ensures
        strip_ansi_from(s, i) == s.skip(i),
    decreases s.len() - i,
{
    if i < s.len() {
        assert(s[i] != '\x1b');
        lemma_strip_ansi_identity(s, i + 1);
        assert(s.skip(i) =~= seq![s[i]] + s.skip(i + 1));
    } else {
        assert(s.skip(i) =~= Seq::<char>::empty());
    }
}

/// Removing escape sequences twice removes no more than once.
pub proof fn lemma_strip_ansi_idempotent(s: Seq<char>)
    ensures
        strip_ansi_spec(strip_ansi_spec(s)) == strip_ansi_spec(s),
{
    let t = strip_ansi_spec(s);
    lemma_strip_ansi_no_escape(s, 0);
    lemma_strip_ansi_identity(t, 0);
    assert(t.skip(0) =~= t);
}

/// Removes terminal escape sequences from a text.
pub fn strip_ansi(s: &str) -> (r: String)
    ensures
        r@ == strip_ansi_spec(s@),
{
    let v = chars_of(s);
    let mut out = String::new();
    let mut i: usize = 0;
    while i < v.len()
        invariant
            v@ == s@,
            i <= v.len(),
            strip_ansi_spec(v@) == out@ + strip_ansi_from(v@, i as int),
        decreases v.len() - i,
    {
        if v[i] == '\x1b' {
            if i + 1 < v.len() && v[i + 1] == '[' {
                proof {
                    lemma_csi_end_bounds(v@, i + 2);
                }
                let mut j = i + 2;
                while j < v.len() && !is_ascii_letter(v[j])
                    invariant
                        i + 2 <= j <= v.len(),
                        csi_end(v@, j as int) == csi_end(v@, i + 2),
                    decreases v.len() - j,
                {
                    j = j + 1;
                }
                if j < v.len() {
                    j = j + 1;
                }
                i = j;
            } else {
                i = if v.len() - i >= 2 {
                    i + 2
                } else {
                    v.len()
                };
            }
        } else {
            let ghost before = out@;
            push_char(&mut out, v[i]);
            assert(before + strip_ansi_from(v@, i as int) =~= out@ + strip_ansi_from(
                v@,
                i + 1,
            ));
            i = i + 1;
        }
    }
    assert(strip_ansi_from(v@, i as int) =~= Seq::<char>::empty());
    assert(out@ + Seq::<char>::empty() =~= out@);
    out
}

/// The cheatsheet made of a help text (see `help_cheatsheet`).
pub fn cheatsheet_from_text(raw: &str) -> (r: Option<String>)
    ensures
        opt_chars(r) == help_cheatsheet(raw@),
{
    let v = chars_of(raw);
    let (a, b) = trim_bounds(&v);
    proof {
        lemma_trim_empty_iff_blank(v@);
    }
    if a >= b {
        return None;
    }
    let cleaned = strip_ansi(raw);
    let cv = chars_of(cleaned.as_str());
    let ranges = line_ranges(&cv);
    let ghost ls = lines(cv@);
    let n = if ranges.len() < HELP_LINES {
        ranges.len()
    } else {
        HELP_LINES
    };
    let mut out = String::new();
    let mut k: usize = 0;
    assert forall|q: int| 0 <= q < ranges.len() implies #[trigger] ranges[q].0 <= ranges[q].1
        <= cv.len() && cv@.subrange(ranges[q].0 as int, ranges[q].1 as int) == ls[q] by {}
    proof {
        reveal_strlit("\n");
    }
    assert("\n"@ =~= seq!['\n']);
    while k < n
        invariant
            n <= ranges.len(),
            ranges.len() == ls.len(),
            forall|q: int|
                0 <= q < ranges.len() ==> #[trigger] ranges[q].0 <= ranges[q].1 <= cv.len()
                    && cv@.subrange(ranges[q].0 as int, ranges[q].1 as int) == ls[q],
            k <= n,
            out@ == join(ls.take(k as int), "\n"@),
            "\n"@ == seq!['\n'],
        decreases n - k,
    {
        let ghost before = out@;
        if k > 0 {
            push_char(&mut out, '\n');
        }
        let (s, e) = ranges[k];
        assert(cv@.subrange(s as int, e as int) == ls[k as int]);
        assert(cv@.subrange(s as int, s as int) =~= Seq::<char>::empty());
        let mut t = s;
        while t < e
            invariant
                s <= t <= e <= cv.len(),
                k > 0 ==> out@ == before.push('\n') + cv@.subrange(s as int, t as int),
                k == 0 ==> out@ == before + cv@.subrange(s as int, t as int),
            decreases e - t,
        {
            push_char(&mut out, cv[t]);
            assert(cv@.subrange(s as int, t + 1) =~= cv@.subrange(s as int, t as int).push(
                cv@[t as int],
            ));
            t = t + 1;
        }
        proof {
            let parts = ls.take(k + 1);
            assert(parts.drop_last() =~= ls.take(k as int));
            assert(parts.last() == ls[k as int]);
            if k == 0 {
                assert(before =~= Seq::<char>::empty());
                assert(out@ =~= ls[0]);
            } else {
                assert(out@ =~= before + "\n"@ + ls[k as int]);
            }
            assert(out@ == join(parts, "\n"@));
        }
        k = k + 1;
    }
    proof {
        if ls.len() <= HELP_LINES {
            assert(ls.take(n as int) =~= ls);
        }
    }
    Some(out)
}

/// The characters of an optional string.
pub open spec fn opt_chars(o: Option<String>) -> Option<Seq<char>> {
    match o {
        Some(s) => Some(s@),
        None => None,
    }
}

impl HelpProvider {
    /// The `--help` provider.
    pub fn new() -> Self {
        HelpProvider
    }

    /// The cheatsheet made of the output of `<tool> --help`: its standard
    /// output (or, when that is empty, its error output) decoded as UTF-8 with
    /// replacement, then as `cheatsheet_from_text`.
    pub fn cheatsheet_from_output(stdout: &[u8], stderr: &[u8]) -> (r: Option<String>)
        ensures
            opt_chars(r) == help_cheatsheet(help_raw(stdout@, stderr@)),
    {
        let raw = if stdout.len() == 0 {
            decode_lossy(stderr)
        } else {
            decode_lossy(stdout)
        };
        cheatsheet_from_text(raw.as_str())
    }
}

/// The number of line breaks in a text.
pub open spec fn line_breaks(s: Seq<char>) -> nat {
    s.filter(|c: char| c == '\n').len()
}

/// No line that `lines_from` yields holds a line break.
proof fn lemma_lines_have_no_break(s: Seq<char>, i: int)
    ensures
        forall|k: int|
            0 <= k < lines_from(s, i).len() ==> !(#[trigger] lines_from(s, i)[k]).contains('\n'),
    decreases s.len() - i,
{
    if 0 <= i < s.len() {
        lemma_find_char_bounds(s, '\n', i);
        let j = find_char(s, '\n', i);
        if j < s.len() {
            lemma_lines_have_no_break(s, j + 1);
            let seg = s.subrange(i, j);
            let first = strip_cr(seg);
            assert forall|t: int| 0 <= t < first.len() implies first[t] != '\n' by {
                assert(first[t] == s[i + t]);
            }
            let rest = lines_from(s, j + 1);
            assert forall|k: int| 0 <= k < lines_from(s, i).len() implies !(#[trigger] lines_from(
                s,
                i,
            )[k]).contains('\n') by {
                if k > 0 {
                    assert(lines_from(s, i)[k] == rest[k - 1]);
                } else {
                    assert(lines_from(s, i)[0] == first);
                }
            }
        } else {
            let seg = s.subrange(i, s.len() as int);
            assert forall|t: int| 0 <= t < seg.len() implies seg[t] != '\n' by {
                assert(seg[t] == s[i + t]);
            }
            assert(lines_from(s, i)[0] == seg);
        }
    }
}

/// A text without line breaks counts none.
proof fn lemma_no_break_count(s: Seq<char>)
    requires
        !s.contains('\n'),
    ensures
        line_breaks(s) == 0,
    decreases s.len(),
{
    reveal(Seq::filter);
    if s.len() > 0 {
        assert(!s.drop_last().contains('\n')) by {
            assert forall|t: int| 0 <= t < s.drop_last().len() implies s.drop_last()[t] != '\n' by {
                assert(s.drop_last()[t] == s[t]);
            }
        }
        lemma_no_break_count(s.drop_last());
        assert(s.last() == s[s.len() - 1]);
    }
}

/// Joining parts without line breaks by line breaks gives one break fewer
/// than parts.
proof fn lemma_join_breaks(parts: Seq<Seq<char>>)
    requires
        parts.len() > 0,
        forall|k: int| 0 <= k < parts.len() ==> !(#[trigger] parts[k]).contains('\n'),
    ensures
        line_breaks(join(parts, "\n"@)) == parts.len() - 1,
    decreases parts.len(),
{
    reveal_strlit("\n");
    let p = |c: char| c == '\n';
    if parts.len() == 1 {
        lemma_no_break_count(parts[0]);
    } else {
        let init = parts.drop_last();
        assert forall|k: int| 0 <= k < init.len() implies !(#[trigger] init[k]).contains('\n') by {
            assert(init[k] == parts[k]);
        }
        lemma_join_breaks(init);
        assert(parts.last() == parts[parts.len() - 1]);
        lemma_no_break_count(parts.last());
        let a = join(init, "\n"@);
        let b = "\n"@;
        let c = parts.last();
        assert(b =~= seq!['\n']);
        broadcast use Seq::filter_distributes_over_add;
        assert((a + b + c).filter(p) == (a + b).filter(p) + c.filter(p));
        assert((a + b).filter(p) == a.filter(p) + b.filter(p));
        reveal(Seq::filter);
        assert(b.drop_last() =~= Seq::<char>::empty());
        assert(b.filter(p).len() == 1);
    }
}

/// A help cheatsheet has at most `HELP_LINES` lines: it holds fewer line
/// breaks than that.
pub proof fn law_help_cheatsheet_is_short(raw: Seq<char>)
    ensures
        help_cheatsheet(raw) matches Some(c) ==> line_breaks(c) < HELP_LINES,
{
    if help_cheatsheet(raw) is Some {
        let ls = lines(strip_ansi_spec(raw));
        let parts = first_lines(ls, HELP_LINES as int);
        lemma_lines_have_no_break(strip_ansi_spec(raw), 0);
        assert forall|k: int| 0 <= k < parts.len() implies !(#[trigger] parts[k]).contains('\n') by {
            assert(parts[k] == ls[k]);
        }
        if parts.len() > 0 {
            lemma_join_breaks(parts);
        } else {
            assert(join(parts, "\n"@) =~= Seq::<char>::empty());
            reveal(Seq::filter);
        }
    }
}

} // verus!
