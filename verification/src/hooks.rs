//! The git pre-commit hook that re-exports the roadmap on each commit
//! (`roadmap hooks`): its status, installation and removal, as changes of the
//! hook file's content.

use vstd::prelude::*;
use crate::text::{occurs_at, contains_seq, chars_of, string_of, chars_eq, chars_find, trim_chars, trim_seq, push_str, owned, leading_white, trailing_white};

verus! {

/// The line that marks the section this tool adds to the hook.
pub open spec fn hook_marker() -> Seq<char> {
    "# roadmap-cli auto-export"@
}

/// The section this tool adds to the hook.
pub open spec fn hook_script() -> Seq<char> {
    "# roadmap-cli auto-export\nif command -v roadmap >/dev/null 2>&1; then\n    if [ -d \".phases\" ]; then\n        roadmap export 2>/dev/null\n        git add ROADMAP.md 2>/dev/null\n    fi\nfi\n"@
}

/// The section this tool adds to the hook.
pub fn hook_script_text() -> (r: &'static str)
    ensures
        r@ == hook_script(),
{
    "# roadmap-cli auto-export\nif command -v roadmap >/dev/null 2>&1; then\n    if [ -d \".phases\" ]; then\n        roadmap export 2>/dev/null\n        git add ROADMAP.md 2>/dev/null\n    fi\nfi\n"
}

fn marker_chars() -> (r: Vec<char>)
    ensures
        r@ == hook_marker(),
{
    chars_of("# roadmap-cli auto-export")
}

/// The hook content holds this tool's section.
pub open spec fn hook_installed(content: Option<Seq<char>>) -> bool {
    content matches Some(c) && contains_seq(c, hook_marker())
}

/// Whether the hook (its content, `None` when there is no hook file) holds
/// this tool's section.
pub fn hook_status(content: &Option<String>) -> (r: bool)
    ensures
        r == hook_installed(match content {
            Some(c) => Some(c@),
            None => None,
        }),
{
    match content {
        Some(c) => {
            let cs = chars_of(c.as_str());
            let m = marker_chars();
            chars_find(&cs, &m).is_some()
        },
        None => false,
    }
}

/// What installing the hook does.
pub enum InstallOutcome {
    /// The section is there already; nothing is written.
    AlreadyInstalled,
    /// The hook file is written with this content.
    Write(String),
}

/// The hook content after installation: the shebang and the section when
/// there was no content, else the content, a line break and the section.
pub open spec fn installed_content(existing: Seq<char>) -> Seq<char> {
    if existing.len() == 0 {
        "#!/bin/sh\n"@ + hook_script()
    } else {
        existing + "\n"@ + hook_script()
    }
}

/// Installs the section in the hook whose content is given (`None` when
/// there is no hook file, an empty content then).
pub fn install_hook(existing: Option<String>) -> (r: InstallOutcome)
    ensures
        ({
            let c = match existing {
                Some(s) => s@,
                None => Seq::empty(),
            };
            &&& contains_seq(c, hook_marker()) ==> r is AlreadyInstalled
            &&& !contains_seq(c, hook_marker()) ==> (r matches InstallOutcome::Write(w) && w@
                == installed_content(c))
        }),
{
    let c = match existing {
        Some(s) => s,
        None => String::new(),
    };
    let cs = chars_of(c.as_str());
    let m = marker_chars();
    if chars_find(&cs, &m).is_some() {
        return InstallOutcome::AlreadyInstalled;
    }
    if cs.len() == 0 {
        let mut w = owned("#!/bin/sh\n");
        push_str(&mut w, hook_script_text());
        InstallOutcome::Write(w)
    } else {
        let mut w = c;
        push_str(&mut w, "\n");
        push_str(&mut w, hook_script_text());
        InstallOutcome::Write(w)
    }
}

/// `s` without a final carriage return.
pub open spec fn strip_cr(s: Seq<char>) -> Seq<char> {
    if s.len() > 0 && s.last() == '\r' {
        s.drop_last()
    } else {
        s
    }
}

/// The position of the first line feed of `s`, or its length when it has none.
pub open spec fn newline_at(s: Seq<char>) -> nat
    decreases s.len(),
{
    if s.len() == 0 {
        0
    } else if s[0] == '\n' {
        0
    } else {
        1 + newline_at(s.drop_first())
    }
}

/// Where the first line feed stands.
pub proof fn lemma_newline_at(s: Seq<char>)
    ensures
        newline_at(s) <= s.len(),
        newline_at(s) < s.len() ==> s[newline_at(s) as int] == '\n',
        forall|j: int| 0 <= j < newline_at(s) ==> s[j] != '\n',
    decreases s.len(),
{
    if s.len() > 0 && s[0] != '\n' {
        lemma_newline_at(s.drop_first());
        assert forall|j: int| 0 <= j < newline_at(s) implies s[j] != '\n' by {
            if j > 0 {
                assert(s[j] == s.drop_first()[j - 1]);
            }
        }
    }
}

/// The lines of `s` as `str::lines` splits them: at each line feed, a
/// carriage return before it dropped, and no empty line after a final line feed.
pub open spec fn split_lines(s: Seq<char>) -> Seq<Seq<char>>
    decreases s.len(),
{
    if s.len() == 0 {
        Seq::empty()
    } else {
        let i = newline_at(s) as int;
        if i >= s.len() {
            seq![s]
        } else {
            proof {
                lemma_newline_at(s);
            }
            seq![strip_cr(s.take(i))] + split_lines(s.skip(i + 1))
        }
    }
}

/// The lines joined by line feeds.
pub open spec fn join_lines(lines: Seq<Seq<char>>) -> Seq<char>
    decreases lines.len(),
{
    if lines.len() == 0 {
        Seq::empty()
    } else if lines.len() == 1 {
        lines[0]
    } else {
        join_lines(lines.drop_last()) + "\n"@ + lines.last()
    }
}

/// The lines before the first line holding the marker.
pub open spec fn lines_before_marker(lines: Seq<Seq<char>>) -> Seq<Seq<char>>
    decreases lines.len(),
{
    if lines.len() == 0 {
        Seq::empty()
    } else if contains_seq(lines[0], hook_marker()) {
        Seq::empty()
    } else {
        seq![lines[0]] + lines_before_marker(lines.drop_first())
    }
}

/// What removing the hook's section does.
pub enum UninstallOutcome {
    /// There is no hook file.
    NoHook,
    /// The hook does not hold this tool's section; nothing is changed.
    NotInstalled,
    /// Nothing but a shebang would remain: the hook file is removed.
    Remove,
    /// The hook file is written with this content.
    Write(String),
}

/// What is kept of a hook when the section is removed: its lines before the
/// marker line, joined and trimmed.
pub open spec fn kept_content(c: Seq<char>) -> Seq<char> {
    trim_seq(join_lines(lines_before_marker(split_lines(c))))
}

/// What removing the section does to a hook with this content.
pub open spec fn uninstall_spec(existing: Option<Seq<char>>, r: UninstallOutcome) -> bool {
    match existing {
        None => r is NoHook,
        Some(c) => if !contains_seq(c, hook_marker()) {
            r is NotInstalled
        } else {
            let k = kept_content(c);
            if k.len() == 0 || k == "#!/bin/sh"@ {
                r is Remove
            } else {
                (r matches UninstallOutcome::Write(w) && w@ == k + "\n"@)
            }
        },
    }
}

fn newline_from(s: &Vec<char>, start: usize) -> (j: usize)
    requires
        start <= s@.len(),
    ensures
        start <= j <= s@.len(),
        j - start == newline_at(s@.skip(start as int)),
{
    let n = s.len();
    let mut j: usize = start;
    while j < n && s[j] != '\n'
        invariant
            start <= j <= n,
            n == s@.len(),
            newline_at(s@.skip(start as int)) == (j - start) + newline_at(s@.skip(j as int)),
        decreases n - j,
    {
        assert(s@.skip(j as int).drop_first() == s@.skip(j + 1));
        j = j + 1;
    }
    j
}

fn copy_range(s: &Vec<char>, a: usize, b: usize) -> (r: Vec<char>)
    requires
        a <= b <= s@.len(),
    ensures
        r@ == s@.subrange(a as int, b as int),
{
    let mut line: Vec<char> = Vec::new();
    let mut k: usize = a;
    while k < b
        invariant
            a <= k <= b <= s@.len(),
            line@ == s@.subrange(a as int, k as int),
        decreases b - k,
    {
        line.push(s[k]);
        k = k + 1;
    }
    line
}

proof fn lemma_split_step(s: Seq<char>, start: int, j: int)
    requires
        0 <= start <= j < s.len(),
        j - start == newline_at(s.skip(start)),
    ensures
        split_lines(s.skip(start)) == seq![strip_cr(s.subrange(start, j))] + split_lines(s.skip(j + 1)),
{
    let rest = s.skip(start);
    assert(rest.take(j - start) == s.subrange(start, j));
    assert(rest.skip(j - start + 1) == s.skip(j + 1));
}

/// Splits the characters into lines as `str::lines` does.
pub fn lines_of(s: &Vec<char>) -> (r: Vec<Vec<char>>)
    ensures
        r@.map_values(|l: Vec<char>| l@) == split_lines(s@),
{
    let mut out: Vec<Vec<char>> = Vec::new();
    let mut start: usize = 0;
    let n = s.len();
    assert(s@.skip(0) == s@);
    while start < n
        invariant
            n == s@.len(),
            start <= n,
            split_lines(s@) == out@.map_values(|l: Vec<char>| l@) + split_lines(s@.skip(start as int)),
        decreases n - start,
    {
        let j = newline_from(s, start);
        let mut line = copy_range(s, start, j);
        let ghost before = out@.map_values(|l: Vec<char>| l@);
        if j == n {
            proof {
                assert(s@.subrange(start as int, n as int) == s@.skip(start as int));
                assert(split_lines(s@.skip(start as int)) == seq![s@.skip(start as int)]);
                assert(s@.skip(n as int) == Seq::<char>::empty());
            }
            out.push(line);
            proof {
                assert(out@.map_values(|l: Vec<char>| l@) == before.push(s@.skip(start as int)));
                assert(before + seq![s@.skip(start as int)] == before.push(s@.skip(start as int)));
                assert(out@.map_values(|l: Vec<char>| l@) + split_lines(s@.skip(n as int)) == out@.map_values(|l: Vec<char>| l@));
            }
            start = n;
        } else {
            if line.len() > 0 && line[line.len() - 1] == '\r' {
                line.pop();
            }
            proof {
                lemma_split_step(s@, start as int, j as int);
            }
            let ghost lv = line@;
            out.push(line);
            proof {
                assert(lv == strip_cr(s@.subrange(start as int, j as int)));
                assert(out@.map_values(|l: Vec<char>| l@) == before.push(lv));
                assert(before + (seq![lv] + split_lines(s@.skip(j + 1))) == before.push(lv) + split_lines(s@.skip(j + 1)));
            }
            start = j + 1;
        }
    }
    out
}

/// Removes this tool's section from the hook whose content is given (`None`
/// when there is no hook file).
pub fn uninstall_hook(existing: Option<String>) -> (r: UninstallOutcome)
    ensures
        uninstall_spec(match existing {
            Some(s) => Some(s@),
            None => None,
        }, r),
{
    let c = match existing {
        None => {
            return UninstallOutcome::NoHook;
        },
        Some(c) => c,
    };
    let cs = chars_of(c.as_str());
    let m = marker_chars();
    if chars_find(&cs, &m).is_none() {
        return UninstallOutcome::NotInstalled;
    }
    let lines = lines_of(&cs);
    let ghost views = lines@.map_values(|l: Vec<char>| l@);
    let mut joined: Vec<char> = Vec::new();
    let mut i: usize = 0;
    let mut stop = false;
    assert(views.skip(0) == views);
    while i < lines.len() && !stop
        invariant
            i <= lines@.len(),
            m@ == hook_marker(),
            views == lines@.map_values(|l: Vec<char>| l@),
            !stop ==> lines_before_marker(views) == views.take(i as int) + lines_before_marker(views.skip(i as int)),
            stop ==> lines_before_marker(views) == views.take(i as int),
            joined@ == join_lines(views.take(i as int)),
            forall|q: int| 0 <= q < i ==> !contains_seq(#[trigger] views[q], hook_marker()),
        decreases lines@.len() - i, if stop { 0int } else { 1int },
    {
        assert(views[i as int] == lines@[i as int]@);
        let found = chars_find(&lines[i], &m);
        proof {
            match found {
                Some(k) => {
                    assert(occurs_at(views[i as int], hook_marker(), k as int));
                },
                None => {
                    assert(!contains_seq(views[i as int], hook_marker()));
                },
            }
        }
        if found.is_some() {
            proof {
                assert(contains_seq(views[i as int], hook_marker()));
                assert(views.skip(i as int)[0] == views[i as int]);
                assert(lines_before_marker(views.skip(i as int)) == Seq::<Seq<char>>::empty());
                assert(views.take(i as int) + Seq::<Seq<char>>::empty() == views.take(i as int));
            }
            stop = true;
        } else {
            let ghost old_joined = joined@;
            if i > 0 {
                joined.push('\n');
            }
            let mut k: usize = 0;
            let ghost mid = joined@;
            while k < lines[i].len()
                invariant
                    i < lines@.len(),
                    k <= lines@[i as int]@.len(),
                    joined@ == mid + lines@[i as int]@.take(k as int),
                decreases lines@[i as int]@.len() - k,
            {
                joined.push(lines[i][k]);
                assert(lines@[i as int]@.take(k + 1) == lines@[i as int]@.take(k as int).push(lines@[i as int]@[k as int]));
                k = k + 1;
            }
            proof {
                reveal_strlit("\n");
                assert(lines@[i as int]@.take(k as int) == lines@[i as int]@);
                let t = views.take(i + 1);
                assert(t.drop_last() == views.take(i as int));
                assert(t.last() == views[i as int]);
                if i == 0 {
                    assert(t.len() == 1);
                    assert(joined@ == views[0]);
                }
                assert(joined@ == join_lines(t));
                let sk = views.skip(i as int);
                assert(sk[0] == views[i as int]);
                assert(sk.drop_first() == views.skip(i + 1));
                assert(lines_before_marker(sk) == seq![views[i as int]] + lines_before_marker(views.skip(i + 1)));
                assert(views.take(i as int) + (seq![views[i as int]] + lines_before_marker(views.skip(i + 1))) == t + lines_before_marker(views.skip(i + 1)));
            }
            i = i + 1;
        }
    }
    proof {
        if !stop {
            assert(views.skip(i as int) == Seq::<Seq<char>>::empty());
            assert(lines_before_marker(Seq::<Seq<char>>::empty()) == Seq::<Seq<char>>::empty());
            assert(views.take(i as int) + Seq::<Seq<char>>::empty() == views.take(i as int));
        }
    }
    let kept = trim_chars(&joined);
    let shebang = chars_of("#!/bin/sh");
    if kept.len() == 0 || chars_eq(&kept, &shebang) {
        UninstallOutcome::Remove
    } else {
        let mut w = string_of(&kept);
        push_str(&mut w, "\n");
        UninstallOutcome::Write(w)
    }
}

/// `s` cut at every line feed; the piece after the last one is kept, even
/// when empty.
pub open spec fn pieces(s: Seq<char>) -> Seq<Seq<char>>
    decreases s.len(),
{
    let i = newline_at(s) as int;
    if i >= s.len() {
        seq![s]
    } else {
        proof {
            lemma_newline_at(s);
        }
        seq![s.take(i)] + pieces(s.skip(i + 1))
    }
}

/// `s` has no carriage return.
pub open spec fn no_cr(s: Seq<char>) -> bool {
    forall|i: int| 0 <= i < s.len() ==> s[i] != '\r'
}

/// Where the first line feed of a concatenation stands.
proof fn lemma_newline_concat(a: Seq<char>, x: Seq<char>)
    ensures
        newline_at(a + x) == if newline_at(a) < a.len() {
            newline_at(a) as int
        } else {
            (a.len() + newline_at(x)) as int
        },
    decreases a.len(),
{
    if a.len() == 0 {
        assert(a + x =~= x);
    } else {
        assert((a + x)[0] == a[0]);
        if a[0] != '\n' {
            assert((a + x).drop_first() =~= a.drop_first() + x);
            lemma_newline_concat(a.drop_first(), x);
        }
    }
}

/// The lines of a text, a line feed and more text: the pieces of the first
/// text, then the lines of the rest.
proof fn lemma_split_concat(a: Seq<char>, b: Seq<char>)
    requires
        no_cr(a),
    ensures
        split_lines(a + "\n"@ + b) == pieces(a) + split_lines(b),
    decreases a.len(),
{
    reveal_strlit("\n");
    let s = a + "\n"@ + b;
    lemma_newline_at(a);
    lemma_newline_concat(a, "\n"@ + b);
    assert(s =~= a + ("\n"@ + b));
    assert(newline_at("\n"@ + b) == 0);
    let i = newline_at(a) as int;
    if i >= a.len() {
        assert(newline_at(s) == a.len());
        assert(s.take(a.len() as int) =~= a);
        assert(s.skip(a.len() as int + 1) =~= b);
        assert(strip_cr(a) == a) by {
            if a.len() > 0 {
                assert(a.last() != '\r');
            }
        }
        assert(pieces(a) == seq![a]);
    } else {
        assert(newline_at(s) == i);
        assert(s.take(i) =~= a.take(i));
        let rest = a.skip(i + 1);
        assert(s.skip(i + 1) =~= rest + "\n"@ + b);
        assert(no_cr(rest)) by {
            assert forall|k: int| 0 <= k < rest.len() implies rest[k] != '\r' by {
                assert(rest[k] == a[k + i + 1]);
            }
        }
        lemma_split_concat(rest, b);
        assert(strip_cr(a.take(i)) == a.take(i)) by {
            if i > 0 {
                assert(a.take(i).last() == a[i - 1]);
            }
        }
        assert(split_lines(s) =~= seq![a.take(i)] + split_lines(rest + "\n"@ + b));
        assert(pieces(a) == seq![a.take(i)] + pieces(rest));
        assert(seq![a.take(i)] + (pieces(rest) + split_lines(b)) =~= (seq![a.take(i)] + pieces(rest))
            + split_lines(b));
    }
}

/// Joining a line before others puts a line feed between.
proof fn lemma_join_prepend(x: Seq<char>, rest: Seq<Seq<char>>)
    requires
        rest.len() > 0,
    ensures
        join_lines(seq![x] + rest) == x + "\n"@ + join_lines(rest),
    decreases rest.len(),
{
    let all = seq![x] + rest;
    if rest.len() == 1 {
        assert(all.drop_last() =~= seq![x]);
        assert(all.last() == rest[0]);
        assert(join_lines(seq![x]) == x);
        assert(join_lines(rest) == rest[0]);
        assert(join_lines(all) == join_lines(all.drop_last()) + "\n"@ + all.last());
    } else {
        assert(all.drop_last() =~= seq![x] + rest.drop_last());
        lemma_join_prepend(x, rest.drop_last());
        assert(all.last() == rest.last());
        assert(join_lines(all) =~= x + "\n"@ + join_lines(rest));
    }
}

/// Joining the pieces of a text gives it back.
proof fn lemma_join_pieces(a: Seq<char>)
    ensures
        join_lines(pieces(a)) == a,
    decreases a.len(),
{
    lemma_newline_at(a);
    let i = newline_at(a) as int;
    if i < a.len() {
        let rest = a.skip(i + 1);
        lemma_join_pieces(rest);
        let p = pieces(rest);
        assert(p.len() > 0) by {
            reveal_with_fuel(pieces, 2);
        }
        lemma_join_prepend(a.take(i), p);
        reveal_strlit("\n");
        assert(a.take(i) + "\n"@ + rest =~= a);
    }
}

/// A part of a text holding the marker makes the text hold it.
proof fn lemma_part_contains(a: Seq<char>, x: int, y: int)
    requires
        0 <= x <= y <= a.len(),
        contains_seq(a.subrange(x, y), hook_marker()),
    ensures
        contains_seq(a, hook_marker()),
{
    let part = a.subrange(x, y);
    let j = choose|j: int| occurs_at(part, hook_marker(), j);
    assert(a.subrange(x + j, x + j + hook_marker().len()) =~= part.subrange(j, j + hook_marker().len()));
    assert(occurs_at(a, hook_marker(), x + j));
}

/// No piece of a text without the marker holds it.
proof fn lemma_pieces_unmarked(a: Seq<char>)
    requires
        !contains_seq(a, hook_marker()),
    ensures
        forall|k: int| 0 <= k < pieces(a).len() ==> !contains_seq(#[trigger] pieces(a)[k], hook_marker()),
    decreases a.len(),
{
    lemma_newline_at(a);
    let i = newline_at(a) as int;
    if i < a.len() {
        let rest = a.skip(i + 1);
        if contains_seq(rest, hook_marker()) {
            assert(rest =~= a.subrange(i + 1, a.len() as int));
            lemma_part_contains(a, i + 1, a.len() as int);
        }
        if contains_seq(a.take(i), hook_marker()) {
            assert(a.take(i) =~= a.subrange(0, i));
            lemma_part_contains(a, 0, i);
        }
        lemma_pieces_unmarked(rest);
        let p = pieces(a);
        assert forall|k: int| 0 <= k < p.len() implies !contains_seq(#[trigger] p[k], hook_marker()) by {
            if k > 0 {
                assert(p[k] == pieces(rest)[k - 1]);
            }
        }
    } else {
        assert(pieces(a) == seq![a]);
    }
}

/// Lines that do not hold the marker all come before it.
proof fn lemma_before_marker_concat(x: Seq<Seq<char>>, y: Seq<Seq<char>>)
    requires
        forall|k: int| 0 <= k < x.len() ==> !contains_seq(#[trigger] x[k], hook_marker()),
    ensures
        lines_before_marker(x + y) == x + lines_before_marker(y),
    decreases x.len(),
{
    if x.len() == 0 {
        assert(x + y =~= y);
    } else {
        assert((x + y)[0] == x[0]);
        assert((x + y).drop_first() =~= x.drop_first() + y);
        lemma_before_marker_concat(x.drop_first(), y);
        assert(seq![x[0]] + (x.drop_first() + lines_before_marker(y)) =~= x + lines_before_marker(y));
    }
}

/// The section starts with the marker line.
proof fn lemma_script_starts_with_marker()
    ensures
        hook_script() == hook_marker() + "\n"@ + hook_script().skip(hook_marker().len() as int + 1),
        no_cr(hook_marker()),
        newline_at(hook_marker()) == hook_marker().len(),
        occurs_at(hook_marker(), hook_marker(), 0),
{
    reveal_strlit("# roadmap-cli auto-export");
    reveal_strlit("\n");
    reveal_strlit("# roadmap-cli auto-export\nif command -v roadmap >/dev/null 2>&1; then\n    if [ -d \".phases\" ]; then\n        roadmap export 2>/dev/null\n        git add ROADMAP.md 2>/dev/null\n    fi\nfi\n");
    let m = hook_marker();
    assert(hook_script() =~= m + "\n"@ + hook_script().skip(m.len() as int + 1));
    assert(m.subrange(0, m.len() as int) =~= m);
    lemma_newline_at(m);
    assert forall|j: int| 0 <= j < m.len() implies m[j] != '\n' && m[j] != '\r' by {}
    if newline_at(m) < m.len() {
        assert(m[newline_at(m) as int] == '\n');
    }
}

/// The lines of the section hold the marker from the first on.
proof fn lemma_script_lines()
    ensures
        lines_before_marker(split_lines(hook_script())) == Seq::<Seq<char>>::empty(),
{
    lemma_script_starts_with_marker();
    let m = hook_marker();
    let tail = hook_script().skip(m.len() as int + 1);
    lemma_split_concat(m, tail);
    assert(pieces(m) == seq![m]);
    assert(split_lines(hook_script()) == seq![m] + split_lines(tail));
    assert((seq![m] + split_lines(tail))[0] == m);
    assert(contains_seq(m, m));
}

/// The shebang alone: no carriage return, no marker, nothing to trim.
proof fn lemma_shebang()
    ensures
        no_cr("#!/bin/sh"@),
        !contains_seq("#!/bin/sh"@, hook_marker()),
        trim_seq("#!/bin/sh"@) == "#!/bin/sh"@,
        "#!/bin/sh\n"@ == "#!/bin/sh"@ + "\n"@,
{
    reveal_strlit("#!/bin/sh\n");
    reveal_strlit("#!/bin/sh");
    reveal_strlit("\n");
    reveal_strlit("# roadmap-cli auto-export");
    let a = "#!/bin/sh"@;
    assert("#!/bin/sh\n"@ =~= a + "\n"@);
    if contains_seq(a, hook_marker()) {
        let j = choose|j: int| occurs_at(a, hook_marker(), j);
        assert(j + hook_marker().len() <= a.len());
        assert(false);
    }
    assert(leading_white(a) == 0);
    assert(a.skip(0) =~= a);
    assert(trailing_white(a) == 0);
    assert(a.take(a.len() as int) =~= a);
}

/// What is kept of a text followed by the section: the text, trimmed.
proof fn lemma_kept_after(a: Seq<char>)
    requires
        no_cr(a),
        !contains_seq(a, hook_marker()),
    ensures
        contains_seq(a + "\n"@ + hook_script(), hook_marker()),
        kept_content(a + "\n"@ + hook_script()) == trim_seq(a),
{
    lemma_script_starts_with_marker();
    reveal_strlit("\n");
    let m = hook_marker();
    let installed = a + "\n"@ + hook_script();
    assert(installed.subrange(a.len() as int + 1, a.len() as int + 1 + m.len()) =~= m);
    assert(occurs_at(installed, m, a.len() as int + 1));
    lemma_split_concat(a, hook_script());
    lemma_script_lines();
    lemma_pieces_unmarked(a);
    lemma_before_marker_concat(pieces(a), split_lines(hook_script()));
    assert(pieces(a) + Seq::<Seq<char>>::empty() =~= pieces(a));
    lemma_join_pieces(a);
}

/// What uninstalling gives after installing: the hook as it was, trimmed
/// (only the shebang when there was none, so the file goes), for a hook
/// without carriage returns and without the marker.
pub proof fn lemma_uninstall_after_install(c: Seq<char>)
    requires
        no_cr(c),
        !contains_seq(c, hook_marker()),
    ensures
        contains_seq(installed_content(c), hook_marker()),
        kept_content(installed_content(c)) == if c.len() == 0 {
            "#!/bin/sh"@
        } else {
            trim_seq(c)
        },
{
    lemma_shebang();
    if c.len() == 0 {
        assert(installed_content(c) =~= "#!/bin/sh"@ + "\n"@ + hook_script());
        lemma_kept_after("#!/bin/sh"@);
    } else {
        lemma_kept_after(c);
    }
}


} // verus!
