//! `roadmap scan`: the TODO, FIXME and kindred markers of the code, and the
//! tasks made from them.

use vstd::prelude::*;
use crate::matching::{regex_compiles, regex_captures_first, regex_valid, captures_first};
use crate::coverage::{SourceFile, group};
use crate::model::{Phase, Task};
use crate::templates::task_id_of;
use crate::text::{
    contains_seq, is_prefix, trim_seq, decimal, spec_lowercase, spec_uppercase, to_lowercase,
    to_uppercase, chars_of, string_of, owned, trim_chars, contains, starts_with, str_eq,
    push_str, push_decimal, chars_from, chars_upto,
};

verus! {

/// The pattern of a marker comment: the marker as a word, in any case, then
/// what follows it on the line after colons and blanks.
pub const MARKER_PATTERN: &'static str = r"(?i)\b(TODO|FIXME|HACK|BUG|XXX|OPTIMIZE|REFACTOR)\b[:\s]*(.+?)$";

/// A marker found in the code.
pub struct Finding {
    pub file: String,
    pub line: usize,
    pub marker: String,
    pub content: String,
}

/// The model of a finding.
pub struct FindingView {
    pub file: Seq<char>,
    pub line: int,
    pub marker: Seq<char>,
    pub content: Seq<char>,
}

impl View for Finding {
    type V = FindingView;

    open spec fn view(&self) -> FindingView {
        FindingView {
            file: self.file@,
            line: self.line as int,
            marker: self.marker@,
            content: self.content@,
        }
    }
}

/// The models of a list of findings.
pub open spec fn finding_views(s: Seq<Finding>) -> Seq<FindingView> {
    s.map_values(|f: Finding| f@)
}

/// The number of bytes of a character in UTF-8.
pub open spec fn utf8_width(c: char) -> nat {
    if (c as u32) < 0x80 {
        1
    } else if (c as u32) < 0x800 {
        2
    } else if (c as u32) < 0x10000 {
        3
    } else {
        4
    }
}

/// The number of bytes of a text in UTF-8 (what `str::len` counts).
pub open spec fn utf8_len(s: Seq<char>) -> nat
    decreases s.len(),
{
    if s.len() == 0 {
        0
    } else {
        utf8_len(s.drop_last()) + utf8_width(s.last())
    }
}

/// The smaller of two numbers.
pub open spec fn min_nat(a: nat, b: nat) -> nat {
    if a <= b {
        a
    } else {
        b
    }
}

/// The number of bytes of a character in UTF-8.
fn width_of(c: char) -> (r: usize)
    ensures
        r == utf8_width(c),
{
    let u = c as u32;
    if u < 0x80 {
        1
    } else if u < 0x800 {
        2
    } else if u < 0x10000 {
        3
    } else {
        4
    }
}

/// The UTF-8 length of a text, or `cap` where it is longer.
pub fn utf8_len_capped(cs: &Vec<char>, cap: usize) -> (r: usize)
    ensures
        r == min_nat(utf8_len(cs@), cap as nat),
{
    let mut total: usize = 0;
    let mut i: usize = 0;
    while i < cs.len()
        invariant
            i <= cs@.len(),
            total == utf8_len(cs@.take(i as int)),
            total <= cap,
        decreases cs@.len() - i,
    {
        let w = width_of(cs[i]);
        assert(cs@.take(i + 1).drop_last() == cs@.take(i as int));
        if w > cap - total {
            proof {
                lemma_utf8_len_grows(cs@, i + 1);
            }
            return cap;
        }
        total = total + w;
        i = i + 1;
    }
    assert(cs@.take(i as int) == cs@);
    total
}

/// A longer prefix has at least as many bytes.
proof fn lemma_utf8_len_grows(s: Seq<char>, n: int)
    requires
        0 <= n <= s.len(),
    ensures
        utf8_len(s.take(n)) <= utf8_len(s),
    decreases s.len() - n,
{
    if n < s.len() {
        lemma_utf8_len_grows(s, n + 1);
        assert(s.take(n + 1).drop_last() == s.take(n));
    } else {
        assert(s.take(n) == s);
    }
}

/// The finding, if any, that a line gives from the groups of its match: the
/// marker upper-cased and the rest of the line trimmed, which must be at least
/// three bytes long.
pub open spec fn finding_of(
    found: Option<Seq<Option<Seq<char>>>>,
    file: Seq<char>,
    line: int,
) -> Option<FindingView> {
    match found {
        None => None,
        Some(c) => {
            let marker = match group(c, 1) {
                Some(m) => spec_uppercase(m),
                None => Seq::empty(),
            };
            let content = match group(c, 2) {
                Some(t) => trim_seq(t),
                None => Seq::empty(),
            };
            if utf8_len(content) < 3 {
                None
            } else {
                Some(FindingView { file, line, marker, content })
            }
        },
    }
}

/// The finding that a match gives at a line (see `finding_of`).
pub fn finding_from_match(found: Option<Vec<Option<String>>>, file: &str, line: usize) -> (r: Option<Finding>)
    ensures
        r is Some <==> finding_of(found.deep_view(), file@, line as int) is Some,
        r matches Some(f) ==> finding_of(found.deep_view(), file@, line as int) == Some(f@),
{
    let c = match found {
        Some(c) => c,
        None => {
            return None;
        },
    };
    let marker = if c.len() > 1 {
        match &c[1] {
            Some(m) => to_uppercase(m.as_str()),
            None => String::new(),
        }
    } else {
        String::new()
    };
    let content = if c.len() > 2 {
        match &c[2] {
            Some(t) => {
                let tc = chars_of(t.as_str());
                string_of(&trim_chars(&tc))
            },
            None => String::new(),
        }
    } else {
        String::new()
    };
    let cc = chars_of(content.as_str());
    if utf8_len_capped(&cc, 3) < 3 {
        return None;
    }
    Some(Finding { file: owned(file), line, marker, content })
}

/// The findings of the first `n` lines of a file (lines count from 1).
pub open spec fn file_findings(lines: Seq<Seq<char>>, file: Seq<char>, n: int) -> Seq<FindingView>
    decreases n,
{
    if n <= 0 {
        Seq::empty()
    } else {
        file_findings(lines, file, n - 1) + match finding_of(
            regex_captures_first(MARKER_PATTERN@, lines[n - 1]),
            file,
            n,
        ) {
            Some(f) => seq![f],
            None => Seq::empty(),
        }
    }
}

/// The findings of the first `n` files.
pub open spec fn files_findings(files: Seq<SourceFile>, n: int) -> Seq<FindingView>
    decreases n,
{
    if n <= 0 {
        Seq::empty()
    } else {
        let f = files[n - 1];
        files_findings(files, n - 1) + file_findings(f.lines.deep_view(), f.path@, f.lines@.len() as int)
    }
}

/// The models of a list grow by the model of what is pushed.
proof fn lemma_finding_views_push(s: Seq<Finding>, f: Finding)
    ensures
        finding_views(s.push(f)) == finding_views(s).push(f@),
{
    assert(finding_views(s.push(f)) =~= finding_views(s).push(f@));
}

/// The markers of the files, read by the caller, file by file and line by
/// line; `None` where the marker pattern does not compile.
pub fn scan_findings(files: &Vec<SourceFile>) -> (r: Option<Vec<Finding>>)
    ensures
        r is Some <==> regex_compiles(MARKER_PATTERN@),
        r matches Some(v) ==> finding_views(v@) == files_findings(files@, files@.len() as int),
{
    if !regex_valid(MARKER_PATTERN) {
        return None;
    }
    let mut out: Vec<Finding> = Vec::new();
    let mut i: usize = 0;
    assert(finding_views(out@) =~= files_findings(files@, 0));
    while i < files.len()
        invariant
            regex_compiles(MARKER_PATTERN@),
            i <= files@.len(),
            finding_views(out@) == files_findings(files@, i as int),
        decreases files@.len() - i,
    {
        let f = &files[i];
        let ghost start = finding_views(out@);
        let mut k: usize = 0;
        assert(start + file_findings(f.lines.deep_view(), f.path@, 0) =~= start);
        while k < f.lines.len()
            invariant
                regex_compiles(MARKER_PATTERN@),
                k <= f.lines@.len(),
                finding_views(out@) == start + file_findings(f.lines.deep_view(), f.path@, k as int),
            decreases f.lines@.len() - k,
        {
            let found = match captures_first(MARKER_PATTERN, f.lines[k].as_str()) {
                Some(found) => found,
                None => {
                    return None;
                },
            };
            match finding_from_match(found, f.path.as_str(), k + 1) {
                Some(x) => {
                    proof {
                        lemma_finding_views_push(out@, x);
                    }
                    out.push(x);
                },
                None => {},
            }
            k = k + 1;
        }
        i = i + 1;
    }
    Some(out)
}

/// The extensions of files that the scan skips as binary.
pub open spec fn is_binary_extension(ext: Seq<char>) -> bool {
    ||| ext == "exe"@
    ||| ext == "dll"@
    ||| ext == "so"@
    ||| ext == "dylib"@
    ||| ext == "bin"@
    ||| ext == "png"@
    ||| ext == "jpg"@
    ||| ext == "jpeg"@
    ||| ext == "gif"@
    ||| ext == "ico"@
    ||| ext == "woff"@
    ||| ext == "woff2"@
    ||| ext == "ttf"@
    ||| ext == "eot"@
}

/// Whether the scan skips a file: a hidden one (a path with `/.` or `\.`)
/// unless hidden files are included, or one whose extension, lower-cased,
/// is that of a binary file.
pub open spec fn skipped(path: Seq<char>, ext: Option<Seq<char>>, include_hidden: bool) -> bool {
    ||| (!include_hidden && (contains_seq(path, "/."@) || contains_seq(path, "\\."@)))
    ||| (ext matches Some(e) && is_binary_extension(spec_lowercase(e)))
}

/// Whether the extension, lower-cased, is that of a binary file.
fn binary_extension(e: &str) -> (r: bool)
    ensures
        r == is_binary_extension(e@),
{
    str_eq(e, "exe") || str_eq(e, "dll") || str_eq(e, "so") || str_eq(e, "dylib") || str_eq(e, "bin")
        || str_eq(e, "png") || str_eq(e, "jpg") || str_eq(e, "jpeg") || str_eq(e, "gif") || str_eq(
        e,
        "ico",
    ) || str_eq(e, "woff") || str_eq(e, "woff2") || str_eq(e, "ttf") || str_eq(e, "eot")
}

/// Whether the scan skips a file (see `skipped`); `ext` is the extension of
/// its path, if it has one.
pub fn skip_file(path: &str, ext: Option<&str>, include_hidden: bool) -> (r: bool)
    ensures
        r == skipped(
            path@,
            match ext {
                Some(e) => Some(e@),
                None => None,
            },
            include_hidden,
        ),
{
    if !include_hidden && (contains(path, "/.") || contains(path, "\\.")) {
        return true;
    }
    match ext {
        Some(e) => {
            let low = to_lowercase(e);
            binary_extension(low.as_str())
        },
        None => false,
    }
}

/// The icon shown beside each marker.
pub open spec fn marker_icon_of(marker: Seq<char>) -> Seq<char> {
    if marker == "TODO"@ {
        "📋"@
    } else if marker == "FIXME"@ {
        "🔧"@
    } else if marker == "HACK"@ {
        "⚠️"@
    } else if marker == "BUG"@ {
        "🐛"@
    } else if marker == "XXX"@ {
        "❌"@
    } else if marker == "OPTIMIZE"@ {
        "⚡"@
    } else if marker == "REFACTOR"@ {
        "🔄"@
    } else {
        "📌"@
    }
}

/// The icon shown beside a marker.
pub fn marker_icon(marker: &str) -> (r: &'static str)
    ensures
        r@ == marker_icon_of(marker@),
{
    if str_eq(marker, "TODO") {
        "📋"
    } else if str_eq(marker, "FIXME") {
        "🔧"
    } else if str_eq(marker, "HACK") {
        "⚠️"
    } else if str_eq(marker, "BUG") {
        "🐛"
    } else if str_eq(marker, "XXX") {
        "❌"
    } else if str_eq(marker, "OPTIMIZE") {
        "⚡"
    } else if str_eq(marker, "REFACTOR") {
        "🔄"
    } else {
        "📌"
    }
}

/// Longer prefixes of a text have strictly more bytes.
pub proof fn lemma_utf8_len_strict(s: Seq<char>, a: int, b: int)
    requires
        0 <= a < b <= s.len(),
    ensures
        utf8_len(s.take(a)) < utf8_len(s.take(b)),
    decreases b - a,
{
    assert(s.take(b).drop_last() == s.take(b - 1));
    if a < b - 1 {
        lemma_utf8_len_strict(s, a, b - 1);
    }
}

/// Byte `n` of the text falls between two characters.
pub open spec fn boundary_at(s: Seq<char>, n: int) -> bool {
    exists|k: int| 0 <= k <= s.len() && utf8_len(#[trigger] s.take(k)) == n
}

/// The characters of the first `n` bytes of a text (meaningful where byte
/// `n` falls between two characters).
pub open spec fn prefix_bytes(s: Seq<char>, n: int) -> Seq<char> {
    s.take(choose|k: int| 0 <= k <= s.len() && utf8_len(#[trigger] s.take(k)) == n)
}

/// A text shortened for display: past `max` bytes, its first `cut` bytes
/// and `...`.
pub open spec fn excerpt_of(content: Seq<char>, max: int, cut: int) -> Seq<char> {
    if utf8_len(content) > max {
        prefix_bytes(content, cut) + "..."@
    } else {
        content
    }
}

/// The text can be shortened: it has at most `max` bytes, or byte `cut`
/// falls between two characters.
pub open spec fn cuts_cleanly_at(content: Seq<char>, max: int, cut: int) -> bool {
    utf8_len(content) > max ==> boundary_at(content, cut)
}

/// The title that a task gets from a marker's text: the text, or, past 80
/// bytes, its first 77 bytes and `...`.
pub open spec fn task_title(content: Seq<char>) -> Seq<char> {
    excerpt_of(content, 80, 77)
}

/// The text can be cut to a title: it has at most 80 bytes, or byte 77
/// falls between two characters.
pub open spec fn cuts_cleanly_at_title(content: Seq<char>) -> bool {
    cuts_cleanly_at(content, 80, 77)
}

/// Where the first `cut` bytes of a long text end: the number of characters
/// they take, if byte `cut` falls between two characters.
fn cut_point(cc: &Vec<char>, max: usize, cut: usize) -> (r: Option<usize>)
    requires
        cut <= max,
        utf8_len(cc@) > max,
    ensures
        r is Some <==> boundary_at(cc@, cut as int),
        r matches Some(k) ==> k <= cc@.len() && utf8_len(cc@.take(k as int)) == cut && prefix_bytes(
            cc@,
            cut as int,
        ) == cc@.take(k as int),
{
    let n = cc.len();
    let mut total: u128 = 0;
    let goal: u128 = cut as u128;
    let mut k: usize = 0;
    while total < goal
        invariant
            n == cc@.len(),
            utf8_len(cc@) > max,
            cut <= max,
            goal == cut,
            k <= cc@.len(),
            total == utf8_len(cc@.take(k as int)),
            total < cut + 4,
            k == 0 ==> total == 0,
            k > 0 ==> utf8_len(cc@.take(k - 1)) < cut,
        decreases n - k,
    {
        proof {
            if k == cc@.len() {
                assert(cc@.take(k as int) == cc@);
            }
        }
        let w = width_of(cc[k]) as u128;
        assert(cc@.take(k + 1).drop_last() == cc@.take(k as int));
        total = total + w;
        k = k + 1;
    }
    proof {
        assert forall|j: int| 0 <= j <= cc@.len() && j != k implies utf8_len(#[trigger] cc@.take(j)) != total by {
            if j < k {
                lemma_utf8_len_strict(cc@, j, k as int);
            } else {
                lemma_utf8_len_strict(cc@, k as int, j);
            }
        }
        if total != cut {
            assert forall|j: int| 0 <= j <= cc@.len() implies utf8_len(#[trigger] cc@.take(j)) != cut by {
                if j < k {
                    if j < k - 1 {
                        lemma_utf8_len_strict(cc@, j, k - 1);
                    }
                    assert(cc@.take(k as int).drop_last() == cc@.take(k - 1));
                } else if j > k {
                    lemma_utf8_len_strict(cc@, k as int, j);
                }
            }
        } else {
            let c = choose|j: int| 0 <= j <= cc@.len() && utf8_len(#[trigger] cc@.take(j)) == cut;
            assert(c == k);
        }
    }
    if total == goal {
        Some(k)
    } else {
        None
    }
}

/// Whether a text can be shortened (see `cuts_cleanly_at`).
pub fn cuts_cleanly_within(content: &str, max: usize, cut: usize) -> (r: bool)
    requires
        cut <= max < usize::MAX,
    ensures
        r == cuts_cleanly_at(content@, max as int, cut as int),
{
    let cc = chars_of(content);
    if utf8_len_capped(&cc, max + 1) <= max {
        return true;
    }
    cut_point(&cc, max, cut).is_some()
}

/// Whether a marker's text can be cut to a title (see
/// `cuts_cleanly_at_title`).
pub fn cuts_cleanly(content: &str) -> (r: bool)
    ensures
        r == cuts_cleanly_at_title(content@),
{
    cuts_cleanly_within(content, 80, 77)
}

/// A text shortened for display (see `excerpt_of`).
pub fn excerpt(content: &str, max: usize, cut: usize) -> (r: String)
    requires
        cut <= max < usize::MAX,
        cuts_cleanly_at(content@, max as int, cut as int),
    ensures
        r@ == excerpt_of(content@, max as int, cut as int),
{
    let cc = chars_of(content);
    if utf8_len_capped(&cc, max + 1) <= max {
        return owned(content);
    }
    let k = match cut_point(&cc, max, cut) {
        Some(k) => k,
        None => {
            return owned(content);
        },
    };
    let mut r = string_of(&chars_upto(&cc, k));
    push_str(&mut r, "...");
    r
}

/// The title of a task made from a marker's text (see `task_title`).
fn title_of(content: &str) -> (r: String)
    requires
        cuts_cleanly_at_title(content@),
    ensures
        r@ == task_title(content@),
{
    excerpt(content, 80, 77)
}

/// The name of the task made from a finding: `[MARKER] title`.
pub open spec fn scan_task_name(f: FindingView) -> Seq<char> {
    "["@ + f.marker + "] "@ + task_title(f.content)
}

/// A path without its leading `./`.
pub open spec fn short_path(p: Seq<char>) -> Seq<char> {
    if is_prefix("./"@, p) {
        p.skip(2)
    } else {
        p
    }
}

/// A path without its leading `./`.
pub fn short_file(p: &str) -> (r: String)
    ensures
        r@ == short_path(p@),
{
    if starts_with(p, "./") {
        proof {
            reveal_strlit("./");
        }
        let cs = chars_of(p);
        string_of(&chars_from(&cs, 2))
    } else {
        owned(p)
    }
}

/// A task name and a marker's text match, whichever contains the other,
/// both lower-cased.
pub open spec fn name_matches(name: Seq<char>, content: Seq<char>) -> bool {
    contains_seq(spec_lowercase(name), spec_lowercase(content)) || contains_seq(
        spec_lowercase(content),
        spec_lowercase(name),
    )
}

/// Some task name matches the marker's text.
pub open spec fn known(names: Seq<Seq<char>>, content: Seq<char>) -> bool {
    exists|k: int| 0 <= k < names.len() && #[trigger] name_matches(names[k], content)
}

/// The names of the tasks of a phase.
pub open spec fn task_names(tasks: Seq<Task>) -> Seq<Seq<char>> {
    tasks.map_values(|t: Task| t.name@)
}

/// The task names after the first `n` findings have been taken: a finding
/// whose text a name already matches adds nothing; another adds its task.
pub open spec fn names_after(names0: Seq<Seq<char>>, fs: Seq<FindingView>, n: int) -> Seq<Seq<char>>
    decreases n,
{
    if n <= 0 {
        names0
    } else {
        let prev = names_after(names0, fs, n - 1);
        if known(prev, fs[n - 1].content) {
            prev
        } else {
            prev.push(scan_task_name(fs[n - 1]))
        }
    }
}

/// The positions, among the first `n` findings, of those that become tasks.
pub open spec fn picked_after(names0: Seq<Seq<char>>, fs: Seq<FindingView>, n: int) -> Seq<int>
    decreases n,
{
    if n <= 0 {
        Seq::empty()
    } else {
        picked_after(names0, fs, n - 1) + if known(names_after(names0, fs, n - 1), fs[n - 1].content) {
            Seq::empty()
        } else {
            seq![n - 1]
        }
    }
}

/// The number of top-level tasks (without a parent) among the first `n`.
pub open spec fn top_level_count(tasks: Seq<Task>, n: int) -> nat
    decreases n,
{
    if n <= 0 {
        0
    } else {
        top_level_count(tasks, n - 1) + if tasks[n - 1].parent is None {
            1nat
        } else {
            0nat
        }
    }
}

/// The task made from a finding, with the given id.
pub open spec fn is_scan_task(t: Task, f: FindingView, id: Seq<char>) -> bool {
    &&& t.id@ == id
    &&& t.name@ == scan_task_name(f)
    &&& t.description matches Some(d) && d@ == "Trouvé dans "@ + short_path(f.file) + ":"@ + decimal(
        f.line as nat,
    )
    &&& t.status@ == "pending"@
    &&& t.parent is None
    &&& t.workflow_stage is None
    &&& t.optional == (f.marker != "FIXME"@ && f.marker != "BUG"@)
    &&& t.completed_at is None
    &&& t.blocks@.len() == 0
    &&& t.blocked_by@.len() == 0
    &&& t.files@.len() == 1
    &&& t.files@[0]@ == short_path(f.file)
    &&& t.tags@.len() == 0
    &&& t.assignee is None
    &&& t.due is None
}

/// The number of top-level tasks.
fn count_top_level(tasks: &Vec<Task>) -> (r: usize)
    ensures
        r == top_level_count(tasks@, tasks@.len() as int),
        r <= tasks@.len(),
{
    let mut r: usize = 0;
    let mut i: usize = 0;
    while i < tasks.len()
        invariant
            i <= tasks@.len(),
            r == top_level_count(tasks@, i as int),
            r <= i,
        decreases tasks@.len() - i,
    {
        if tasks[i].parent.is_none() {
            r = r + 1;
        }
        i = i + 1;
    }
    r
}

/// Whether some task's name matches the marker's text.
fn known_among(tasks: &Vec<Task>, content: &str) -> (r: bool)
    ensures
        r == known(task_names(tasks@), content@),
{
    let lc = to_lowercase(content);
    let mut k: usize = 0;
    while k < tasks.len()
        invariant
            k <= tasks@.len(),
            lc@ == spec_lowercase(content@),
            forall|j: int| 0 <= j < k ==> !#[trigger] name_matches(task_names(tasks@)[j], content@),
        decreases tasks@.len() - k,
    {
        let ln = to_lowercase(tasks[k].name.as_str());
        assert(task_names(tasks@)[k as int] == tasks@[k as int].name@);
        if contains(ln.as_str(), lc.as_str()) || contains(lc.as_str(), ln.as_str()) {
            assert(name_matches(task_names(tasks@)[k as int], content@));
            return true;
        }
        k = k + 1;
    }
    false
}

/// The task made from a finding, with the given id (see `is_scan_task`).
fn scan_task(f: &Finding, id: String) -> (r: Task)
    requires
        cuts_cleanly_at_title(f.content@),
    ensures
        is_scan_task(r, f@, id@),
{
    let mut name = String::new();
    push_str(&mut name, "[");
    push_str(&mut name, f.marker.as_str());
    push_str(&mut name, "] ");
    let title = title_of(f.content.as_str());
    push_str(&mut name, title.as_str());
    let short = short_file(f.file.as_str());
    let mut description = String::new();
    push_str(&mut description, "Trouvé dans ");
    push_str(&mut description, short.as_str());
    push_str(&mut description, ":");
    push_decimal(&mut description, f.line as u64);
    let optional = !str_eq(f.marker.as_str(), "FIXME") && !str_eq(f.marker.as_str(), "BUG");
    let mut files: Vec<String> = Vec::new();
    files.push(short);
    Task {
        id,
        name,
        description: Some(description),
        status: owned("pending"),
        parent: None,
        workflow_stage: None,
        optional,
        completed_at: None,
        blocks: Vec::new(),
        blocked_by: Vec::new(),
        files,
        tags: Vec::new(),
        assignee: None,
        due: None,
    }
}

/// The positions of the findings that become tasks of the phase.
pub open spec fn scan_picks(p: Phase, findings: Seq<Finding>) -> Seq<int> {
    picked_after(task_names(p.tasks@), finding_views(findings), findings.len() as int)
}

/// Everything of the phase but its tasks and its date of change is as it was.
pub open spec fn same_but_tasks(a: Phase, b: Phase) -> bool {
    &&& a.id == b.id
    &&& a.name == b.name
    &&& a.description == b.description
    &&& a.priority == b.priority
    &&& a.status == b.status
    &&& a.parent == b.parent
    &&& a.created_at == b.created_at
    &&& a.workflow == b.workflow
    &&& a.depends_on == b.depends_on
    &&& a.notes == b.notes
}

/// The picks among the first `a` findings come first among the picks of the
/// first `b`.
pub proof fn lemma_picked_prefix(names0: Seq<Seq<char>>, fs: Seq<FindingView>, a: int, b: int)
    requires
        0 <= a <= b,
    ensures
        picked_after(names0, fs, a).len() <= picked_after(names0, fs, b).len(),
        forall|j: int| 0 <= j < picked_after(names0, fs, a).len() ==> #[trigger] picked_after(names0, fs, b)[j]
            == picked_after(names0, fs, a)[j],
    decreases b - a,
{
    if a < b {
        lemma_picked_prefix(names0, fs, a, b - 1);
    }
}

/// Every finding that becomes a task can be cut to a title.
pub open spec fn picks_cut_cleanly(p: Phase, findings: Seq<Finding>) -> bool {
    forall|j: int| 0 <= j < scan_picks(p, findings).len() ==> cuts_cleanly_at_title(
        #[trigger] findings[scan_picks(p, findings)[j]].content@,
    )
}

/// `roadmap scan --create --phase <id>`: adds to the phase one task per
/// finding whose text no task name matches yet (the tasks added before
/// count), numbered after the phase's top-level tasks by the finding's
/// position; the phase's date of change becomes `date` where a task was
/// added. Gives the number of tasks added; where a finding that would become
/// a task is too long and cannot be cut to a title on a character boundary,
/// gives the position of the first such finding instead.
pub fn create_scan_tasks(phase: &mut Phase, phase_id: &str, findings: &Vec<Finding>, date: String) -> (r: Result<usize, usize>)
    requires
        old(phase).tasks@.len() + findings@.len() < u64::MAX,
    ensures
        r is Ok <==> picks_cut_cleanly(*old(phase), findings@),
        r matches Err(i) ==> exists|j: int| {
            &&& 0 <= j < scan_picks(*old(phase), findings@).len()
            &&& scan_picks(*old(phase), findings@)[j] == i
            &&& !cuts_cleanly_at_title(findings@[i as int].content@)
            &&& forall|k: int| 0 <= k < j ==> cuts_cleanly_at_title(
                #[trigger] findings@[scan_picks(*old(phase), findings@)[k]].content@,
            )
        },
        r matches Ok(created) ==> {
            &&& created == scan_picks(*old(phase), findings@).len()
            &&& final(phase).tasks@.len() == old(phase).tasks@.len() + created
            &&& forall|k: int| 0 <= k < old(phase).tasks@.len() ==> final(phase).tasks@[k] == old(phase).tasks@[k]
            &&& forall|j: int| 0 <= j < created ==> is_scan_task(
                #[trigger] final(phase).tasks@[old(phase).tasks@.len() + j],
                findings@[scan_picks(*old(phase), findings@)[j]]@,
                task_id_of(
                    phase_id@,
                    (top_level_count(old(phase).tasks@, old(phase).tasks@.len() as int) + scan_picks(
                        *old(phase),
                        findings@,
                    )[j] + 1) as nat,
                ),
            )
            &&& task_names(final(phase).tasks@) == names_after(
                task_names(old(phase).tasks@),
                finding_views(findings@),
                findings@.len() as int,
            )
            &&& final(phase).updated_at == if created > 0 {
                date
            } else {
                old(phase).updated_at
            }
            &&& same_but_tasks(*final(phase), *old(phase))
        },
{
    let ghost p0 = *phase;
    let ghost names0 = task_names(p0.tasks@);
    let ghost fs = finding_views(findings@);
    let old_len = phase.tasks.len();
    let base = count_top_level(&phase.tasks);
    let mut created: usize = 0;
    let mut i: usize = 0;
    while i < findings.len()
        invariant
            p0.tasks@.len() + findings@.len() < u64::MAX,
            p0 == *old(phase),
            forall|j: int| 0 <= j < created ==> cuts_cleanly_at_title(
                #[trigger] findings@[picked_after(names0, fs, i as int)[j]].content@,
            ),
            names0 == task_names(p0.tasks@),
            fs == finding_views(findings@),
            old_len == p0.tasks@.len(),
            base == top_level_count(p0.tasks@, p0.tasks@.len() as int),
            base <= old_len,
            i <= findings@.len(),
            task_names(phase.tasks@) == names_after(names0, fs, i as int),
            created == picked_after(names0, fs, i as int).len(),
            created <= i,
            phase.tasks@.len() == old_len + created,
            forall|k: int| 0 <= k < old_len ==> phase.tasks@[k] == p0.tasks@[k],
            forall|j: int| 0 <= j < created ==> is_scan_task(
                #[trigger] phase.tasks@[old_len + j],
                findings@[picked_after(names0, fs, i as int)[j]]@,
                task_id_of(phase_id@, (base + picked_after(names0, fs, i as int)[j] + 1) as nat),
            ),
            forall|j: int| 0 <= j < created ==> 0 <= #[trigger] picked_after(names0, fs, i as int)[j] < i,
            phase.updated_at == p0.updated_at,
            same_but_tasks(*phase, p0),
        decreases findings@.len() - i,
    {
        let ghost prev = picked_after(names0, fs, i as int);
        let seen = known_among(&phase.tasks, findings[i].content.as_str());
        if !seen {
            proof {
                assert(picked_after(names0, fs, i + 1) == prev + seq![i as int]);
                lemma_picked_prefix(names0, fs, i + 1, findings@.len() as int);
                assert(scan_picks(p0, findings@)[created as int] == i);
            }
            if !cuts_cleanly(findings[i].content.as_str()) {
                proof {
                    let picks = scan_picks(p0, findings@);
                    assert forall|k: int| 0 <= k < created implies cuts_cleanly_at_title(
                        #[trigger] findings@[picks[k]].content@,
                    ) by {
                        assert(picks[k] == picked_after(names0, fs, i + 1)[k]);
                        assert(picked_after(names0, fs, i + 1)[k] == prev[k]);
                    }
                    assert(!cuts_cleanly_at_title(findings@[picks[created as int]].content@));
                    assert(!picks_cut_cleanly(p0, findings@));
                }
                return Err(i);
            }
            let id = crate::templates::make_task_id(phase_id, base as u64 + i as u64 + 1);
            let t = scan_task(&findings[i], id);
            let ghost before = phase.tasks@;
            phase.tasks.push(t);
            proof {
                assert(task_names(phase.tasks@) =~= task_names(before).push(t.name@));
                assert(picked_after(names0, fs, i + 1) == prev + seq![i as int]);
                assert(findings@[i as int]@ == fs[i as int]);
            }
            created = created + 1;
        } else {
            proof {
                assert(picked_after(names0, fs, i + 1) == prev);
            }
        }
        i = i + 1;
    }
    if created > 0 {
        phase.updated_at = date;
    }
    assert(findings@.take(findings@.len() as int) == findings@);
    Ok(created)
}

/// The distinct markers among the first `n` findings, in the order in which
/// they first appear.
pub open spec fn markers_seen(fs: Seq<FindingView>, n: int) -> Seq<Seq<char>>
    decreases n,
{
    if n <= 0 {
        Seq::empty()
    } else {
        let prev = markers_seen(fs, n - 1);
        if prev.contains(fs[n - 1].marker) {
            prev
        } else {
            prev.push(fs[n - 1].marker)
        }
    }
}

/// The positions, among the first `n` findings, of those with the marker.
pub open spec fn with_marker(fs: Seq<FindingView>, marker: Seq<char>, n: int) -> Seq<int>
    decreases n,
{
    if n <= 0 {
        Seq::empty()
    } else {
        with_marker(fs, marker, n - 1) + if fs[n - 1].marker == marker {
            seq![n - 1]
        } else {
            Seq::empty()
        }
    }
}

/// The findings grouped by marker: each distinct marker in the order in
/// which it first appears, with the positions of its findings in order.
pub fn group_by_marker(findings: &Vec<Finding>) -> (r: Vec<(String, Vec<usize>)>)
    ensures
        r@.len() == markers_seen(finding_views(findings@), findings@.len() as int).len(),
        forall|g: int| 0 <= g < r@.len() ==> {
            &&& (#[trigger] r@[g]).0@ == markers_seen(finding_views(findings@), findings@.len() as int)[g]
            &&& r@[g].1@.map_values(|i: usize| i as int) == with_marker(
                finding_views(findings@),
                r@[g].0@,
                findings@.len() as int,
            )
        },
{
    let ghost fs = finding_views(findings@);
    let mut markers: Vec<String> = Vec::new();
    let mut i: usize = 0;
    while i < findings.len()
        invariant
            fs == finding_views(findings@),
            i <= findings@.len(),
            markers@.map_values(|m: String| m@) == markers_seen(fs, i as int),
        decreases findings@.len() - i,
    {
        let m = &findings[i].marker;
        let mut seen = false;
        let mut k: usize = 0;
        while k < markers.len()
            invariant
                k <= markers@.len(),
                seen == exists|j: int| 0 <= j < k && (#[trigger] markers@[j])@ == m@,
            decreases markers@.len() - k,
        {
            if str_eq(markers[k].as_str(), m.as_str()) {
                seen = true;
            }
            k = k + 1;
        }
        proof {
            let names = markers@.map_values(|x: String| x@);
            assert(fs[i as int].marker == m@);
            if seen {
                let j = choose|j: int| 0 <= j < k && (#[trigger] markers@[j])@ == m@;
                assert(names[j] == m@);
            } else {
                assert forall|j: int| 0 <= j < names.len() implies names[j] != m@ by {
                    assert(markers@[j]@ != m@);
                }
            }
            assert(seen == names.contains(m@));
        }
        if !seen {
            let ghost before = markers@;
            markers.push(m.clone());
            assert(markers@.map_values(|x: String| x@) =~= before.map_values(|x: String| x@).push(m@));
        }
        i = i + 1;
    }
    let mut groups: Vec<(String, Vec<usize>)> = Vec::new();
    let mut g: usize = 0;
    while g < markers.len()
        invariant
            fs == finding_views(findings@),
            markers@.map_values(|m: String| m@) == markers_seen(fs, findings@.len() as int),
            g <= markers@.len(),
            groups@.len() == g,
            forall|h: int| 0 <= h < g ==> {
                &&& (#[trigger] groups@[h]).0@ == markers@[h]@
                &&& groups@[h].1@.map_values(|i: usize| i as int) == with_marker(
                    fs,
                    groups@[h].0@,
                    findings@.len() as int,
                )
            },
        decreases markers@.len() - g,
    {
        let mut idx: Vec<usize> = Vec::new();
        let mut i: usize = 0;
        while i < findings.len()
            invariant
                fs == finding_views(findings@),
                g < markers@.len(),
                i <= findings@.len(),
                idx@.map_values(|x: usize| x as int) == with_marker(fs, markers@[g as int]@, i as int),
            decreases findings@.len() - i,
        {
            if str_eq(findings[i].marker.as_str(), markers[g].as_str()) {
                let ghost before = idx@;
                idx.push(i);
                assert(idx@.map_values(|x: usize| x as int) =~= before.map_values(|x: usize| x as int).push(
                    i as int,
                ));
            }
            i = i + 1;
        }
        let name = markers[g].clone();
        groups.push((name, idx));
        g = g + 1;
    }
    proof {
        assert forall|h: int| 0 <= h < groups@.len() implies (#[trigger] groups@[h]).0@ == markers_seen(
            fs,
            findings@.len() as int,
        )[h] by {
            assert(markers@.map_values(|m: String| m@)[h] == markers@[h]@);
        }
    }
    groups
}

} // verus!
