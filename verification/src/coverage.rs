//! API coverage (`roadmap coverage`): the routes that a backend defines, the
//! calls that a frontend (and, in a three-layer setup, a BFF) makes, and
//! which of them lack a counterpart on the other side.
//!
//! Routes and calls are found line by line with regular expressions; the
//! files are read by the caller and handed over as lines.

use vstd::prelude::*;
use crate::matching::{
    regex_compiles, regex_replace_all, regex_captures_all, regex_valid, replace_all, captures_all,
};
use crate::text::{
    occurs_at, is_prefix, is_suffix, contains_seq, first_occurrence, chars_of, string_of, owned, find_first,
    chars_from, chars_upto, chars_starts_with, chars_ends_with, chars_eq, spec_uppercase,
    to_uppercase, push_str,
};

verus! {

/// The pattern of a path parameter written `/:name`.
pub const COLON_PARAM: &'static str = r"/:([a-zA-Z_][a-zA-Z0-9_]*)";

/// The pattern of a path parameter written `/[name]`.
pub const BRACKET_PARAM: &'static str = r"/\[([a-zA-Z_][a-zA-Z0-9_]*)\]";

/// The pattern of a path parameter written `/{name}`.
pub const BRACE_PARAM: &'static str = r"/\{([a-zA-Z_][a-zA-Z0-9_]*)\}";

/// What every path parameter becomes.
pub const PARAM: &'static str = "/:param";

/// The pattern of an exported HTTP handler of a Next.js route file.
pub const NEXT_HANDLER: &'static str = r"export\s+(?:async\s+)?function\s+(GET|POST|PUT|PATCH|DELETE|HEAD|OPTIONS)";

/// A source file, read by the caller: its path and its lines.
pub struct SourceFile {
    pub path: String,
    pub lines: Vec<String>,
}

/// A route defined, or a call made, at a line of a source file.
pub struct ApiEndpoint {
    pub method: String,
    pub path: String,
    pub file: String,
    pub line: usize,
}

/// The model of an endpoint.
pub struct EndpointView {
    pub method: Seq<char>,
    pub path: Seq<char>,
    pub file: Seq<char>,
    pub line: int,
}

impl View for ApiEndpoint {
    type V = EndpointView;

    open spec fn view(&self) -> EndpointView {
        EndpointView { method: self.method@, path: self.path@, file: self.file@, line: self.line as int }
    }
}

/// The models of a list of endpoints.
pub open spec fn views(s: Seq<ApiEndpoint>) -> Seq<EndpointView> {
    s.map_values(|e: ApiEndpoint| e@)
}

/// The key by which routes and calls are matched: `METHOD path`.
pub open spec fn endpoint_key(e: EndpointView) -> Seq<char> {
    e.method + " "@ + e.path
}

/// The pattern given to `glob`: absolute and explicitly relative patterns as
/// they are, others under `./`.
pub open spec fn glob_pattern_of(pattern: Seq<char>) -> Seq<char> {
    if is_prefix("/"@, pattern) || is_prefix("."@, pattern) {
        pattern
    } else {
        "./"@ + pattern
    }
}

/// The pattern given to `glob` for a pattern of the command line.
pub fn glob_pattern(pattern: &str) -> (r: String)
    ensures
        r@ == glob_pattern_of(pattern@),
{
    let cs = chars_of(pattern);
    proof {
        reveal_strlit("/");
        reveal_strlit(".");
        assert("/"@ =~= seq!['/']);
        assert("."@ =~= seq!['.']);
        if cs@.len() > 0 {
            assert(pattern@.take(1) =~= seq![cs@[0]]);
        }
    }
    if cs.len() > 0 && (cs[0] == '/' || cs[0] == '.') {
        owned(pattern)
    } else {
        proof {
            if cs@.len() > 0 {
                assert(pattern@.take(1)[0] != '/');
                assert(pattern@.take(1)[0] != '.');
            }
        }
        let mut s = String::new();
        push_str(&mut s, "./");
        push_str(&mut s, pattern);
        s
    }
}

/// A path without its query string (what precedes the first `?`).
pub open spec fn before_query(p: Seq<char>) -> Seq<char>
    decreases p.len(),
{
    if p.len() == 0 {
        p
    } else if p[0] == '?' {
        Seq::empty()
    } else {
        seq![p[0]] + before_query(p.drop_first())
    }
}

/// The parameter patterns compile.
pub open spec fn params_compile() -> bool {
    &&& regex_compiles(COLON_PARAM@)
    &&& regex_compiles(BRACKET_PARAM@)
    &&& regex_compiles(BRACE_PARAM@)
}

/// A path with its query string dropped and each parameter, whether written
/// `/:id`, `/[id]` or `/{id}`, turned into `/:param`.
pub open spec fn normalized(p: Seq<char>) -> Seq<char> {
    let a = regex_replace_all(COLON_PARAM@, before_query(p), PARAM@);
    let b = regex_replace_all(BRACKET_PARAM@, a, PARAM@);
    regex_replace_all(BRACE_PARAM@, b, PARAM@)
}

/// The characters before the first `?`.
fn query_cut(cs: &Vec<char>) -> (r: Vec<char>)
    ensures
        r@ == before_query(cs@),
{
    let mut k: usize = 0;
    assert(cs@.skip(0) =~= cs@);
    assert(cs@.take(0) =~= Seq::<char>::empty());
    while k < cs.len() && cs[k] != '?'
        invariant
            k <= cs@.len(),
            forall|j: int| 0 <= j < k ==> cs@[j] != '?',
            before_query(cs@) == cs@.take(k as int) + before_query(cs@.skip(k as int)),
        decreases cs@.len() - k,
    {
        proof {
            let rest = cs@.skip(k as int);
            assert(rest.drop_first() == cs@.skip(k + 1));
            assert(cs@.take(k + 1) == cs@.take(k as int) + seq![rest[0]]);
        }
        k = k + 1;
    }
    proof {
        let rest = cs@.skip(k as int);
        if k < cs@.len() {
            assert(rest[0] == '?');
        } else {
            assert(rest.len() == 0);
        }
    }
    chars_upto(cs, k)
}

/// A path normalised for matching routes with calls.
pub fn normalize_path(path: &str) -> (r: String)
    requires
        params_compile(),
    ensures
        r@ == normalized(path@),
{
    let cs = chars_of(path);
    let cut = string_of(&query_cut(&cs));
    let a = match replace_all(COLON_PARAM, cut.as_str(), PARAM) {
        Some(s) => s,
        None => {
            return String::new();
        },
    };
    let b = match replace_all(BRACKET_PARAM, a.as_str(), PARAM) {
        Some(s) => s,
        None => {
            return String::new();
        },
    };
    match replace_all(BRACE_PARAM, b.as_str(), PARAM) {
        Some(s) => s,
        None => String::new(),
    }
}

/// `s` without the suffix `suf`, where it ends with it.
pub open spec fn without_suffix(s: Seq<char>, suf: Seq<char>) -> Option<Seq<char>> {
    if is_suffix(suf, s) {
        Some(s.take(s.len() - suf.len()))
    } else {
        None
    }
}

/// The route that a Next.js App Router file defines: from `/api/` on, without
/// the trailing `/route.ts` (or `.tsx`, `.js`, `.jsx`), normalised; `None`
/// for a file outside `/api/` or not named so.
pub open spec fn nextjs_route(file_path: Seq<char>) -> Option<Seq<char>> {
    if !contains_seq(file_path, "/api/"@) {
        None
    } else {
        let part = file_path.skip(first_occurrence(file_path, "/api/"@));
        let stripped = if without_suffix(part, "/route.ts"@) is Some {
            without_suffix(part, "/route.ts"@)
        } else if without_suffix(part, "/route.tsx"@) is Some {
            without_suffix(part, "/route.tsx"@)
        } else if without_suffix(part, "/route.js"@) is Some {
            without_suffix(part, "/route.js"@)
        } else {
            without_suffix(part, "/route.jsx"@)
        };
        match stripped {
            Some(route) => Some(normalized(route)),
            None => None,
        }
    }
}

/// `cs` without the suffix `suf`, where it ends with it.
fn strip_suffix_chars(cs: &Vec<char>, suf: &str) -> (r: Option<Vec<char>>)
    ensures
        r is Some <==> without_suffix(cs@, suf@) is Some,
        r matches Some(v) ==> without_suffix(cs@, suf@) == Some(v@),
{
    let sv = chars_of(suf);
    if chars_ends_with(cs, &sv) {
        Some(chars_upto(cs, cs.len() - sv.len()))
    } else {
        None
    }
}

/// The route path of a Next.js App Router file, e.g.
/// `src/app/api/users/[id]/route.ts` gives `/api/users/:param`.
pub fn extract_nextjs_route_path(file_path: &str) -> (r: Option<String>)
    requires
        params_compile(),
    ensures
        r is Some <==> nextjs_route(file_path@) is Some,
        r matches Some(s) ==> nextjs_route(file_path@) == Some(s@),
{
    let cs = chars_of(file_path);
    let api = chars_of("/api/");
    let start = match find_first(&cs, &api) {
        Some(i) => i,
        None => {
            return None;
        },
    };
    let part = chars_from(&cs, start);
    let stripped = match strip_suffix_chars(&part, "/route.ts") {
        Some(v) => v,
        None => match strip_suffix_chars(&part, "/route.tsx") {
            Some(v) => v,
            None => match strip_suffix_chars(&part, "/route.js") {
                Some(v) => v,
                None => match strip_suffix_chars(&part, "/route.jsx") {
                    Some(v) => v,
                    None => {
                        return None;
                    },
                },
            },
        },
    };
    let route = string_of(&stripped);
    Some(normalize_path(route.as_str()))
}


/// Which side of the code a scan reads.
pub enum ScanKind {
    /// Calls made by a frontend.
    Frontend,
    /// Routes defined by a backend.
    Backend,
    /// Calls made by a BFF layer to the backend.
    Bff,
}

/// How many patterns a kind of scan tries on each line.
pub open spec fn pattern_count(kind: ScanKind) -> int {
    match kind {
        ScanKind::Frontend => 7,
        ScanKind::Backend => 11,
        ScanKind::Bff => 5,
    }
}

/// The patterns tried on each line, in order.
pub open spec fn scan_pattern(kind: ScanKind, k: int) -> Seq<char> {
    match kind {
        ScanKind::Frontend => {
            if k == 0 {
                r#"fetch\s*\(\s*['"`]([^'"`]+)['"`]"#@
            } else if k == 1 {
                r#"fetch\s*\(\s*`[^`]*(/api/[^`]+)`"#@
            } else if k == 2 {
                r#"axios\.(get|post|put|patch|delete|head|options)\s*\(\s*['"`]([^'"`]+)['"`]"#@
            } else if k == 3 {
                r#"axios\s*\(\s*\{[^}]*url:\s*['"`]([^'"`]+)['"`][^}]*method:\s*['"`](\w+)['"`]"#@
            } else if k == 4 {
                r#"\$http\.(get|post|put|patch|delete)\s*\(\s*['"`]([^'"`]+)['"`]"#@
            } else if k == 5 {
                r#"['"`](/api/[a-zA-Z0-9_/\-:]+)['"`]"#@
            } else {
                r#"ky\.(get|post|put|patch|delete)\s*\(\s*['"`]([^'"`]+)['"`]"#@
            }
        },
        ScanKind::Backend => {
            if k == 0 {
                r#"(?:app|router|server)\.(get|post|put|patch|delete|head|options)\s*\(\s*['"`]([^'"`]+)['"`]"#@
            } else if k == 1 {
                r#"fastify\.(get|post|put|patch|delete|head|options)\s*\(\s*['"`]([^'"`]+)['"`]"#@
            } else if k == 2 {
                r#"@(Get|Post|Put|Patch|Delete|Head|Options)\s*\(\s*['"`]([^'"`]*)['"`]\s*\)"#@
            } else if k == 3 {
                r#"\.(?:get|post|put|patch|delete|head|options)\s*\(\s*['"`]([^'"`]+)['"`]"#@
            } else if k == 4 {
                r#"@(?:app|router|blueprint)\.(route|get|post|put|patch|delete)\s*\(\s*['"]([^'"]+)['"]\s*(?:,|\))"#@
            } else if k == 5 {
                r#"(?:r|router|mux|e|app)\.(GET|POST|PUT|PATCH|DELETE|Get|Post|Put|Patch|Delete)\s*\(\s*"([^"]+)""#@
            } else if k == 6 {
                r#"\.route\s*\(\s*"([^"]+)"\s*,\s*(get|post|put|patch|delete|head|options)"#@
            } else if k == 7 {
                r#"\.route\s*\(\s*"([^"]+)"\s*,\s*(?:get|post|put|patch|delete)\s*\(\s*\w+\s*\)\s*\.(get|post|put|patch|delete)"#@
            } else if k == 8 {
                r#"\.route\s*\(\s*"([^"]+)"\s*,\s*web::(get|post|put|patch|delete)\s*\(\s*\)"#@
            } else if k == 9 {
                r#"web::resource\s*\(\s*"([^"]+)"\s*\).*web::(get|post|put|patch|delete)"#@
            } else {
                r#"\.service\s*\(\s*web::resource\s*\(\s*"([^"]+)"\s*\)"#@
            }
        },
        ScanKind::Bff => {
            if k == 0 {
                r#"fetch\s*\(\s*['"`]([^'"`]+)['"`]"#@
            } else if k == 1 {
                r#"fetch\s*\(\s*`([^`]+)`"#@
            } else if k == 2 {
                r#"axios\.(get|post|put|patch|delete|head|options)\s*\(\s*['"`]([^'"`]+)['"`]"#@
            } else if k == 3 {
                r#"['"`](https?://[^'"`]+/api/[^'"`]+)['"`]"#@
            } else {
                r#"\$\{?(?:process\.env\.)?(?:BACKEND_URL|API_URL|INTERNAL_API)[^}]*\}?[`]?(/[a-zA-Z0-9_/\-:]+)"#@
            }
        },
    }
}

/// Whether a pattern gives the path in its first group and the method in
/// its second (the Rust frameworks' `.route("/path", get(..))`).
pub open spec fn path_first(kind: ScanKind, k: int) -> bool {
    kind is Backend && k >= 6
}

/// The pattern of a kind of scan at position `k`.
fn pattern_at(kind: &ScanKind, k: usize) -> (r: &'static str)
    requires
        k < pattern_count(*kind),
    ensures
        r@ == scan_pattern(*kind, k as int),
{
    match kind {
        ScanKind::Frontend => {
            if k == 0 {
                r#"fetch\s*\(\s*['"`]([^'"`]+)['"`]"#
            } else if k == 1 {
                r#"fetch\s*\(\s*`[^`]*(/api/[^`]+)`"#
            } else if k == 2 {
                r#"axios\.(get|post|put|patch|delete|head|options)\s*\(\s*['"`]([^'"`]+)['"`]"#
            } else if k == 3 {
                r#"axios\s*\(\s*\{[^}]*url:\s*['"`]([^'"`]+)['"`][^}]*method:\s*['"`](\w+)['"`]"#
            } else if k == 4 {
                r#"\$http\.(get|post|put|patch|delete)\s*\(\s*['"`]([^'"`]+)['"`]"#
            } else if k == 5 {
                r#"['"`](/api/[a-zA-Z0-9_/\-:]+)['"`]"#
            } else {
                r#"ky\.(get|post|put|patch|delete)\s*\(\s*['"`]([^'"`]+)['"`]"#
            }
        },
        ScanKind::Backend => {
            if k == 0 {
                r#"(?:app|router|server)\.(get|post|put|patch|delete|head|options)\s*\(\s*['"`]([^'"`]+)['"`]"#
            } else if k == 1 {
                r#"fastify\.(get|post|put|patch|delete|head|options)\s*\(\s*['"`]([^'"`]+)['"`]"#
            } else if k == 2 {
                r#"@(Get|Post|Put|Patch|Delete|Head|Options)\s*\(\s*['"`]([^'"`]*)['"`]\s*\)"#
            } else if k == 3 {
                r#"\.(?:get|post|put|patch|delete|head|options)\s*\(\s*['"`]([^'"`]+)['"`]"#
            } else if k == 4 {
                r#"@(?:app|router|blueprint)\.(route|get|post|put|patch|delete)\s*\(\s*['"]([^'"]+)['"]\s*(?:,|\))"#
            } else if k == 5 {
                r#"(?:r|router|mux|e|app)\.(GET|POST|PUT|PATCH|DELETE|Get|Post|Put|Patch|Delete)\s*\(\s*"([^"]+)""#
            } else if k == 6 {
                r#"\.route\s*\(\s*"([^"]+)"\s*,\s*(get|post|put|patch|delete|head|options)"#
            } else if k == 7 {
                r#"\.route\s*\(\s*"([^"]+)"\s*,\s*(?:get|post|put|patch|delete)\s*\(\s*\w+\s*\)\s*\.(get|post|put|patch|delete)"#
            } else if k == 8 {
                r#"\.route\s*\(\s*"([^"]+)"\s*,\s*web::(get|post|put|patch|delete)\s*\(\s*\)"#
            } else if k == 9 {
                r#"web::resource\s*\(\s*"([^"]+)"\s*\).*web::(get|post|put|patch|delete)"#
            } else {
                r#"\.service\s*\(\s*web::resource\s*\(\s*"([^"]+)"\s*\)"#
            }
        },
        ScanKind::Bff => {
            if k == 0 {
                r#"fetch\s*\(\s*['"`]([^'"`]+)['"`]"#
            } else if k == 1 {
                r#"fetch\s*\(\s*`([^`]+)`"#
            } else if k == 2 {
                r#"axios\.(get|post|put|patch|delete|head|options)\s*\(\s*['"`]([^'"`]+)['"`]"#
            } else if k == 3 {
                r#"['"`](https?://[^'"`]+/api/[^'"`]+)['"`]"#
            } else {
                r#"\$\{?(?:process\.env\.)?(?:BACKEND_URL|API_URL|INTERNAL_API)[^}]*\}?[`]?(/[a-zA-Z0-9_/\-:]+)"#
            }
        },
    }
}

/// Every pattern that the coverage scan uses compiles.
pub open spec fn patterns_compile() -> bool {
    &&& params_compile()
    &&& regex_compiles(NEXT_HANDLER@)
    &&& forall|k: int| 0 <= k < 7 ==> regex_compiles(#[trigger] scan_pattern(ScanKind::Frontend, k))
    &&& forall|k: int| 0 <= k < 11 ==> regex_compiles(#[trigger] scan_pattern(ScanKind::Backend, k))
    &&& forall|k: int| 0 <= k < 5 ==> regex_compiles(#[trigger] scan_pattern(ScanKind::Bff, k))
}

/// Whether every pattern of a kind of scan compiles.
fn kind_patterns_valid(kind: &ScanKind) -> (r: bool)
    ensures
        r == forall|k: int| 0 <= k < pattern_count(*kind) ==> regex_compiles(#[trigger] scan_pattern(*kind, k)),
{
    let n: usize = match kind {
        ScanKind::Frontend => 7,
        ScanKind::Backend => 11,
        ScanKind::Bff => 5,
    };
    let mut k: usize = 0;
    while k < n
        invariant
            n == pattern_count(*kind),
            k <= n,
            forall|j: int| 0 <= j < k ==> regex_compiles(#[trigger] scan_pattern(*kind, j)),
        decreases n - k,
    {
        if !regex_valid(pattern_at(kind, k)) {
            return false;
        }
        k = k + 1;
    }
    true
}

/// Whether every pattern that the coverage scan uses compiles.
pub fn coverage_patterns_valid() -> (r: bool)
    ensures
        r == patterns_compile(),
{
    let f = kind_patterns_valid(&ScanKind::Frontend);
    let b = kind_patterns_valid(&ScanKind::Backend);
    let x = kind_patterns_valid(&ScanKind::Bff);
    regex_valid(COLON_PARAM) && regex_valid(BRACKET_PARAM) && regex_valid(BRACE_PARAM) && regex_valid(NEXT_HANDLER) && f && b && x
}

/// Group `i` of a match, `None` where the pattern has no such group.
pub open spec fn group(c: Seq<Option<Seq<char>>>, i: int) -> Option<Seq<char>> {
    if 0 <= i < c.len() {
        c[i]
    } else {
        None
    }
}

/// The text of a group, empty where it took no part.
pub open spec fn text_or_empty(g: Option<Seq<char>>) -> Seq<char> {
    match g {
        Some(t) => t,
        None => Seq::empty(),
    }
}

/// The method and the path, before normalisation, that a match gives: with
/// two groups, the method (upper-cased; `GET` where it took no part) and the
/// path, in the order of the pattern; with one group, `GET` and that group.
pub open spec fn raw_pair(kind: ScanKind, k: int, c: Seq<Option<Seq<char>>>) -> Option<(Seq<char>, Seq<char>)> {
    if c.len() == 3 {
        if path_first(kind, k) {
            Some(
                (
                    match group(c, 2) {
                        Some(m) => spec_uppercase(m),
                        None => "GET"@,
                    },
                    text_or_empty(group(c, 1)),
                ),
            )
        } else if kind is Backend {
            Some(
                (
                    match group(c, 1) {
                        Some(m) => spec_uppercase(m),
                        None => Seq::empty(),
                    },
                    text_or_empty(group(c, 2)),
                ),
            )
        } else {
            Some(
                (
                    match group(c, 1) {
                        Some(m) => spec_uppercase(m),
                        None => "GET"@,
                    },
                    text_or_empty(group(c, 2)),
                ),
            )
        }
    } else if c.len() == 2 {
        Some(("GET"@, text_or_empty(group(c, 1))))
    } else {
        None
    }
}

/// The path of a URL after its host: from the first `/` after `://`.
pub open spec fn after_host(url: Seq<char>) -> Option<Seq<char>> {
    if contains_seq(url, "://"@) {
        let after = url.skip(first_occurrence(url, "://"@) + 3);
        if contains_seq(after, "/"@) {
            Some(after.skip(first_occurrence(after, "/"@)))
        } else {
            None
        }
    } else {
        None
    }
}

/// The path that a BFF call targets: a full URL gives its part from `/api/`
/// on, or else its part from the first `/` after `://`; a URL with neither is
/// dropped. Other paths stay as they are.
pub open spec fn bff_path(path: Seq<char>) -> Option<Seq<char>> {
    if is_prefix("http"@, path) {
        if contains_seq(path, "/api/"@) {
            Some(path.skip(first_occurrence(path, "/api/"@)))
        } else {
            after_host(path)
        }
    } else {
        Some(path)
    }
}

/// Whether a path found by a scan is kept.
pub open spec fn path_kept(kind: ScanKind, path: Seq<char>, prefix: Seq<char>) -> bool {
    match kind {
        ScanKind::Frontend => is_prefix(prefix, path),
        ScanKind::Backend => is_prefix(prefix, path) || prefix == "/"@ || is_prefix("/"@, path),
        ScanKind::Bff => is_prefix(prefix, path) || is_prefix("/api/"@, path),
    }
}

/// The endpoint that a match of pattern `k` gives at a line, if any.
pub open spec fn capture_endpoint(
    kind: ScanKind,
    k: int,
    c: Seq<Option<Seq<char>>>,
    prefix: Seq<char>,
    file: Seq<char>,
    line: int,
) -> Option<EndpointView> {
    match raw_pair(kind, k, c) {
        None => None,
        Some(pair) => {
            let found = if kind is Bff {
                bff_path(pair.1)
            } else {
                Some(pair.1)
            };
            match found {
                None => None,
                Some(path) => if path_kept(kind, path, prefix) {
                    Some(
                        EndpointView {
                            method: spec_uppercase(pair.0),
                            path: normalized(path),
                            file,
                            line,
                        },
                    )
                } else {
                    None
                },
            }
        },
    }
}

/// The endpoints that the first `n` matches of pattern `k` give at a line.
pub open spec fn captures_endpoints(
    kind: ScanKind,
    k: int,
    caps: Seq<Seq<Option<Seq<char>>>>,
    prefix: Seq<char>,
    file: Seq<char>,
    line: int,
    n: int,
) -> Seq<EndpointView>
    decreases n,
{
    if n <= 0 {
        Seq::empty()
    } else {
        captures_endpoints(kind, k, caps, prefix, file, line, n - 1) + match capture_endpoint(
            kind,
            k,
            caps[n - 1],
            prefix,
            file,
            line,
        ) {
            Some(e) => seq![e],
            None => Seq::empty(),
        }
    }
}

/// The endpoints that the first `k` patterns give at a line.
pub open spec fn line_endpoints(
    kind: ScanKind,
    text: Seq<char>,
    prefix: Seq<char>,
    file: Seq<char>,
    line: int,
    k: int,
) -> Seq<EndpointView>
    decreases k,
{
    if k <= 0 {
        Seq::empty()
    } else {
        let caps = regex_captures_all(scan_pattern(kind, k - 1), text);
        line_endpoints(kind, text, prefix, file, line, k - 1) + captures_endpoints(
            kind,
            k - 1,
            caps,
            prefix,
            file,
            line,
            caps.len() as int,
        )
    }
}

/// The endpoints of the first `n` lines of a file (lines count from 1).
pub open spec fn file_endpoints(
    kind: ScanKind,
    lines: Seq<Seq<char>>,
    prefix: Seq<char>,
    file: Seq<char>,
    n: int,
) -> Seq<EndpointView>
    decreases n,
{
    if n <= 0 {
        Seq::empty()
    } else {
        file_endpoints(kind, lines, prefix, file, n - 1) + line_endpoints(
            kind,
            lines[n - 1],
            prefix,
            file,
            n,
            pattern_count(kind),
        )
    }
}

/// The endpoints of the first `n` files.
pub open spec fn files_endpoints(kind: ScanKind, files: Seq<SourceFile>, prefix: Seq<char>, n: int) -> Seq<
    EndpointView,
>
    decreases n,
{
    if n <= 0 {
        Seq::empty()
    } else {
        let f = files[n - 1];
        files_endpoints(kind, files, prefix, n - 1) + file_endpoints(
            kind,
            f.lines.deep_view(),
            prefix,
            f.path@,
            f.lines@.len() as int,
        )
    }
}

/// The models of a list grow by the model of what is pushed.
proof fn lemma_views_push(s: Seq<ApiEndpoint>, e: ApiEndpoint)
    ensures
        views(s.push(e)) == views(s).push(e@),
{
    assert(views(s.push(e)) =~= views(s).push(e@));
}

/// A copy of group `i` of a match.
fn group_at(c: &Vec<Option<String>>, i: usize) -> (r: Option<String>)
    ensures
        r.deep_view() == group(c.deep_view(), i as int),
{
    if i < c.len() {
        match &c[i] {
            Some(t) => Some(t.clone()),
            None => None,
        }
    } else {
        None
    }
}

/// The upper-cased text of a group, or `dflt` where it took no part.
fn upper_or(g: Option<String>, dflt: &str) -> (r: String)
    ensures
        r@ == match g.deep_view() {
            Some(m) => spec_uppercase(m),
            None => dflt@,
        },
{
    match g {
        Some(t) => to_uppercase(t.as_str()),
        None => owned(dflt),
    }
}

/// The text of a group, or the empty string.
fn text_of(g: Option<String>) -> (r: String)
    ensures
        r@ == text_or_empty(g.deep_view()),
{
    match g {
        Some(t) => t,
        None => String::new(),
    }
}

/// The method and raw path that a match of pattern `k` gives.
pub fn raw_pair_of(kind: &ScanKind, k: usize, c: &Vec<Option<String>>) -> (r: Option<(String, String)>)
    ensures
        r is Some <==> raw_pair(*kind, k as int, c.deep_view()) is Some,
        r matches Some(p) ==> raw_pair(*kind, k as int, c.deep_view()) == Some((p.0@, p.1@)),
{
    let n = c.len();
    if n == 3 {
        let g1 = group_at(c, 1);
        let g2 = group_at(c, 2);
        let backend = match kind {
            ScanKind::Backend => true,
            _ => false,
        };
        if backend && k >= 6 {
            Some((upper_or(g2, "GET"), text_of(g1)))
        } else if backend {
            proof {
                reveal_strlit("");
                assert(""@ =~= Seq::<char>::empty());
            }
            Some((upper_or(g1, ""), text_of(g2)))
        } else {
            Some((upper_or(g1, "GET"), text_of(g2)))
        }
    } else if n == 2 {
        let g1 = group_at(c, 1);
        Some((owned("GET"), text_of(g1)))
    } else {
        None
    }
}

/// The path of a URL after its host (see `after_host`).
fn after_host_of(url: &Vec<char>) -> (r: Option<Vec<char>>)
    ensures
        r is Some <==> after_host(url@) is Some,
        r matches Some(v) ==> after_host(url@) == Some(v@),
{
    let proto = chars_of("://");
    let ulen = url.len();
    match find_first(url, &proto) {
        Some(i) => {
            proof {
                reveal_strlit("://");
                assert(proto@.len() == 3);
                assert(occurs_at(url@, proto@, i as int));
                assert(i + 3 <= ulen);
            }
            let after = chars_from(url, i + 3);
            let ghost a = url@.skip(first_occurrence(url@, "://"@) + 3);
            assert(after@ == a);
            let slash = chars_of("/");
            let r = match find_first(&after, &slash) {
                Some(j) => Some(chars_from(&after, j)),
                None => None,
            };
            assert(contains_seq(url@, "://"@));
            assert(after_host(url@) == if contains_seq(a, "/"@) {
                Some(a.skip(first_occurrence(a, "/"@)))
            } else {
                None
            });
            r
        },
        None => None,
    }
}

/// The path that a BFF call targets (see `bff_path`).
pub fn bff_path_of(path: &Vec<char>) -> (r: Option<Vec<char>>)
    ensures
        r is Some <==> bff_path(path@) is Some,
        r matches Some(v) ==> bff_path(path@) == Some(v@),
{
    let http = chars_of("http");
    if !chars_starts_with(path, &http) {
        assert(path@.skip(0) =~= path@);
        return Some(chars_from(path, 0));
    }
    let api = chars_of("/api/");
    match find_first(path, &api) {
        Some(i) => Some(chars_from(path, i)),
        None => after_host_of(path),
    }
}

/// Whether a path found by a scan is kept (see `path_kept`).
pub fn path_kept_by(kind: &ScanKind, path: &Vec<char>, prefix: &Vec<char>) -> (r: bool)
    ensures
        r == path_kept(*kind, path@, prefix@),
{
    match kind {
        ScanKind::Frontend => chars_starts_with(path, prefix),
        ScanKind::Backend => {
            let slash = chars_of("/");
            chars_starts_with(path, prefix) || chars_eq(prefix, &slash) || chars_starts_with(
                path,
                &slash,
            )
        },
        ScanKind::Bff => {
            let api = chars_of("/api/");
            chars_starts_with(path, prefix) || chars_starts_with(path, &api)
        },
    }
}

/// The endpoint that a match of pattern `k` gives at a line, if any.
fn endpoint_of_capture(
    kind: &ScanKind,
    k: usize,
    c: &Vec<Option<String>>,
    prefix: &Vec<char>,
    file: &str,
    line: usize,
) -> (r: Option<ApiEndpoint>)
    requires
        params_compile(),
    ensures
        r is Some <==> capture_endpoint(*kind, k as int, c.deep_view(), prefix@, file@, line as int) is Some,
        r matches Some(e) ==> capture_endpoint(*kind, k as int, c.deep_view(), prefix@, file@, line as int)
            == Some(e@),
{
    let (m, p) = match raw_pair_of(kind, k, c) {
        Some(pair) => pair,
        None => {
            return None;
        },
    };
    let pc = chars_of(p.as_str());
    let found = match kind {
        ScanKind::Bff => match bff_path_of(&pc) {
            Some(v) => v,
            None => {
                return None;
            },
        },
        _ => pc,
    };
    if !path_kept_by(kind, &found, prefix) {
        return None;
    }
    let fs = string_of(&found);
    Some(
        ApiEndpoint {
            method: to_uppercase(m.as_str()),
            path: normalize_path(fs.as_str()),
            file: owned(file),
            line,
        },
    )
}

/// Pattern `k` of a kind of scan compiles where all of them do.
proof fn lemma_pattern_compiles(kind: ScanKind, k: int)
    requires
        patterns_compile(),
        0 <= k < pattern_count(kind),
    ensures
        regex_compiles(scan_pattern(kind, k)),
{
    match kind {
        ScanKind::Frontend => {
            assert(regex_compiles(scan_pattern(ScanKind::Frontend, k)));
        },
        ScanKind::Backend => {
            assert(regex_compiles(scan_pattern(ScanKind::Backend, k)));
        },
        ScanKind::Bff => {
            assert(regex_compiles(scan_pattern(ScanKind::Bff, k)));
        },
    }
}

/// The number of patterns of a kind of scan.
fn count_of(kind: &ScanKind) -> (r: usize)
    ensures
        r == pattern_count(*kind),
{
    match kind {
        ScanKind::Frontend => 7,
        ScanKind::Backend => 11,
        ScanKind::Bff => 5,
    }
}

/// Appends the endpoints that a line gives.
fn scan_line(
    kind: &ScanKind,
    text: &str,
    prefix: &Vec<char>,
    file: &str,
    line: usize,
    out: &mut Vec<ApiEndpoint>,
)
    requires
        patterns_compile(),
    ensures
        views(final(out)@) == views(old(out)@) + line_endpoints(
            *kind,
            text@,
            prefix@,
            file@,
            line as int,
            pattern_count(*kind),
        ),
{
    let ghost start = views(out@);
    let n = count_of(kind);
    let mut k: usize = 0;
    assert(start + line_endpoints(*kind, text@, prefix@, file@, line as int, 0) =~= start);
    while k < n
        invariant
            patterns_compile(),
            n == pattern_count(*kind),
            k <= n,
            views(out@) == start + line_endpoints(*kind, text@, prefix@, file@, line as int, k as int),
        decreases n - k,
    {
        proof {
            lemma_pattern_compiles(*kind, k as int);
        }
        let caps = match captures_all(pattern_at(kind, k), text) {
            Some(v) => v,
            None => {
                return;
            },
        };
        let ghost before = views(out@);
        let mut j: usize = 0;
        assert(before + captures_endpoints(*kind, k as int, caps.deep_view(), prefix@, file@, line as int, 0) =~= before);
        while j < caps.len()
            invariant
                params_compile(),
                j <= caps@.len(),
                views(out@) == before + captures_endpoints(
                    *kind,
                    k as int,
                    caps.deep_view(),
                    prefix@,
                    file@,
                    line as int,
                    j as int,
                ),
            decreases caps@.len() - j,
        {
            let found = endpoint_of_capture(kind, k, &caps[j], prefix, file, line);
            match found {
                Some(e) => {
                    proof {
                        lemma_views_push(out@, e);
                    }
                    out.push(e);
                },
                None => {},
            }
            j = j + 1;
        }
        k = k + 1;
    }
}

/// Appends the endpoints that the lines of a file give.
fn scan_file(kind: &ScanKind, f: &SourceFile, prefix: &Vec<char>, out: &mut Vec<ApiEndpoint>)
    requires
        patterns_compile(),
    ensures
        views(final(out)@) == views(old(out)@) + file_endpoints(
            *kind,
            f.lines.deep_view(),
            prefix@,
            f.path@,
            f.lines@.len() as int,
        ),
{
    let ghost start = views(out@);
    let mut i: usize = 0;
    assert(start + file_endpoints(*kind, f.lines.deep_view(), prefix@, f.path@, 0) =~= start);
    while i < f.lines.len()
        invariant
            patterns_compile(),
            i <= f.lines@.len(),
            views(out@) == start + file_endpoints(*kind, f.lines.deep_view(), prefix@, f.path@, i as int),
        decreases f.lines@.len() - i,
    {
        scan_line(kind, f.lines[i].as_str(), prefix, f.path.as_str(), i + 1, out);
        i = i + 1;
    }
}

/// The endpoints that a kind of scan finds in the files, file by file and
/// line by line, pattern by pattern, match by match.
pub fn scan_endpoints(kind: &ScanKind, files: &Vec<SourceFile>, prefix: &str) -> (r: Vec<ApiEndpoint>)
    requires
        patterns_compile(),
    ensures
        views(r@) == files_endpoints(*kind, files@, prefix@, files@.len() as int),
{
    let pc = chars_of(prefix);
    let mut out: Vec<ApiEndpoint> = Vec::new();
    let mut i: usize = 0;
    assert(views(out@) =~= files_endpoints(*kind, files@, prefix@, 0));
    while i < files.len()
        invariant
            patterns_compile(),
            pc@ == prefix@,
            i <= files@.len(),
            views(out@) == files_endpoints(*kind, files@, prefix@, i as int),
        decreases files@.len() - i,
    {
        scan_file(kind, &files[i], &pc, &mut out);
        i = i + 1;
    }
    out
}

/// The handlers that the first `n` matches of the handler pattern give at a
/// line of a route file: one per exported method.
pub open spec fn handler_endpoints(
    caps: Seq<Seq<Option<Seq<char>>>>,
    route: Seq<char>,
    file: Seq<char>,
    line: int,
    n: int,
) -> Seq<EndpointView>
    decreases n,
{
    if n <= 0 {
        Seq::empty()
    } else {
        handler_endpoints(caps, route, file, line, n - 1) + match group(caps[n - 1], 1) {
            Some(m) => seq![EndpointView { method: spec_uppercase(m), path: route, file, line }],
            None => Seq::empty(),
        }
    }
}

/// The handlers of the first `n` lines of a route file.
pub open spec fn route_file_endpoints(
    lines: Seq<Seq<char>>,
    route: Seq<char>,
    file: Seq<char>,
    n: int,
) -> Seq<EndpointView>
    decreases n,
{
    if n <= 0 {
        Seq::empty()
    } else {
        let caps = regex_captures_all(NEXT_HANDLER@, lines[n - 1]);
        route_file_endpoints(lines, route, file, n - 1) + handler_endpoints(
            caps,
            route,
            file,
            n,
            caps.len() as int,
        )
    }
}

/// The routes that the first `n` files of a Next.js App Router define; a
/// file that defines no route (see `nextjs_route`) gives none.
pub open spec fn nextjs_endpoints(files: Seq<SourceFile>, n: int) -> Seq<EndpointView>
    decreases n,
{
    if n <= 0 {
        Seq::empty()
    } else {
        let f = files[n - 1];
        nextjs_endpoints(files, n - 1) + match nextjs_route(f.path@) {
            Some(route) => route_file_endpoints(
                f.lines.deep_view(),
                route,
                f.path@,
                f.lines@.len() as int,
            ),
            None => Seq::empty(),
        }
    }
}

/// Appends the handlers of a route file.
fn scan_route_file(f: &SourceFile, route: &String, out: &mut Vec<ApiEndpoint>)
    requires
        regex_compiles(NEXT_HANDLER@),
    ensures
        views(final(out)@) == views(old(out)@) + route_file_endpoints(
            f.lines.deep_view(),
            route@,
            f.path@,
            f.lines@.len() as int,
        ),
{
    let ghost start = views(out@);
    let mut i: usize = 0;
    assert(start + route_file_endpoints(f.lines.deep_view(), route@, f.path@, 0) =~= start);
    while i < f.lines.len()
        invariant
            regex_compiles(NEXT_HANDLER@),
            i <= f.lines@.len(),
            views(out@) == start + route_file_endpoints(f.lines.deep_view(), route@, f.path@, i as int),
        decreases f.lines@.len() - i,
    {
        let caps = match captures_all(NEXT_HANDLER, f.lines[i].as_str()) {
            Some(v) => v,
            None => {
                return;
            },
        };
        let line_no = i + 1;
        let ghost before = views(out@);
        let mut j: usize = 0;
        assert(before + handler_endpoints(caps.deep_view(), route@, f.path@, line_no as int, 0) =~= before);
        while j < caps.len()
            invariant
                j <= caps@.len(),
                line_no == i + 1,
                views(out@) == before + handler_endpoints(caps.deep_view(), route@, f.path@, line_no as int, j as int),
            decreases caps@.len() - j,
        {
            match group_at(&caps[j], 1) {
                Some(m) => {
                    let e = ApiEndpoint {
                        method: to_uppercase(m.as_str()),
                        path: route.clone(),
                        file: f.path.clone(),
                        line: line_no,
                    };
                    proof {
                        lemma_views_push(out@, e);
                    }
                    out.push(e);
                },
                None => {},
            }
            j = j + 1;
        }
        i = i + 1;
    }
}

/// The routes that the handler files of a Next.js App Router define.
pub fn scan_nextjs_routes(files: &Vec<SourceFile>) -> (r: Vec<ApiEndpoint>)
    requires
        patterns_compile(),
    ensures
        views(r@) == nextjs_endpoints(files@, files@.len() as int),
{
    let mut out: Vec<ApiEndpoint> = Vec::new();
    let mut i: usize = 0;
    assert(views(out@) =~= nextjs_endpoints(files@, 0));
    while i < files.len()
        invariant
            patterns_compile(),
            i <= files@.len(),
            views(out@) == nextjs_endpoints(files@, i as int),
        decreases files@.len() - i,
    {
        match extract_nextjs_route_path(files[i].path.as_str()) {
            Some(route) => {
                scan_route_file(&files[i], &route, &mut out);
            },
            None => {},
        }
        i = i + 1;
    }
    out
}

/// Some endpoint of `s` has the key.
pub open spec fn has_key(s: Seq<EndpointView>, key: Seq<char>) -> bool {
    exists|j: int| 0 <= j < s.len() && endpoint_key(#[trigger] s[j]) == key
}

/// The first `n` targets whose key no source has, in order.
pub open spec fn uncovered(targets: Seq<EndpointView>, sources: Seq<EndpointView>, n: int) -> Seq<
    EndpointView,
>
    decreases n,
{
    if n <= 0 {
        Seq::empty()
    } else {
        uncovered(targets, sources, n - 1) + if has_key(sources, endpoint_key(targets[n - 1])) {
            Seq::empty()
        } else {
            seq![targets[n - 1]]
        }
    }
}

/// No later endpoint of `s` has the key of the one at `i`.
pub open spec fn last_of_key(s: Seq<EndpointView>, i: int) -> bool {
    forall|j: int| i < j < s.len() ==> endpoint_key(#[trigger] s[j]) != endpoint_key(s[i])
}

/// Among the first `n` endpoints of `s`, the last one of each key, in order:
/// one entry per key, the endpoint seen last for it.
pub open spec fn keep_last(s: Seq<EndpointView>, n: int) -> Seq<EndpointView>
    decreases n,
{
    if n <= 0 {
        Seq::empty()
    } else {
        keep_last(s, n - 1) + if last_of_key(s, n - 1) {
            seq![s[n - 1]]
        } else {
            Seq::empty()
        }
    }
}

/// The targets that no source matches, one per key.
pub open spec fn gaps(targets: Seq<EndpointView>, sources: Seq<EndpointView>) -> Seq<EndpointView> {
    let u = uncovered(targets, sources, targets.len() as int);
    keep_last(u, u.len() as int)
}

/// Filtering keeps at most what it filters.
proof fn lemma_uncovered_len(targets: Seq<EndpointView>, sources: Seq<EndpointView>, n: int)
    requires
        0 <= n,
    ensures
        uncovered(targets, sources, n).len() <= n,
    decreases n,
{
    if n > 0 {
        lemma_uncovered_len(targets, sources, n - 1);
    }
}

/// Deduplication keeps at most what it dedups.
proof fn lemma_keep_last_len(s: Seq<EndpointView>, n: int)
    requires
        0 <= n,
    ensures
        keep_last(s, n).len() <= n,
    decreases n,
{
    if n > 0 {
        lemma_keep_last_len(s, n - 1);
    }
}

/// There are no more gaps than targets.
pub proof fn lemma_gaps_len(targets: Seq<EndpointView>, sources: Seq<EndpointView>)
    ensures
        gaps(targets, sources).len() <= targets.len(),
{
    lemma_uncovered_len(targets, sources, targets.len() as int);
    let u = uncovered(targets, sources, targets.len() as int);
    lemma_keep_last_len(u, u.len() as int);
}

/// A copy of an endpoint.
fn copy_endpoint(e: &ApiEndpoint) -> (r: ApiEndpoint)
    ensures
        r@ == e@,
{
    ApiEndpoint { method: e.method.clone(), path: e.path.clone(), file: e.file.clone(), line: e.line }
}

/// The key of an endpoint, as characters.
fn key_chars(e: &ApiEndpoint) -> (r: Vec<char>)
    ensures
        r@ == endpoint_key(e@),
{
    let mut s = String::new();
    push_str(&mut s, e.method.as_str());
    push_str(&mut s, " ");
    push_str(&mut s, e.path.as_str());
    chars_of(s.as_str())
}

/// The keys of a list of endpoints.
fn keys_of(v: &Vec<ApiEndpoint>) -> (r: Vec<Vec<char>>)
    ensures
        r@.len() == v@.len(),
        forall|i: int| 0 <= i < v@.len() ==> (#[trigger] r@[i])@ == endpoint_key(v@[i]@),
{
    let mut r: Vec<Vec<char>> = Vec::new();
    let mut i: usize = 0;
    while i < v.len()
        invariant
            i <= v@.len(),
            r@.len() == i,
            forall|k: int| 0 <= k < i ==> (#[trigger] r@[k])@ == endpoint_key(v@[k]@),
        decreases v@.len() - i,
    {
        r.push(key_chars(&v[i]));
        i = i + 1;
    }
    r
}

/// Whether some key of the list equals `key`.
fn key_among(keys: &Vec<Vec<char>>, key: &Vec<char>) -> (r: bool)
    ensures
        r == exists|j: int| 0 <= j < keys@.len() && (#[trigger] keys@[j])@ == key@,
{
    let mut j: usize = 0;
    while j < keys.len()
        invariant
            j <= keys@.len(),
            forall|k: int| 0 <= k < j ==> (#[trigger] keys@[k])@ != key@,
        decreases keys@.len() - j,
    {
        if chars_eq(&keys[j], key) {
            return true;
        }
        j = j + 1;
    }
    false
}

/// Whether no key after position `i` equals the one at `i`.
fn last_key_at(keys: &Vec<Vec<char>>, i: usize) -> (r: bool)
    requires
        i < keys@.len(),
    ensures
        r == forall|j: int| i < j < keys@.len() ==> (#[trigger] keys@[j])@ != keys@[i as int]@,
{
    let n = keys.len();
    let mut j: usize = i + 1;
    while j < n
        invariant
            n == keys@.len(),
            i < j <= keys@.len(),
            forall|k: int| i < k < j ==> (#[trigger] keys@[k])@ != keys@[i as int]@,
        decreases keys@.len() - j,
    {
        if chars_eq(&keys[j], &keys[i]) {
            return false;
        }
        j = j + 1;
    }
    true
}

/// The targets whose key no source has, in order, with their keys.
fn uncovered_of(targets: &Vec<ApiEndpoint>, sources: &Vec<ApiEndpoint>) -> (r: (Vec<ApiEndpoint>, Vec<Vec<char>>))
    ensures
        views(r.0@) == uncovered(views(targets@), views(sources@), targets@.len() as int),
        r.1@.len() == r.0@.len(),
        forall|i: int| 0 <= i < r.0@.len() ==> (#[trigger] r.1@[i])@ == endpoint_key(r.0@[i]@),
{
    let tk = keys_of(targets);
    let sk = keys_of(sources);
    let ghost tv = views(targets@);
    let ghost sv = views(sources@);
    let mut out: Vec<ApiEndpoint> = Vec::new();
    let mut ok: Vec<Vec<char>> = Vec::new();
    let mut i: usize = 0;
    assert(views(out@) =~= uncovered(tv, sv, 0));
    while i < targets.len()
        invariant
            tv == views(targets@),
            sv == views(sources@),
            tk@.len() == targets@.len(),
            forall|k: int| 0 <= k < targets@.len() ==> (#[trigger] tk@[k])@ == endpoint_key(targets@[k]@),
            sk@.len() == sources@.len(),
            forall|k: int| 0 <= k < sources@.len() ==> (#[trigger] sk@[k])@ == endpoint_key(sources@[k]@),
            i <= targets@.len(),
            views(out@) == uncovered(tv, sv, i as int),
            ok@.len() == out@.len(),
            forall|k: int| 0 <= k < out@.len() ==> (#[trigger] ok@[k])@ == endpoint_key(out@[k]@),
        decreases targets@.len() - i,
    {
        let found = key_among(&sk, &tk[i]);
        proof {
            let key = endpoint_key(tv[i as int]);
            assert(tk@[i as int]@ == key);
            if found {
                let j = choose|j: int| 0 <= j < sk@.len() && (#[trigger] sk@[j])@ == tk@[i as int]@;
                assert(endpoint_key(sv[j]) == key);
                assert(has_key(sv, key));
            }
            if has_key(sv, key) {
                let j = choose|j: int| 0 <= j < sv.len() && endpoint_key(#[trigger] sv[j]) == key;
                assert(sk@[j]@ == tk@[i as int]@);
            }
            assert(found == has_key(sv, key));
        }
        if !found {
            let e = copy_endpoint(&targets[i]);
            proof {
                lemma_views_push(out@, e);
            }
            out.push(e);
            ok.push(key_chars(&targets[i]));
        }
        i = i + 1;
    }
    (out, ok)
}

/// The targets that no source matches, one per key (see `gaps`).
fn gaps_of(targets: &Vec<ApiEndpoint>, sources: &Vec<ApiEndpoint>) -> (r: Vec<ApiEndpoint>)
    ensures
        views(r@) == gaps(views(targets@), views(sources@)),
{
    let (u, uk) = uncovered_of(targets, sources);
    let ghost uv = views(u@);
    let mut out: Vec<ApiEndpoint> = Vec::new();
    let mut i: usize = 0;
    assert(views(out@) =~= keep_last(uv, 0));
    while i < u.len()
        invariant
            uv == views(u@),
            uk@.len() == u@.len(),
            forall|k: int| 0 <= k < u@.len() ==> (#[trigger] uk@[k])@ == endpoint_key(u@[k]@),
            i <= u@.len(),
            views(out@) == keep_last(uv, i as int),
        decreases u@.len() - i,
    {
        let last = last_key_at(&uk, i);
        proof {
            if last {
                assert forall|j: int| i < j < uv.len() implies endpoint_key(#[trigger] uv[j]) != endpoint_key(
                    uv[i as int],
                ) by {
                    assert(uk@[j]@ != uk@[i as int]@);
                }
            } else {
                let j = choose|j: int| i < j < uk@.len() && (#[trigger] uk@[j])@ == uk@[i as int]@;
                assert(endpoint_key(uv[j]) == endpoint_key(uv[i as int]));
            }
            assert(last == last_of_key(uv, i as int));
        }
        if last {
            let e = copy_endpoint(&u[i]);
            proof {
                lemma_views_push(out@, e);
            }
            out.push(e);
        }
        i = i + 1;
    }
    out
}

/// One layer of the coverage report: the calls made to a layer, the routes
/// it defines, the routes that no call uses and the calls that no route
/// serves (one entry per `METHOD path`), and how many routes are used.
pub struct LayerReport {
    pub source_calls: Vec<ApiEndpoint>,
    pub target_routes: Vec<ApiEndpoint>,
    pub unused_routes: Vec<ApiEndpoint>,
    pub missing_routes: Vec<ApiEndpoint>,
    pub used_routes: usize,
}

impl LayerReport {
    /// The report is that of these calls against these routes.
    pub open spec fn is_layer_of(self, calls: Seq<EndpointView>, routes: Seq<EndpointView>) -> bool {
        &&& views(self.source_calls@) == calls
        &&& views(self.target_routes@) == routes
        &&& views(self.unused_routes@) == gaps(routes, calls)
        &&& views(self.missing_routes@) == gaps(calls, routes)
        &&& self.used_routes == routes.len() - gaps(routes, calls).len()
    }
}

/// The report of one layer: which routes the calls leave unused and which
/// calls find no route.
pub fn layer_report(calls: Vec<ApiEndpoint>, routes: Vec<ApiEndpoint>) -> (r: LayerReport)
    ensures
        r.is_layer_of(views(calls@), views(routes@)),
{
    let unused = gaps_of(&routes, &calls);
    let missing = gaps_of(&calls, &routes);
    proof {
        lemma_gaps_len(views(routes@), views(calls@));
    }
    let used = routes.len() - unused.len();
    LayerReport {
        source_calls: calls,
        target_routes: routes,
        unused_routes: unused,
        missing_routes: missing,
        used_routes: used,
    }
}

/// The coverage report: frontend against backend, or, with a BFF layer,
/// frontend against BFF and BFF against backend.
pub enum CoverageReport {
    TwoLayer(LayerReport),
    ThreeLayer(LayerReport, LayerReport),
}

impl CoverageReport {
    /// The number of problems over both layers of a three-layer report
    /// (unused and missing routes), and over the one layer of the other.
    pub fn total_issues(&self) -> (r: usize)
        requires
            match self {
                CoverageReport::TwoLayer(l) => l.unused_routes@.len() + l.missing_routes@.len() <= usize::MAX,
                CoverageReport::ThreeLayer(a, b) => a.unused_routes@.len() + a.missing_routes@.len()
                    + b.unused_routes@.len() + b.missing_routes@.len() <= usize::MAX,
            },
        ensures
            r == match self {
                CoverageReport::TwoLayer(l) => l.unused_routes@.len() + l.missing_routes@.len(),
                CoverageReport::ThreeLayer(a, b) => a.unused_routes@.len() + a.missing_routes@.len()
                    + b.unused_routes@.len() + b.missing_routes@.len(),
            },
    {
        match self {
            CoverageReport::TwoLayer(l) => l.unused_routes.len() + l.missing_routes.len(),
            CoverageReport::ThreeLayer(a, b) => a.unused_routes.len() + a.missing_routes.len()
                + b.unused_routes.len() + b.missing_routes.len(),
        }
    }
}

/// The report that the scans of these files give: backend routes (kept
/// under `backend_prefix`), frontend calls (kept under `api_prefix`) and,
/// where a BFF is given, its Next.js routes and its calls to the backend.
pub open spec fn is_coverage_of(
    rep: CoverageReport,
    backend: Seq<SourceFile>,
    frontend: Seq<SourceFile>,
    bff: Option<Seq<SourceFile>>,
    api_prefix: Seq<char>,
    backend_prefix: Seq<char>,
) -> bool {
    let routes = files_endpoints(ScanKind::Backend, backend, backend_prefix, backend.len() as int);
    let calls = files_endpoints(ScanKind::Frontend, frontend, api_prefix, frontend.len() as int);
    match bff {
        None => rep matches CoverageReport::TwoLayer(l) && l.is_layer_of(calls, routes),
        Some(b) => rep matches CoverageReport::ThreeLayer(front, back) && front.is_layer_of(
            calls,
            nextjs_endpoints(b, b.len() as int),
        ) && back.is_layer_of(
            files_endpoints(ScanKind::Bff, b, backend_prefix, b.len() as int),
            routes,
        ),
    }
}

/// `roadmap coverage`: the coverage report of the files, read by the
/// caller; the backend prefix defaults to the API prefix. `None` where one
/// of the scan's patterns does not compile.
pub fn cmd_coverage(
    backend_files: &Vec<SourceFile>,
    frontend_files: &Vec<SourceFile>,
    bff_files: Option<&Vec<SourceFile>>,
    api_prefix: &str,
    backend_prefix: Option<&str>,
) -> (r: Option<CoverageReport>)
    ensures
        r is Some <==> patterns_compile(),
        r matches Some(rep) ==> is_coverage_of(
            rep,
            backend_files@,
            frontend_files@,
            match bff_files {
                Some(b) => Some(b@),
                None => None,
            },
            api_prefix@,
            match backend_prefix {
                Some(p) => p@,
                None => api_prefix@,
            },
        ),
{
    if !coverage_patterns_valid() {
        return None;
    }
    let bp: &str = match backend_prefix {
        Some(p) => p,
        None => api_prefix,
    };
    let backend_routes = scan_endpoints(&ScanKind::Backend, backend_files, bp);
    let frontend_calls = scan_endpoints(&ScanKind::Frontend, frontend_files, api_prefix);
    match bff_files {
        Some(bff) => {
            let bff_routes = scan_nextjs_routes(bff);
            let bff_calls = scan_endpoints(&ScanKind::Bff, bff, bp);
            let front = layer_report(frontend_calls, bff_routes);
            let back = layer_report(bff_calls, backend_routes);
            Some(CoverageReport::ThreeLayer(front, back))
        },
        None => Some(CoverageReport::TwoLayer(layer_report(frontend_calls, backend_routes))),
    }
}

} // verus!
