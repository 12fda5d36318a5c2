use roadmap_cli::coverage::{
    bff_path_of, cmd_coverage, coverage_patterns_valid, extract_nextjs_route_path, glob_pattern, layer_report,
    normalize_path, path_kept_by, raw_pair_of, scan_endpoints, scan_nextjs_routes, ApiEndpoint, CoverageReport,
    ScanKind, SourceFile,
};

fn file(path: &str, lines: &[&str]) -> SourceFile {
    SourceFile { path: path.to_string(), lines: lines.iter().map(|l| l.to_string()).collect() }
}

fn endpoint(method: &str, path: &str, file: &str, line: usize) -> ApiEndpoint {
    ApiEndpoint { method: method.to_string(), path: path.to_string(), file: file.to_string(), line }
}

fn keys(v: &[ApiEndpoint]) -> Vec<String> {
    v.iter().map(|e| format!("{} {} {}:{}", e.method, e.path, e.file, e.line)).collect()
}

fn backend() -> SourceFile {
    file("./server/app.js", &["app.get('/api/users', list)", "app.post('/api/orders/:id', create)"])
}

fn frontend() -> SourceFile {
    file("./web/main.js", &["fetch('/api/users?page=2')", "axios.delete('/api/items/5')"])
}

#[test]
fn all_patterns_compile() {
    assert!(coverage_patterns_valid());
}

#[test]
fn normalize_path_drops_the_query_and_names_parameters() {
    assert_eq!(normalize_path("/api/users/:id?x=1"), "/api/users/:param");
    assert_eq!(normalize_path("/api/users/[id]/posts/{postId}"), "/api/users/:param/posts/:param");
    assert_eq!(normalize_path("/api/plain"), "/api/plain");
}

#[test]
fn nextjs_route_paths_come_from_the_file_path() {
    assert_eq!(extract_nextjs_route_path("src/app/api/users/[id]/route.ts"), Some("/api/users/:param".to_string()));
    assert_eq!(extract_nextjs_route_path("./app/api/x/route.jsx"), Some("/api/x".to_string()));
    assert_eq!(extract_nextjs_route_path("src/app/page.tsx"), None);
    assert_eq!(extract_nextjs_route_path("src/app/api/x/handler.ts"), None);
}

#[test]
fn glob_patterns_are_made_relative() {
    assert_eq!(glob_pattern("src/**/*.ts"), "./src/**/*.ts");
    assert_eq!(glob_pattern("./a/*.js"), "./a/*.js");
    assert_eq!(glob_pattern("/abs/*.py"), "/abs/*.py");
}

#[test]
fn a_match_gives_its_method_and_path() {
    let two = vec![Some("axios.get('/x')".to_string()), Some("get".to_string()), Some("/x".to_string())];
    let (m, p) = raw_pair_of(&ScanKind::Frontend, 2, &two).unwrap();
    assert_eq!((m.as_str(), p.as_str()), ("GET", "/x"));
    let reversed = vec![Some(".route(\"/y\", post".to_string()), Some("/y".to_string()), Some("post".to_string())];
    let (m, p) = raw_pair_of(&ScanKind::Backend, 6, &reversed).unwrap();
    assert_eq!((m.as_str(), p.as_str()), ("POST", "/y"));
    let one = vec![Some("'/api/z'".to_string()), Some("/api/z".to_string())];
    let (m, p) = raw_pair_of(&ScanKind::Frontend, 5, &one).unwrap();
    assert_eq!((m.as_str(), p.as_str()), ("GET", "/api/z"));
    let missing_method = vec![Some("x".to_string()), None, Some("/w".to_string())];
    let (m, _) = raw_pair_of(&ScanKind::Backend, 0, &missing_method).unwrap();
    assert_eq!(m, "");
    assert!(raw_pair_of(&ScanKind::Frontend, 0, &vec![Some("x".to_string())]).is_none());
}

#[test]
fn bff_urls_keep_their_path() {
    let chars = |s: &str| s.chars().collect::<Vec<char>>();
    let text = |v: Option<Vec<char>>| v.map(|c| c.into_iter().collect::<String>());
    assert_eq!(text(bff_path_of(&chars("http://back:8080/api/users"))), Some("/api/users".to_string()));
    assert_eq!(text(bff_path_of(&chars("https://back/v1/items"))), Some("/v1/items".to_string()));
    assert_eq!(text(bff_path_of(&chars("https://back"))), None);
    assert_eq!(text(bff_path_of(&chars("/api/local"))), Some("/api/local".to_string()));
    assert!(path_kept_by(&ScanKind::Backend, &chars("/health"), &chars("/api")));
    assert!(!path_kept_by(&ScanKind::Frontend, &chars("/health"), &chars("/api")));
}

#[test]
fn backend_routes_are_found_by_every_pattern_that_matches() {
    let routes = scan_endpoints(&ScanKind::Backend, &vec![backend()], "/api");
    assert_eq!(
        keys(&routes),
        vec![
            "GET /api/users ./server/app.js:1",
            "GET /api/users ./server/app.js:1",
            "POST /api/orders/:param ./server/app.js:2",
            "GET /api/orders/:param ./server/app.js:2",
        ]
    );
}

#[test]
fn frontend_calls_keep_those_under_the_prefix() {
    let calls = scan_endpoints(&ScanKind::Frontend, &vec![frontend()], "/api");
    assert_eq!(
        keys(&calls),
        vec!["GET /api/users ./web/main.js:1", "DELETE /api/items/5 ./web/main.js:2", "GET /api/items/5 ./web/main.js:2"]
    );
    let none = scan_endpoints(&ScanKind::Frontend, &vec![frontend()], "/v2");
    assert!(none.is_empty());
}

#[test]
fn a_layer_reports_unused_routes_and_missing_calls_once_per_key() {
    let routes = vec![
        endpoint("GET", "/a", "r", 1),
        endpoint("POST", "/b", "r", 2),
        endpoint("POST", "/b", "r", 9),
    ];
    let calls = vec![endpoint("GET", "/a", "c", 1), endpoint("GET", "/z", "c", 2), endpoint("GET", "/z", "c", 3)];
    let layer = layer_report(calls, routes);
    assert_eq!(keys(&layer.unused_routes), vec!["POST /b r:9"]);
    assert_eq!(keys(&layer.missing_routes), vec!["GET /z c:3"]);
    assert_eq!(layer.used_routes, 2);
    assert_eq!(layer.target_routes.len(), 3);
    assert_eq!(layer.source_calls.len(), 3);
}

#[test]
fn two_layer_coverage() {
    let report = cmd_coverage(&vec![backend()], &vec![frontend()], None, "/api", None).unwrap();
    assert_eq!(report.total_issues(), 4);
    match report {
        CoverageReport::TwoLayer(layer) => {
            assert_eq!(
                keys(&layer.unused_routes),
                vec!["POST /api/orders/:param ./server/app.js:2", "GET /api/orders/:param ./server/app.js:2"]
            );
            assert_eq!(
                keys(&layer.missing_routes),
                vec!["DELETE /api/items/5 ./web/main.js:2", "GET /api/items/5 ./web/main.js:2"]
            );
            assert_eq!(layer.used_routes, 2);
        }
        CoverageReport::ThreeLayer(..) => panic!("no BFF given"),
    }
}

#[test]
fn three_layer_coverage() {
    let bff = vec![file(
        "./src/app/api/users/route.ts",
        &["export async function GET(req) {", "  const r = await fetch(`${BACKEND_URL}/api/users`)"],
    )];
    let front = vec![file("./web/list.js", &["fetch('/api/users')"])];
    let routes = scan_nextjs_routes(&bff);
    assert_eq!(keys(&routes), vec!["GET /api/users ./src/app/api/users/route.ts:1"]);
    let report = cmd_coverage(&vec![backend()], &front, Some(&bff), "/api", None).unwrap();
    assert_eq!(report.total_issues(), 2);
    match report {
        CoverageReport::ThreeLayer(front_layer, back_layer) => {
            assert_eq!(front_layer.source_calls.len(), 2);
            assert!(front_layer.unused_routes.is_empty());
            assert!(front_layer.missing_routes.is_empty());
            assert_eq!(front_layer.used_routes, 1);
            assert_eq!(keys(&back_layer.source_calls), vec!["GET /api/users ./src/app/api/users/route.ts:2"]);
            assert_eq!(back_layer.unused_routes.len(), 2);
            assert!(back_layer.missing_routes.is_empty());
        }
        CoverageReport::TwoLayer(..) => panic!("a BFF was given"),
    }
}
