use roadmap_cli::coverage::SourceFile;
use roadmap_cli::model::{Phase, Task};
use roadmap_cli::scan::{
    create_scan_tasks, cuts_cleanly, cuts_cleanly_within, excerpt, finding_from_match, group_by_marker, marker_icon, scan_findings, short_file,
    skip_file, utf8_len_capped, Finding,
};

fn task(id: &str, name: &str, parent: Option<&str>) -> Task {
    Task {
        id: id.to_string(),
        name: name.to_string(),
        description: None,
        status: "pending".to_string(),
        parent: parent.map(|p| p.to_string()),
        workflow_stage: None,
        optional: false,
        completed_at: None,
        blocks: Vec::new(),
        blocked_by: Vec::new(),
        files: Vec::new(),
        tags: Vec::new(),
        assignee: None,
        due: None,
    }
}

fn finding(marker: &str, content: &str, line: usize) -> Finding {
    Finding { file: "./src/a.rs".to_string(), line, marker: marker.to_string(), content: content.to_string() }
}

#[test]
fn markers_are_found_in_any_case_and_trimmed() {
    let files = vec![SourceFile {
        path: "./src/a.rs".to_string(),
        lines: vec![
            "// todo: refactor the parser".to_string(),
            "let x = 1;".to_string(),
            "// FIXME: ab".to_string(),
            "# HACK   handle  ".to_string(),
        ],
    }];
    let found = scan_findings(&files).unwrap();
    assert_eq!(found.len(), 2);
    assert_eq!((found[0].marker.as_str(), found[0].content.as_str(), found[0].line), ("TODO", "refactor the parser", 1));
    assert_eq!((found[1].marker.as_str(), found[1].content.as_str(), found[1].line), ("HACK", "handle", 4));
    assert_eq!(found[1].file, "./src/a.rs");
}

#[test]
fn a_match_with_a_short_text_gives_nothing() {
    let groups = vec![Some("TODO: fix this".to_string()), Some("todo".to_string()), Some("  fix this ".to_string())];
    let f = finding_from_match(Some(groups), "f.rs", 3).unwrap();
    assert_eq!((f.marker.as_str(), f.content.as_str(), f.line), ("TODO", "fix this", 3));
    let short = vec![Some("BUG: é".to_string()), Some("BUG".to_string()), Some("é".to_string())];
    assert!(finding_from_match(Some(short), "f.rs", 1).is_none());
    let three_bytes = vec![Some("BUG: éa".to_string()), Some("BUG".to_string()), Some("éa".to_string())];
    assert!(finding_from_match(Some(three_bytes), "f.rs", 1).is_some());
    assert!(finding_from_match(None, "f.rs", 1).is_none());
}

#[test]
fn byte_lengths_count_utf8() {
    assert_eq!(utf8_len_capped(&"aé€😀".chars().collect(), 100), 10);
    assert_eq!(utf8_len_capped(&"abcdef".chars().collect(), 4), 4);
}

#[test]
fn hidden_and_binary_files_are_skipped() {
    assert!(skip_file("./src/.cache/a.rs", Some("rs"), false));
    assert!(!skip_file("./src/.cache/a.rs", Some("rs"), true));
    assert!(skip_file("./img/logo.PNG", Some("PNG"), true));
    assert!(!skip_file("./src/main.rs", Some("rs"), false));
    assert!(!skip_file("./Makefile", None, false));
}

#[test]
fn markers_have_icons() {
    assert_eq!(marker_icon("BUG"), "🐛");
    assert_eq!(marker_icon("TODO"), "📋");
    assert_eq!(marker_icon("OTHER"), "📌");
}

#[test]
fn long_texts_are_cut_on_a_character_boundary() {
    assert!(cuts_cleanly(&"x".repeat(85)));
    assert!(cuts_cleanly(&"é".repeat(40)));
    assert!(!cuts_cleanly(&"é".repeat(41)));
    assert!(cuts_cleanly(&format!("a{}", "é".repeat(41))));
    assert_eq!(short_file("./src/a.rs"), "src/a.rs");
    assert_eq!(short_file("src/a.rs"), "src/a.rs");
}

#[test]
fn tasks_are_created_for_new_findings_only() {
    let mut phase = Phase {
        id: "3".to_string(),
        name: "Three".to_string(),
        description: String::new(),
        priority: 3,
        status: "pending".to_string(),
        parent: None,
        created_at: "2024-01-01".to_string(),
        updated_at: "2024-01-01".to_string(),
        workflow: None,
        depends_on: Vec::new(),
        tasks: vec![task("3.1", "Refactor the parser", None), task("3.2", "Sub", Some("3.1"))],
        notes: Vec::new(),
    };
    let findings = vec![
        finding("TODO", "refactor the parser", 1),
        finding("HACK", "handle errors", 4),
        finding("BUG", "handle errors and more", 7),
        finding("TODO", "HANDLE ERRORS", 9),
    ];
    let created = create_scan_tasks(&mut phase, "3", &findings, "2024-09-09".to_string());
    assert_eq!(created, Ok(2));
    assert_eq!(phase.tasks.len(), 4);
    assert_eq!(phase.updated_at, "2024-09-09");
    let t = &phase.tasks[2];
    assert_eq!(t.id, "3.3");
    assert_eq!(t.name, "[HACK] handle errors");
    assert_eq!(t.description, Some("Trouvé dans src/a.rs:4".to_string()));
    assert_eq!(t.files, vec!["src/a.rs".to_string()]);
    assert!(t.optional);
    assert_eq!(t.status, "pending");
    let u = &phase.tasks[3];
    assert_eq!(u.id, "3.4");
    assert_eq!(u.name, "[BUG] handle errors and more");
    assert!(!u.optional);
}

#[test]
fn nothing_new_leaves_the_phase_undated() {
    let mut phase = Phase {
        id: "1".to_string(),
        name: "One".to_string(),
        description: String::new(),
        priority: 1,
        status: "pending".to_string(),
        parent: None,
        created_at: "2024-01-01".to_string(),
        updated_at: "2024-01-01".to_string(),
        workflow: None,
        depends_on: Vec::new(),
        tasks: vec![task("1.1", "[TODO] write docs", None)],
        notes: Vec::new(),
    };
    let created = create_scan_tasks(&mut phase, "1", &vec![finding("TODO", "Write docs", 2)], "2024-09-09".to_string());
    assert_eq!(created, Ok(0));
    assert_eq!(phase.updated_at, "2024-01-01");
}

#[test]
fn long_findings_become_truncated_titles() {
    let mut phase = Phase {
        id: "2".to_string(),
        name: "Two".to_string(),
        description: String::new(),
        priority: 1,
        status: "pending".to_string(),
        parent: None,
        created_at: "d".to_string(),
        updated_at: "d".to_string(),
        workflow: None,
        depends_on: Vec::new(),
        tasks: Vec::new(),
        notes: Vec::new(),
    };
    let long = format!("a{}", "é".repeat(41));
    let created = create_scan_tasks(&mut phase, "2", &vec![finding("XXX", &long, 5)], "d2".to_string());
    assert_eq!(created, Ok(1));
    assert_eq!(phase.tasks[0].id, "2.1");
    assert_eq!(phase.tasks[0].name, format!("[XXX] a{}...", "é".repeat(38)));
}

#[test]
fn findings_group_by_marker_in_order_of_appearance() {
    let findings = vec![finding("TODO", "aaa", 1), finding("BUG", "bbb", 2), finding("TODO", "ccc", 3)];
    let groups = group_by_marker(&findings);
    assert_eq!(groups.len(), 2);
    assert_eq!(groups[0].0, "TODO");
    assert_eq!(groups[0].1, vec![0, 2]);
    assert_eq!(groups[1].0, "BUG");
    assert_eq!(groups[1].1, vec![1]);
}

#[test]
fn excerpts_cut_long_texts_at_the_given_byte() {
    let long = "n".repeat(120);
    assert_eq!(excerpt(&long, 100, 100), format!("{}...", "n".repeat(100)));
    assert_eq!(excerpt("court", 100, 100), "court");
    assert_eq!(excerpt(&"x".repeat(100), 100, 100), "x".repeat(100));
    assert!(cuts_cleanly_within(&"é".repeat(60), 80, 80));
    assert!(!cuts_cleanly_within(&format!("a{}", "é".repeat(60)), 80, 80));
    assert_eq!(excerpt(&"é".repeat(60), 80, 80), format!("{}...", "é".repeat(40)));
}

#[test]
fn a_new_finding_that_cannot_be_cut_is_reported() {
    let mut phase = Phase {
        id: "4".to_string(),
        name: "Four".to_string(),
        description: String::new(),
        priority: 1,
        status: "pending".to_string(),
        parent: None,
        created_at: "d".to_string(),
        updated_at: "d".to_string(),
        workflow: None,
        depends_on: Vec::new(),
        tasks: vec![task("4.1", &"é".repeat(41), None)],
        notes: Vec::new(),
    };
    let uncut = "é".repeat(41);
    // Already known: skipped, so its length does not matter.
    let known = create_scan_tasks(&mut phase, "4", &vec![finding("TODO", &uncut, 1)], "d2".to_string());
    assert_eq!(known, Ok(0));
    let fresh = vec![finding("TODO", "short one", 1), finding("FIXME", &"è".repeat(41), 2)];
    assert_eq!(create_scan_tasks(&mut phase, "4", &fresh, "d2".to_string()), Err(1));
}
