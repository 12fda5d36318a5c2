use roadmap_cli::credentials::{credentials_file, credentials_path, path_join};
use roadmap_cli::doctor::{diagnose, Diagnostic, DoctorFile, Loaded};
use roadmap_cli::hooks::{hook_script_text, hook_status, install_hook, uninstall_hook, InstallOutcome, UninstallOutcome};
use roadmap_cli::log::{history, LogEvent};
use roadmap_cli::model::{
    bug_store_path, feature_store_path, Bug, BugStore, FeatureRequest, FeatureStore, Phase, SaveOutcome, Task,
};
use roadmap_cli::report::{bug_summary, open_features};
use roadmap_cli::tracker::{
    bug_status_icon, feature_status_icon, list_bugs, make_closing_note, priority_icon, severity_icon, BugUpdate,
    NewBug, NewFeature, TrackerError,
};

fn bug(id: u32, title: &str, severity: &str, status: &str, created: &str) -> Bug {
    Bug {
        id,
        title: title.to_string(),
        severity: severity.to_string(),
        status: status.to_string(),
        phase: None,
        description: None,
        assignee: None,
        reported_by: None,
        resolution: None,
        created_at: created.to_string(),
        resolved_at: None,
    }
}

fn feature(id: u32, title: &str, status: &str) -> FeatureRequest {
    FeatureRequest {
        id,
        title: title.to_string(),
        priority: "medium".to_string(),
        status: status.to_string(),
        phase: None,
        description: None,
        assignee: None,
        requested_by: None,
        implementation: None,
        created_at: "2024-01-01".to_string(),
        implemented_at: None,
    }
}

fn new_bug(title: &str, severity: &str, phase: Option<&str>) -> NewBug {
    NewBug {
        title: title.to_string(),
        severity: severity.to_string(),
        phase: phase.map(|p| p.to_string()),
        description: None,
        assignee: None,
        reported_by: None,
    }
}

fn simple_phase(id: &str, tasks: Vec<Task>) -> Phase {
    Phase {
        id: id.to_string(),
        name: format!("Phase {}", id),
        description: String::new(),
        priority: 1,
        status: "pending".to_string(),
        parent: None,
        created_at: "2024-01-01".to_string(),
        updated_at: "2024-01-01".to_string(),
        workflow: None,
        depends_on: Vec::new(),
        tasks,
        notes: Vec::new(),
    }
}

fn simple_task(id: &str, status: &str) -> Task {
    Task {
        id: id.to_string(),
        name: format!("Task {}", id),
        description: None,
        status: status.to_string(),
        parent: None,
        workflow_stage: None,
        optional: false,
        completed_at: None,
        blocks: Vec::new(),
        blocked_by: Vec::new(),
        files: Vec::new(),
        tags: Vec::new(),
        assignee: None,
        due: None,
    }
}

#[test]
fn next_bug_id_is_one_more_than_the_largest() {
    let store = BugStore { bugs: vec![bug(3, "a", "minor", "open", "d"), bug(7, "b", "minor", "open", "d")] };
    assert_eq!(store.next_id(), 8);
    assert_eq!(BugStore { bugs: vec![] }.next_id(), 1);
    let store = FeatureStore { features: vec![feature(2, "x", "proposed")] };
    assert_eq!(store.next_id(), 3);
}

#[test]
fn loading_a_missing_store_gives_an_empty_one() {
    assert_eq!(BugStore::load(None).bugs.len(), 0);
    assert_eq!(FeatureStore::load(None).features.len(), 0);
    let loaded = BugStore::load(Some(BugStore { bugs: vec![bug(1, "a", "minor", "open", "d")] }));
    assert_eq!(loaded.bugs.len(), 1);
}

#[test]
fn saving_reports_which_step_failed() {
    let store = BugStore { bugs: vec![] };
    assert_eq!(store.save(SaveOutcome::Written), Ok(()));
    assert_eq!(
        store.save(SaveOutcome::SerializeFailed("bad".to_string())),
        Err("Erreur sérialisation: bad".to_string())
    );
    let features = FeatureStore { features: vec![] };
    assert_eq!(
        features.save(SaveOutcome::WriteFailed("disk full".to_string())),
        Err("Erreur écriture: disk full".to_string())
    );
    assert_eq!(bug_store_path(".phases"), ".phases/bugs.yml");
    assert_eq!(feature_store_path(".phases/"), ".phases/features.yml");
}

#[test]
fn credentials_live_under_the_home_directory() {
    assert_eq!(credentials_path(Some("/home/ana")), "/home/ana/.roadmap");
    assert_eq!(credentials_path(None), "./.roadmap");
    assert_eq!(credentials_file(Some("/home/ana/")), "/home/ana/.roadmap/credentials.json");
    assert_eq!(path_join("", "x"), "x");
}

#[test]
fn adding_bugs_keeps_their_ids_distinct() {
    let mut store = BugStore { bugs: vec![bug(4, "a", "minor", "open", "d")] };
    let id = store.add(new_bug("Crash", "blocking", None), None, "2024-07-07".to_string()).ok().unwrap();
    assert_eq!(id, 5);
    let id2 = store.add(new_bug("Typo", "minor", None), None, "2024-07-07".to_string()).ok().unwrap();
    assert_eq!(id2, 6);
    assert_eq!(store.bugs.len(), 3);
    assert_eq!(store.bugs[1].status, "open");
    assert_eq!(store.bugs[1].created_at, "2024-07-07");
}

#[test]
fn adding_a_bug_is_refused_for_bad_severity_or_unknown_phase() {
    let mut store = BugStore { bugs: vec![] };
    let r = store.add(new_bug("x", "huge", None), None, "d".to_string());
    assert!(matches!(r, Err(TrackerError::InvalidSeverity)));
    let phases = vec![simple_phase("1", vec![])];
    let r = store.add(new_bug("x", "major", Some("9")), Some(&phases), "d".to_string());
    assert!(matches!(r, Err(TrackerError::PhaseNotFound)));
    assert_eq!(store.bugs.len(), 0);
    let r = store.add(new_bug("x", "major", Some("1")), Some(&phases), "d".to_string());
    assert_eq!(r.ok(), Some(1));
    // A refusal comes before the next id is computed, whatever the ids.
    let mut full = BugStore { bugs: vec![bug(u32::MAX, "last", "minor", "open", "d")] };
    assert!(matches!(full.add(new_bug("x", "huge", None), None, "d".to_string()), Err(TrackerError::InvalidSeverity)));
    let r = full.add(new_bug("x", "major", Some("9")), Some(&phases), "d".to_string());
    assert!(matches!(r, Err(TrackerError::PhaseNotFound)));
    assert_eq!(full.bugs.len(), 1);
}

#[test]
fn adding_a_feature_checks_its_priority() {
    let mut store = FeatureStore { features: vec![] };
    let nf = NewFeature {
        title: "Dark mode".to_string(),
        priority: "urgent".to_string(),
        phase: None,
        description: None,
        assignee: None,
        requested_by: None,
    };
    assert!(matches!(store.add(nf, None, "d".to_string()), Err(TrackerError::InvalidPriority)));
    let nf = NewFeature {
        title: "Dark mode".to_string(),
        priority: "high".to_string(),
        phase: None,
        description: None,
        assignee: None,
        requested_by: None,
    };
    assert_eq!(store.add(nf, None, "d".to_string()).ok(), Some(1));
    assert_eq!(store.features[0].status, "proposed");
}

#[test]
fn resolving_a_bug_keeps_the_others() {
    let mut store = BugStore { bugs: vec![bug(1, "a", "minor", "open", "d"), bug(2, "b", "major", "open", "d")] };
    let title = store
        .resolve(2, Some("fixed".to_string()), Some("abc123".to_string()), "2024-08-08".to_string())
        .ok()
        .unwrap();
    assert_eq!(title, "b");
    assert_eq!(store.bugs[1].status, "resolved");
    assert_eq!(store.bugs[1].resolved_at, Some("2024-08-08".to_string()));
    assert_eq!(store.bugs[1].resolution, Some("fixed — commit abc123".to_string()));
    assert_eq!(store.bugs[0].status, "open");
    assert!(matches!(store.resolve(9, None, None, "d".to_string()), Err(TrackerError::NotFound)));
    assert_eq!(make_closing_note(None, Some("c1".to_string())), Some("commit c1".to_string()));
    assert_eq!(make_closing_note(None, None), None);
}

#[test]
fn updating_a_bug_checks_status_then_severity() {
    let mut store = BugStore { bugs: vec![bug(1, "a", "minor", "open", "d")] };
    let u = BugUpdate {
        status: Some("nope".to_string()),
        severity: Some("nope".to_string()),
        assignee: None,
        title: None,
        description: None,
        phase: None,
    };
    assert!(matches!(store.update(1, u), Err(TrackerError::InvalidStatus)));
    let u = BugUpdate {
        status: Some("in_progress".to_string()),
        severity: Some("nope".to_string()),
        assignee: None,
        title: None,
        description: None,
        phase: None,
    };
    assert!(matches!(store.update(1, u), Err(TrackerError::InvalidSeverity)));
    let u = BugUpdate {
        status: Some("in_progress".to_string()),
        severity: None,
        assignee: Some("bo".to_string()),
        title: Some("A!".to_string()),
        description: None,
        phase: None,
    };
    let changes = store.update(1, u).ok().unwrap();
    assert_eq!(changes, vec!["title: A!".to_string(), "status: in_progress".to_string(), "assignee: bo".to_string()]);
    assert_eq!(store.bugs[0].title, "A!");
    assert_eq!(store.bugs[0].severity, "minor");
}

#[test]
fn bug_lists_filter_and_summarize() {
    let bugs = vec![
        bug(1, "a", "blocking", "open", "d"),
        bug(2, "b", "minor", "resolved", "d"),
        bug(3, "c", "blocking", "in_progress", "d"),
    ];
    assert_eq!(list_bugs(&bugs, &Some("blocking".to_string()), &None), vec![0, 2]);
    let summary = bug_summary(&bugs);
    assert_eq!(summary.open, vec![0, 2]);
    assert_eq!(summary.blocking, 2);
    assert_eq!(summary.minor, 0);
    let features = vec![feature(1, "x", "proposed"), feature(2, "y", "rejected"), feature(3, "z", "accepted")];
    assert_eq!(open_features(&features), vec![0, 2]);
    assert_eq!(severity_icon("blocking"), "🔴");
    assert_eq!(severity_icon("other"), "⚪");
    assert_eq!(bug_status_icon("resolved"), "✅");
    assert_eq!(priority_icon("high"), "🟠");
    assert_eq!(priority_icon("critical"), "🔴");
    assert_eq!(feature_status_icon("implemented"), "✅");
}

#[test]
fn history_lists_newest_first_up_to_the_limit() {
    let mut b2 = bug(2, "second", "minor", "resolved", "2024-02-01");
    b2.resolved_at = Some("2024-03-01".to_string());
    let bugs = vec![bug(1, "first", "minor", "open", "2024-01-01"), b2];
    let events = history(&vec![], &bugs, 2);
    assert_eq!(events.len(), 2);
    assert!(matches!(&events[0], LogEvent::BugResolved { bug_id: 2, .. }));
    assert!(matches!(&events[1], LogEvent::BugCreated { bug_id: 2, .. }));
    assert_eq!(events[0].date(), "2024-03-01");
    assert_eq!(history(&vec![], &bugs, 10).len(), 3);
}

#[test]
fn doctor_finds_mismatched_names_and_bad_statuses() {
    let mut t = simple_task("2.1", "weird");
    t.parent = None;
    let entries = vec![
        DoctorFile { name: "phase-1.yml".to_string(), content: Loaded::Parsed(simple_phase("2", vec![t])) },
        DoctorFile { name: "phase-9.yml".to_string(), content: Loaded::Invalid("bad yaml".to_string()) },
    ];
    let report = diagnose(entries, &vec![bug(1, "a", "huge", "open", "d")]);
    assert_eq!(report.phase_count, 1);
    assert_eq!(report.task_count, 1);
    assert_eq!(report.bug_count, 1);
    let messages: Vec<String> = report.errors.iter().map(|d| d.message()).collect();
    assert_eq!(
        messages,
        vec![
            "phase-1.yml: le nom du fichier ne correspond pas à l'ID de la phase (id: 2, attendu: phase-2.yml)".to_string(),
            "Tâche 2.1: statut invalide 'weird' (attendu: pending, in_progress, done, blocked)".to_string(),
            "phase-9.yml: YAML invalide: bad yaml".to_string(),
            "Bug #1: sévérité invalide 'huge'".to_string(),
        ]
    );
    assert!(matches!(report.errors[0], Diagnostic::FileNameMismatch { .. }));
}

#[test]
fn hooks_install_then_uninstall() {
    assert!(!hook_status(&None));
    let installed = match install_hook(Some("#!/bin/sh\necho hi\n".to_string())) {
        InstallOutcome::Write(w) => w,
        InstallOutcome::AlreadyInstalled => panic!("not installed yet"),
    };
    assert_eq!(installed, format!("#!/bin/sh\necho hi\n\n{}", hook_script_text()));
    assert!(hook_status(&Some(installed.clone())));
    assert!(matches!(install_hook(Some(installed.clone())), InstallOutcome::AlreadyInstalled));
    match uninstall_hook(Some(installed)) {
        UninstallOutcome::Write(w) => assert_eq!(w, "#!/bin/sh\necho hi\n"),
        _ => panic!("the hook keeps its other lines"),
    }
    let fresh = match install_hook(None) {
        InstallOutcome::Write(w) => w,
        InstallOutcome::AlreadyInstalled => panic!("not installed yet"),
    };
    assert_eq!(fresh, format!("#!/bin/sh\n{}", hook_script_text()));
    assert!(matches!(uninstall_hook(Some(fresh)), UninstallOutcome::Remove));
    assert!(matches!(uninstall_hook(None), UninstallOutcome::NoHook));
    assert!(matches!(uninstall_hook(Some("echo".to_string())), UninstallOutcome::NotInstalled));
    // A hook holding only the shebang and blank lines goes with the section.
    let bare = match install_hook(Some("#!/bin/sh\n\n".to_string())) {
        InstallOutcome::Write(w) => w,
        InstallOutcome::AlreadyInstalled => panic!("not installed yet"),
    };
    assert!(matches!(uninstall_hook(Some(bare)), UninstallOutcome::Remove));
}
