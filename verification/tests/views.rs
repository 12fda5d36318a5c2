use roadmap_cli::context::cmd_context;
use roadmap_cli::model::{Bug, Note, Phase, Task};
use roadmap_cli::show::{bug_status_mark_of, is_overdue, is_tree, phase_bugs, severity_mark_of, task_overdue, task_rows};
use roadmap_cli::web::{
    api_phase, check_status_request, error_page, index_page, not_initialized_page, phase_page, phases_page,
    report_counts, report_phases_in_progress, UpdateStatusRequest,
};

fn task(id: &str, name: &str, status: &str) -> Task {
    Task {
        id: id.to_string(),
        name: name.to_string(),
        description: None,
        status: status.to_string(),
        parent: None,
        workflow_stage: None,
        optional: false,
        completed_at: None,
        blocks: Vec::new(),
        blocked_by: Vec::new(),
        files: Vec::new(),
        tags: Vec::new(),
        assignee: None,
        due: None,
    }
}

fn phase(id: &str, name: &str, status: &str, priority: u32, tasks: Vec<Task>) -> Phase {
    Phase {
        id: id.to_string(),
        name: name.to_string(),
        description: String::new(),
        priority,
        status: status.to_string(),
        parent: None,
        created_at: "2024-01-01".to_string(),
        updated_at: "2024-01-01".to_string(),
        workflow: None,
        depends_on: Vec::new(),
        tasks,
        notes: Vec::new(),
    }
}

fn roadmap() -> Vec<Phase> {
    let mut parser = task("2.1", "Parser", "in_progress");
    parser.files = vec!["src/p.rs".to_string()];
    let mut docs = task("2.3", "Docs", "pending");
    docs.optional = true;
    let mut core = phase("2", "Core", "in_progress", 2, vec![parser, task("2.2", "Lexer", "pending"), docs]);
    core.description = "Main work".to_string();
    core.notes = vec![
        Note { date: "2024-01-01".to_string(), content: "a".to_string() },
        Note { date: "2024-01-02".to_string(), content: "b".to_string() },
    ];
    vec![
        phase("1", "Setup", "done", 1, vec![task("1.1", "Init", "done")]),
        core,
        phase("3", "Later", "pending", 3, vec![task("3.1", "Plan", "pending")]),
    ]
}

const ACTIONS: &str = "## Actions suggérées\n\n```bash\n# Voir la prochaine tâche\nroadmap next\n\n# Démarrer une tâche\nroadmap task start <id>\n\n# Marquer comme terminée\nroadmap task done <id>\n```\n";

#[test]
fn context_of_the_roadmap() {
    let text = cmd_context(&roadmap(), false, None);
    let expected = format!(
        "# Contexte Roadmap\n\n\
## État actuel\n- Phases: 3 (1 done, 1 in_progress, 1 pending)\n- Progression: 20%\n\n\
## Focus actuel\n\n\
### Phase 2 — Core\n\n\
Main work\n\n\
**En cours:**\n- [2.1] Parser\n  Fichiers: src/p.rs\n\n\
**À faire:**\n- [2.2] Lexer\n\n\
**Notes récentes:**\n- 2024-01-02: b\n- 2024-01-01: a\n\n\
## Phases à venir\n\n- **Phase 3** (P3) — Later (1 tâches)\n\n{}",
        ACTIONS
    );
    assert_eq!(text, expected);
}

#[test]
fn context_state_counts_phases_and_rounds_progress() {
    let done = |id: &str| phase(id, "Done", "done", 1, Vec::new());
    let obs = phase(
        "9",
        "Observabilité",
        "in_progress",
        1,
        vec![task("9.1", "Logs", "done"), task("9.2", "Métriques", "pending"), task("9.3", "Debug", "pending")],
    );
    let later = |id: &str| phase(id, "Later", "pending", 5, Vec::new());
    let phases = vec![done("1"), done("2"), done("3"), obs, later("10"), later("11")];
    let text = cmd_context(&phases, false, None);
    assert!(text.starts_with("# Contexte Roadmap\n\n## État actuel\n- Phases: 6 (3 done, 1 in_progress, 2 pending)\n- Progression: 33%\n\n"));
    let two_of_three = vec![phase(
        "1",
        "A",
        "in_progress",
        1,
        vec![task("1.1", "a", "done"), task("1.2", "b", "done"), task("1.3", "c", "pending")],
    )];
    assert!(cmd_context(&two_of_three, false, None).contains("- Progression: 67%\n"));
    assert!(cmd_context(&Vec::new(), false, None).contains("- Phases: 0 (0 done, 0 in_progress, 0 pending)\n- Progression: 0%\n"));
}

#[test]
fn context_with_the_phases_done() {
    let text = cmd_context(&roadmap(), true, None);
    assert!(text.contains("## Phases terminées\n\n- ✅ Phase 1 — Setup\n\n## Actions suggérées"));
}

#[test]
fn context_of_one_phase() {
    let text = cmd_context(&roadmap(), false, Some("2"));
    let expected = "# Contexte — Phase 2 — Core\n\n\
Main work\n\n\
- Statut: in_progress\n- Priorité: 2\n- Progression: 0/3 tâches\n\n\
## En cours\n\n- [2.1] Parser\n  Fichiers: src/p.rs\n\
## À faire\n\n- [2.2] Lexer\n\
## Optionnel\n\n- [2.3] Docs\n\
## Notes\n\n- 2024-01-01: a\n- 2024-01-02: b\n\n";
    assert_eq!(text, expected);
    assert_eq!(cmd_context(&roadmap(), false, Some("9")), "Phase 9 non trouvée\n");
}

#[test]
fn tasks_are_shown_as_a_tree() {
    let a = task("1", "A", "pending");
    let mut b = task("2", "B", "pending");
    b.parent = Some("1".to_string());
    let c = task("3", "C", "pending");
    let mut d = task("4", "D", "pending");
    d.parent = Some("2".to_string());
    let tasks = vec![a, b, c, d];
    assert!(is_tree(&tasks));
    let rows: Vec<(usize, usize)> = task_rows(&tasks).iter().map(|r| (r.index, r.depth)).collect();
    assert_eq!(rows, vec![(0, 0), (1, 1), (3, 2), (2, 0)]);
}

#[test]
fn a_cycle_of_parents_is_no_tree() {
    let x = task("x", "X", "pending");
    let mut y = task("x", "Y", "pending");
    y.parent = Some("x".to_string());
    assert!(!is_tree(&vec![x, y]));
}

#[test]
fn distinct_ids_always_form_a_tree() {
    // A loop of parents that no top-level task reaches is never listed.
    let mut a = task("a", "A", "pending");
    a.parent = Some("b".to_string());
    let mut b = task("b", "B", "pending");
    b.parent = Some("a".to_string());
    let mut c = task("c", "C", "pending");
    c.parent = Some("top".to_string());
    let top = task("top", "Top", "pending");
    let tasks = vec![a, b, c, top];
    assert!(is_tree(&tasks));
    let rows = task_rows(&tasks);
    let seen: Vec<(usize, usize)> = rows.iter().map(|r| (r.index, r.depth)).collect();
    assert_eq!(seen, vec![(3, 0), (2, 1)]);
}

#[test]
fn due_dates_in_the_past_are_late() {
    assert!(is_overdue("2024-01-01", "2024-02-01", "pending"));
    assert!(!is_overdue("2024-01-01", "2024-02-01", "done"));
    assert!(!is_overdue("2024-03-01", "2024-02-01", "pending"));
    assert!(!is_overdue("2024-02-01", "2024-02-01", "pending"));
    assert!(!task_overdue(&task("1", "no due date", "pending")));
    let mut done = task("2", "done", "done");
    done.due = Some("1999-01-01".to_string());
    assert!(!task_overdue(&done));
    let mut old = task("3", "long ago", "pending");
    old.due = Some("1999-01-01".to_string());
    assert!(task_overdue(&old));
    let mut later = task("4", "far ahead", "in_progress");
    later.due = Some("9999-12-31".to_string());
    assert!(!task_overdue(&later));
}

#[test]
fn bugs_of_a_phase_and_their_marks() {
    let bug = |id: u32, phase: Option<&str>| Bug {
        id,
        title: "t".to_string(),
        severity: "minor".to_string(),
        status: "open".to_string(),
        phase: phase.map(|p| p.to_string()),
        description: None,
        assignee: None,
        reported_by: None,
        resolution: None,
        created_at: "d".to_string(),
        resolved_at: None,
    };
    let bugs = vec![bug(1, Some("2")), bug(2, None), bug(3, Some("2")), bug(4, Some("20"))];
    assert_eq!(phase_bugs(&bugs, "2"), vec![0, 2]);
    assert_eq!(severity_mark_of("blocking"), "🔴");
    assert_eq!(severity_mark_of("minor"), "🟡");
    assert_eq!(severity_mark_of("other"), "🟡");
    assert_eq!(bug_status_mark_of("wontfix"), "⏭️");
    assert_eq!(bug_status_mark_of("open"), "⬜");
}

#[test]
fn api_phases_count_their_tasks() {
    let phases = roadmap();
    let a = api_phase(&phases[1]);
    assert_eq!((a.id.as_str(), a.tasks_done, a.tasks_total), ("2", 0, 3));
    let a = api_phase(&phases[0]);
    assert_eq!((a.tasks_done, a.tasks_total), (1, 1));
    let in_progress = report_phases_in_progress(&phases);
    assert_eq!(in_progress.len(), 1);
    assert_eq!(in_progress[0].id, "2");
}

#[test]
fn report_counts_of_the_api() {
    let counts = report_counts(&roadmap());
    assert_eq!(counts.total_phases, 3);
    assert_eq!(counts.phases_done, 1);
    assert_eq!(counts.phases_in_progress, 1);
    assert_eq!(counts.phases_pending, 1);
    assert_eq!(counts.phases_blocked, 0);
    assert_eq!(counts.total_tasks, 5);
    assert_eq!(counts.tasks_done, 1);
    assert_eq!(counts.tasks_in_progress, 1);
    assert_eq!(counts.tasks_pending, 3);
    assert_eq!(counts.tasks_optional, 1);
    assert_eq!(counts.required_tasks, 5);
}

#[test]
fn pages_of_the_web_interface() {
    let phases = roadmap();
    let index = index_page(&phases);
    assert_eq!(index.title, "Roadmap - Kanban");
    assert_eq!(index.phases_pending.len(), 1);
    assert_eq!(index.phases_in_progress[0].id, "2");
    assert_eq!(index.phases_done[0].tasks_done, 1);
    assert!(index.phases_blocked.is_empty());
    let list = phases_page(&phases);
    assert_eq!(list.phases.len(), 3);
    assert_eq!(list.current_page, "phases");
    let page = phase_page(&phases, "2").ok().unwrap();
    assert_eq!(page.title, "Phase 2 - Core");
    assert_eq!(page.tasks.len(), 3);
    assert_eq!(page.notes.len(), 2);
    assert_eq!(page.notes[1].content, "b");
    let missing = phase_page(&phases, "8").err().unwrap();
    assert_eq!(missing.error_code, 404);
    assert_eq!(missing.error_message, "Phase 8 non trouvée");
    assert_eq!(missing.title, "Erreur 404");
    let e = error_page(500, "Erreur de rendu");
    assert_eq!((e.title.as_str(), e.current_page.as_str()), ("Erreur 500", ""));
    assert_eq!(not_initialized_page().error_message, "Roadmap non initialisée. Lancez: roadmap init");
}

#[test]
fn board_status_changes_are_checked() {
    assert!(check_status_request(&UpdateStatusRequest { status: "done".to_string() }).is_ok());
    assert_eq!(
        check_status_request(&UpdateStatusRequest { status: "closed".to_string() }),
        Err("Statut invalide: closed".to_string())
    );
}
