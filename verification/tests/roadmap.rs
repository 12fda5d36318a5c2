use roadmap_cli::data::{load_phases, phase_file_name, sort_by_priority, PhaseFile};
use roadmap_cli::export::render_markdown;
use roadmap_cli::model::{
    default_bug_status, default_feature_status, default_priority, default_status, Note, Phase,
    Task,
};
use roadmap_cli::next::{is_blocked, next_tasks};
use roadmap_cli::phase_ops::{
    cmd_add, cmd_edit, cmd_note, cmd_priority, find_phase, is_valid_status, set_phase_status,
    status_icon, AddError, AddFacts, EditError,
};
use roadmap_cli::report::{build_report, count_all_tasks, phase_progress};
use roadmap_cli::search::{search, SearchHit};
use roadmap_cli::templates::{cmd_template, get_all_templates, get_template, make_task_id, TemplateError};

fn task(id: &str, name: &str, status: &str) -> Task {
    Task {
        id: id.to_string(),
        name: name.to_string(),
        description: None,
        status: status.to_string(),
        parent: None,
        workflow_stage: None,
        optional: false,
        completed_at: None,
        blocks: Vec::new(),
        blocked_by: Vec::new(),
        files: Vec::new(),
        tags: Vec::new(),
        assignee: None,
        due: None,
    }
}

fn phase(id: &str, name: &str, status: &str, priority: u32, tasks: Vec<Task>) -> Phase {
    Phase {
        id: id.to_string(),
        name: name.to_string(),
        description: String::new(),
        priority,
        status: status.to_string(),
        parent: None,
        created_at: "2024-01-01".to_string(),
        updated_at: "2024-01-01".to_string(),
        workflow: None,
        depends_on: Vec::new(),
        tasks,
        notes: Vec::new(),
    }
}

#[test]
fn defaults_are_those_of_the_files() {
    assert_eq!(default_priority(), 10);
    assert_eq!(default_status(), "pending");
    assert_eq!(default_bug_status(), "open");
    assert_eq!(default_feature_status(), "proposed");
}

#[test]
fn phase_files_are_named_phase_star_yml() {
    assert!(phase_file_name("phase-1.yml"));
    assert!(phase_file_name("phase-.yml"));
    assert!(!phase_file_name("config.yml"));
    assert!(!phase_file_name("phase-1.yaml"));
    assert!(!phase_file_name("bugs.yml"));
}

#[test]
fn load_phases_without_directory_is_none() {
    assert!(load_phases(None).is_none());
}

#[test]
fn load_phases_keeps_phase_files_sorted_by_priority_stably() {
    let listing = vec![
        PhaseFile { name: "phase-b.yml".to_string(), phase: Some(phase("b", "B", "pending", 5, vec![])) },
        PhaseFile { name: "config.yml".to_string(), phase: Some(phase("x", "X", "pending", 0, vec![])) },
        PhaseFile { name: "phase-a.yml".to_string(), phase: Some(phase("a", "A", "pending", 1, vec![])) },
        PhaseFile { name: "phase-bad.yml".to_string(), phase: None },
        PhaseFile { name: "phase-c.yml".to_string(), phase: Some(phase("c", "C", "pending", 5, vec![])) },
    ];
    let phases = load_phases(Some(listing)).unwrap();
    let ids: Vec<&str> = phases.iter().map(|p| p.id.as_str()).collect();
    assert_eq!(ids, vec!["a", "b", "c"]);
}

#[test]
fn sort_by_priority_keeps_equal_priorities_in_order() {
    let sorted = sort_by_priority(vec![
        phase("1", "one", "pending", 3, vec![]),
        phase("2", "two", "pending", 1, vec![]),
        phase("3", "three", "pending", 3, vec![]),
        phase("4", "four", "pending", 2, vec![]),
    ]);
    let ids: Vec<&str> = sorted.iter().map(|p| p.id.as_str()).collect();
    assert_eq!(ids, vec!["2", "4", "1", "3"]);
}

#[test]
fn next_skips_blocked_tasks() {
    let mut blocked = task("1.2", "Blocked", "pending");
    blocked.blocked_by = vec!["1.1".to_string()];
    let phases = vec![phase(
        "1",
        "One",
        "in_progress",
        1,
        vec![task("1.1", "First", "pending"), blocked, task("1.3", "Doing", "in_progress")],
    )];
    assert!(is_blocked(&phases, &phases[0].tasks[1]));
    assert!(!is_blocked(&phases, &phases[0].tasks[0]));
    let next = next_tasks(&phases);
    assert_eq!(next, vec![(0, 2), (0, 0)]);
}

#[test]
fn next_unblocks_once_the_blocker_is_done() {
    let mut blocked = task("1.2", "Blocked", "pending");
    blocked.blocked_by = vec!["1.1".to_string()];
    let phases = vec![phase("1", "One", "in_progress", 1, vec![task("1.1", "First", "done"), blocked])];
    assert_eq!(next_tasks(&phases), vec![(0, 1)]);
}

#[test]
fn next_takes_the_first_ready_task_of_each_pending_phase() {
    let mut optional = task("2.1", "Nice", "pending");
    optional.optional = true;
    let phases = vec![
        phase("1", "One", "done", 1, vec![task("1.1", "Old", "done")]),
        phase("2", "Two", "pending", 2, vec![optional, task("2.2", "Real", "pending"), task("2.3", "Later", "pending")]),
    ];
    assert_eq!(next_tasks(&phases), vec![(1, 1)]);
}

#[test]
fn report_counts_tasks_by_status() {
    let mut optional = task("1.4", "Opt", "pending");
    optional.optional = true;
    let phases = vec![phase(
        "1",
        "One",
        "in_progress",
        1,
        vec![task("1.1", "a", "done"), task("1.2", "b", "in_progress"), task("1.3", "c", "pending"), optional],
    )];
    assert_eq!(count_all_tasks(&phases), 4);
    let report = build_report(&phases);
    assert_eq!(report.total_tasks, 4);
    assert_eq!(report.tasks_done, vec![(0, 0)]);
    assert_eq!(report.tasks_in_progress, vec![(0, 1)]);
    assert_eq!(report.phases_in_progress, vec![0]);
    assert_eq!(phase_progress(&phases[0]), (1, 4));
}

#[test]
fn add_refuses_in_order() {
    let facts = AddFacts { initialized: false, exists: true, parent_exists: false };
    let r = cmd_add("9".to_string(), "Nine".to_string(), None, None, facts, "2024-02-02".to_string());
    assert!(matches!(r, Err(AddError::NotInitialized)));
    let facts = AddFacts { initialized: true, exists: true, parent_exists: false };
    let r = cmd_add("9".to_string(), "Nine".to_string(), None, None, facts, "2024-02-02".to_string());
    assert!(matches!(r, Err(AddError::AlreadyExists)));
    let facts = AddFacts { initialized: true, exists: false, parent_exists: false };
    let r = cmd_add("9".to_string(), "Nine".to_string(), Some("1".to_string()), None, facts, "2024-02-02".to_string());
    assert!(matches!(r, Err(AddError::ParentMissing)));
}

#[test]
fn add_makes_a_pending_phase_dated_today() {
    let facts = AddFacts { initialized: true, exists: false, parent_exists: true };
    let p = cmd_add(
        "9".to_string(),
        "Nine".to_string(),
        Some("1".to_string()),
        Some(vec!["2".to_string()]),
        facts,
        "2024-02-02".to_string(),
    )
    .ok()
    .unwrap();
    assert_eq!(p.id, "9");
    assert_eq!(p.status, "pending");
    assert_eq!(p.priority, 10);
    assert_eq!(p.created_at, "2024-02-02");
    assert_eq!(p.parent, Some("1".to_string()));
    assert_eq!(p.depends_on, vec!["2".to_string()]);
}

#[test]
fn edit_changes_only_the_phase_found() {
    let mut phases = vec![phase("1", "One", "pending", 1, vec![]), phase("2", "Two", "pending", 2, vec![])];
    let r = cmd_edit(&mut phases, "2", Some("Deux".to_string()), None, None, "2024-03-03".to_string());
    assert_eq!(r.ok(), Some(1));
    assert_eq!(phases[1].name, "Deux");
    assert_eq!(phases[1].updated_at, "2024-03-03");
    assert_eq!(phases[0].name, "One");
    assert_eq!(phases[0].updated_at, "2024-01-01");
    let r = cmd_edit(&mut phases, "7", Some("x".to_string()), None, None, "2024-03-03".to_string());
    assert!(matches!(r, Err(EditError::NotFound)));
    let r = cmd_edit(&mut phases, "1", None, None, None, "2024-03-03".to_string());
    assert!(matches!(r, Err(EditError::NothingToChange)));
}

#[test]
fn priority_and_note_change_the_phase_found() {
    let mut phases = vec![phase("1", "One", "pending", 4, vec![])];
    assert_eq!(cmd_priority(&mut phases, "1", 2, "2024-04-04".to_string()), Some((0, 4)));
    assert_eq!(phases[0].priority, 2);
    assert_eq!(cmd_priority(&mut phases, "5", 2, "2024-04-04".to_string()), None);
    assert_eq!(cmd_note(&mut phases, "1", "Hello".to_string(), "2024-04-05".to_string()), Some(0));
    assert_eq!(phases[0].notes.len(), 1);
    assert_eq!(phases[0].notes[0].content, "Hello");
    assert_eq!(phases[0].notes[0].date, "2024-04-05");
    assert_eq!(find_phase(&phases, "1"), Some(0));
    assert_eq!(find_phase(&phases, "2"), None);
}

#[test]
fn status_change_gives_back_the_old_status() {
    assert!(is_valid_status("blocked"));
    assert!(!is_valid_status("finished"));
    let mut p = phase("1", "One", "pending", 1, vec![]);
    let before = set_phase_status(&mut p, "done".to_string(), "2024-05-05".to_string());
    assert_eq!(before, "pending");
    assert_eq!(p.status, "done");
    assert_eq!(p.updated_at, "2024-05-05");
    assert_eq!(status_icon("done"), "✅");
    assert_eq!(status_icon("in_progress"), "🔄");
    assert_eq!(status_icon("blocked"), "🚫");
    assert_eq!(status_icon("pending"), "⬜");
}

#[test]
fn templates_number_their_tasks_from_one() {
    assert_eq!(get_all_templates().len(), 6);
    assert!(get_template("nope").is_none());
    assert_eq!(make_task_id("7", 12), "7.12");
    let t = get_all_templates().into_iter().next().unwrap();
    let p = cmd_template(t.id, "7".to_string(), false, "2024-06-06".to_string()).ok().unwrap();
    assert_eq!(p.id, "7");
    assert_eq!(p.name, t.name);
    assert_eq!(p.tasks.len(), t.tasks.len());
    assert_eq!(p.tasks[0].id, "7.1");
    assert_eq!(p.tasks[0].name, t.tasks[0]);
    assert_eq!(p.priority, 10);
    assert_eq!(p.status, "pending");
    assert!(p.tasks.iter().all(|task| task.status == "pending" && !task.optional && task.parent.is_none()));
    assert!(matches!(cmd_template("nope", "7".to_string(), false, "d".to_string()), Err(TemplateError::Unknown)));
    assert!(matches!(cmd_template(t.id, "7".to_string(), true, "d".to_string()), Err(TemplateError::AlreadyExists)));
}

#[test]
fn search_ignores_case_and_lists_phase_tasks_notes() {
    let mut p = phase("1", "Auth Layer", "pending", 1, vec![task("1.1", "Login AUTH form", "pending"), task("1.2", "Other", "pending")]);
    p.notes.push(Note { date: "2024-01-02".to_string(), content: "auth decided".to_string() });
    let hits = search(&vec![p], "auth");
    assert_eq!(hits.len(), 3);
    assert!(matches!(hits[0], SearchHit::Phase(0)));
    assert!(matches!(hits[1], SearchHit::Task(0, 0)));
    assert!(matches!(hits[2], SearchHit::Note(0, 0)));
}

#[test]
fn export_renders_the_table_and_sections() {
    let mut sub = task("1.2", "Sub", "pending");
    sub.parent = Some("1.1".to_string());
    let mut opt = task("1.3", "Extra", "pending");
    opt.optional = true;
    let mut p = phase("1", "One", "in_progress", 1, vec![task("1.1", "Top", "done"), sub, opt]);
    p.description = "First".to_string();
    p.notes.push(Note { date: "2024-01-02".to_string(), content: "Go".to_string() });
    let md = render_markdown("Proj", "Desc", &vec![p]);
    let expected = [
        "# Proj - Roadmap\n\nDesc\n\n---\n\n## Phases\n\n",
        "| Phase | Nom | Statut | Priorité | Progression |\n",
        "|-------|-----|--------|----------|-------------|\n",
        "| 1 | One | 🔄 | 1 | 1/3 |\n",
        "\n---\n\n",
        "## Phase 1 — One 🔄\n\n",
        "First\n\n",
        "### Tâches\n\n",
        "- ✅ **1.1** — Top\n",
        "  - ⬜ 1.2 — Sub\n",
        "- ⬜ **1.3** — Extra *(optionnel)*\n",
        "\n",
        "### Notes\n\n",
        "- **2024-01-02** : Go\n",
        "\n",
        "---\n\n",
    ]
    .concat();
    assert_eq!(md, expected);
}
