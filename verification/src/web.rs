//! What the local web interface (`roadmap serve`) shows and answers: the
//! phases as JSON, the figures of the report, the data of its HTML pages
//! and the status change of the board.

use vstd::prelude::*;
use crate::model::{Phase, Task, Note};
use crate::context::{group_count, in_group, TaskGroup};
use crate::doctor::valid_status;
use crate::report::total_tasks;
use crate::text::{decimal, owned, push_str, push_decimal, str_eq};

verus! {

/// A phase in the JSON of the API.
pub struct ApiPhase {
    pub id: String,
    pub name: String,
    pub description: String,
    pub priority: u32,
    pub status: String,
    pub tasks_done: usize,
    pub tasks_total: usize,
}

/// A phase as the pages show it.
pub struct PhaseInfo {
    pub id: String,
    pub name: String,
    pub description: String,
    pub priority: u32,
    pub status: String,
    pub tasks_done: usize,
    pub tasks_total: usize,
}

/// A task as the phase page shows it.
pub struct TaskInfo {
    pub id: String,
    pub name: String,
    pub status: String,
    pub optional: bool,
    pub workflow_stage: Option<String>,
}

/// A note as the phase page shows it.
pub struct NoteInfo {
    pub date: String,
    pub content: String,
}

/// The data of the board page: the phases by status.
pub struct IndexTemplate {
    pub title: String,
    pub current_page: String,
    pub phases_pending: Vec<PhaseInfo>,
    pub phases_in_progress: Vec<PhaseInfo>,
    pub phases_done: Vec<PhaseInfo>,
    pub phases_blocked: Vec<PhaseInfo>,
}

/// The data of the page that lists the phases.
pub struct PhasesTemplate {
    pub title: String,
    pub current_page: String,
    pub phases: Vec<PhaseInfo>,
}

/// The data of the page of one phase.
pub struct PhaseTemplate {
    pub title: String,
    pub current_page: String,
    pub phase: PhaseInfo,
    pub tasks: Vec<TaskInfo>,
    pub notes: Vec<NoteInfo>,
}

/// The data of an error page.
pub struct ErrorTemplate {
    pub title: String,
    pub current_page: String,
    pub error_code: u16,
    pub error_message: String,
}

/// The body of a status change of the board.
pub struct UpdateStatusRequest {
    pub status: String,
}

/// The number of tasks done of a phase.
pub open spec fn tasks_done_of(p: Phase) -> nat {
    group_count(p.tasks@, TaskGroup::Done, p.tasks@.len() as int)
}

/// The number of tasks done of a phase.
fn count_done(tasks: &Vec<Task>) -> (r: usize)
    ensures
        r == group_count(tasks@, TaskGroup::Done, tasks@.len() as int),
{
    let mut r: usize = 0;
    let mut i: usize = 0;
    while i < tasks.len()
        invariant
            i <= tasks@.len(),
            r == group_count(tasks@, TaskGroup::Done, i as int),
            r <= i,
        decreases tasks@.len() - i,
    {
        if str_eq(tasks[i].status.as_str(), "done") {
            r = r + 1;
        }
        i = i + 1;
    }
    r
}

/// The phase's fields and task counts, as the API gives them.
pub open spec fn is_api_phase(a: ApiPhase, p: Phase) -> bool {
    &&& a.id == p.id
    &&& a.name == p.name
    &&& a.description == p.description
    &&& a.priority == p.priority
    &&& a.status == p.status
    &&& a.tasks_done == tasks_done_of(p)
    &&& a.tasks_total == p.tasks@.len()
}

/// A phase in the JSON of the API.
pub fn api_phase(p: &Phase) -> (r: ApiPhase)
    ensures
        is_api_phase(r, *p),
{
    ApiPhase {
        id: p.id.clone(),
        name: p.name.clone(),
        description: p.description.clone(),
        priority: p.priority,
        status: p.status.clone(),
        tasks_done: count_done(&p.tasks),
        tasks_total: p.tasks.len(),
    }
}

/// The phase's fields and task counts, as the pages show them.
pub open spec fn is_phase_info(a: PhaseInfo, p: Phase) -> bool {
    &&& a.id == p.id
    &&& a.name == p.name
    &&& a.description == p.description
    &&& a.priority == p.priority
    &&& a.status == p.status
    &&& a.tasks_done == tasks_done_of(p)
    &&& a.tasks_total == p.tasks@.len()
}

/// A phase as the pages show it.
pub fn phase_info(p: &Phase) -> (r: PhaseInfo)
    ensures
        is_phase_info(r, *p),
{
    PhaseInfo {
        id: p.id.clone(),
        name: p.name.clone(),
        description: p.description.clone(),
        priority: p.priority,
        status: p.status.clone(),
        tasks_done: count_done(&p.tasks),
        tasks_total: p.tasks.len(),
    }
}

/// The task's fields that the phase page shows.
pub open spec fn is_task_info(a: TaskInfo, t: Task) -> bool {
    &&& a.id == t.id
    &&& a.name == t.name
    &&& a.status == t.status
    &&& a.optional == t.optional
    &&& a.workflow_stage == t.workflow_stage
}

/// A task as the phase page shows it.
pub fn task_info(t: &Task) -> (r: TaskInfo)
    ensures
        is_task_info(r, *t),
{
    TaskInfo {
        id: t.id.clone(),
        name: t.name.clone(),
        status: t.status.clone(),
        optional: t.optional,
        workflow_stage: t.workflow_stage.clone(),
    }
}

/// The positions, among the first `n` phases, of those with the status.
pub open spec fn phases_at_status(phases: Seq<Phase>, status: Seq<char>, n: int) -> Seq<int>
    decreases n,
{
    if n <= 0 {
        Seq::empty()
    } else {
        phases_at_status(phases, status, n - 1) + if phases[n - 1].status@ == status {
            seq![n - 1]
        } else {
            Seq::empty()
        }
    }
}

/// The infos of the phases with the status, in order.
pub open spec fn infos_for(infos: Seq<PhaseInfo>, phases: Seq<Phase>, at: Seq<int>) -> bool {
    &&& infos.len() == at.len()
    &&& forall|k: int| 0 <= k < at.len() ==> is_phase_info(#[trigger] infos[k], phases[at[k]])
}

/// The infos of the phases with the status, in order.
fn infos_with_status(phases: &Vec<Phase>, status: &str) -> (r: Vec<PhaseInfo>)
    ensures
        infos_for(r@, phases@, phases_at_status(phases@, status@, phases@.len() as int)),
{
    let mut r: Vec<PhaseInfo> = Vec::new();
    let mut i: usize = 0;
    while i < phases.len()
        invariant
            i <= phases@.len(),
            infos_for(r@, phases@, phases_at_status(phases@, status@, i as int)),
            forall|k: int|
                0 <= k < phases_at_status(phases@, status@, i as int).len() ==> 0 <= #[trigger] phases_at_status(
                    phases@,
                    status@,
                    i as int,
                )[k] < i,
        decreases phases@.len() - i,
    {
        if str_eq(phases[i].status.as_str(), status) {
            r.push(phase_info(&phases[i]));
        }
        i = i + 1;
    }
    r
}

/// The data of the board page: the phases pending, in progress, done and
/// blocked, each in roadmap order.
pub fn index_page(phases: &Vec<Phase>) -> (r: IndexTemplate)
    ensures
        r.title@ == "Roadmap - Kanban"@,
        r.current_page@ == "index"@,
        infos_for(r.phases_pending@, phases@, phases_at_status(phases@, "pending"@, phases@.len() as int)),
        infos_for(r.phases_in_progress@, phases@, phases_at_status(phases@, "in_progress"@, phases@.len() as int)),
        infos_for(r.phases_done@, phases@, phases_at_status(phases@, "done"@, phases@.len() as int)),
        infos_for(r.phases_blocked@, phases@, phases_at_status(phases@, "blocked"@, phases@.len() as int)),
{
    IndexTemplate {
        title: owned("Roadmap - Kanban"),
        current_page: owned("index"),
        phases_pending: infos_with_status(phases, "pending"),
        phases_in_progress: infos_with_status(phases, "in_progress"),
        phases_done: infos_with_status(phases, "done"),
        phases_blocked: infos_with_status(phases, "blocked"),
    }
}

/// The data of the page that lists all phases, in roadmap order.
pub fn phases_page(phases: &Vec<Phase>) -> (r: PhasesTemplate)
    ensures
        r.title@ == "Roadmap - Phases"@,
        r.current_page@ == "phases"@,
        r.phases@.len() == phases@.len(),
        forall|k: int| 0 <= k < phases@.len() ==> is_phase_info(#[trigger] r.phases@[k], phases@[k]),
{
    let mut infos: Vec<PhaseInfo> = Vec::new();
    let mut i: usize = 0;
    while i < phases.len()
        invariant
            i <= phases@.len(),
            infos@.len() == i,
            forall|k: int| 0 <= k < i ==> is_phase_info(#[trigger] infos@[k], phases@[k]),
        decreases phases@.len() - i,
    {
        infos.push(phase_info(&phases[i]));
        i = i + 1;
    }
    PhasesTemplate { title: owned("Roadmap - Phases"), current_page: owned("phases"), phases: infos }
}

/// The data of an error page with this code and message.
pub fn error_page(code: u16, message: &str) -> (r: ErrorTemplate)
    ensures
        r.title@ == "Erreur "@ + decimal(code as nat),
        r.current_page@ == Seq::<char>::empty(),
        r.error_code == code,
        r.error_message@ == message@,
{
    let mut title = String::new();
    push_str(&mut title, "Erreur ");
    push_decimal(&mut title, code as u64);
    ErrorTemplate { title, current_page: String::new(), error_code: code, error_message: owned(message) }
}

/// The error page shown before the roadmap is set up.
pub fn not_initialized_page() -> (r: ErrorTemplate)
    ensures
        r.title@ == "Erreur "@ + decimal(503),
        r.error_code == 503,
        r.error_message@ == "Roadmap non initialisée. Lancez: roadmap init"@,
{
    error_page(503, "Roadmap non initialisée. Lancez: roadmap init")
}

/// The positions, among the first `n` tasks, of the top-level ones.
pub open spec fn top_level_at(tasks: Seq<Task>, n: int) -> Seq<int>
    decreases n,
{
    if n <= 0 {
        Seq::empty()
    } else {
        top_level_at(tasks, n - 1) + if tasks[n - 1].parent is None {
            seq![n - 1]
        } else {
            Seq::empty()
        }
    }
}

/// The infos of a phase's top-level tasks, in order.
fn top_level_infos(tasks: &Vec<Task>) -> (r: Vec<TaskInfo>)
    ensures
        r@.len() == top_level_at(tasks@, tasks@.len() as int).len(),
        forall|k: int|
            0 <= k < r@.len() ==> is_task_info(#[trigger] r@[k], tasks@[top_level_at(tasks@, tasks@.len() as int)[k]]),
{
    let mut r: Vec<TaskInfo> = Vec::new();
    let mut i: usize = 0;
    while i < tasks.len()
        invariant
            i <= tasks@.len(),
            r@.len() == top_level_at(tasks@, i as int).len(),
            forall|k: int| 0 <= k < r@.len() ==> is_task_info(#[trigger] r@[k], tasks@[top_level_at(tasks@, i as int)[k]]),
            forall|k: int|
                0 <= k < top_level_at(tasks@, i as int).len() ==> 0 <= #[trigger] top_level_at(tasks@, i as int)[k] < i,
        decreases tasks@.len() - i,
    {
        if tasks[i].parent.is_none() {
            r.push(task_info(&tasks[i]));
        }
        i = i + 1;
    }
    r
}

/// The data of the page of one phase: titled `Phase <id> - <name>`, with
/// its top-level tasks and its notes.
pub open spec fn is_phase_page(r: PhaseTemplate, p: Phase) -> bool {
    &&& r.title@ == "Phase "@ + p.id@ + " - "@ + p.name@
    &&& r.current_page@ == "phases"@
    &&& is_phase_info(r.phase, p)
    &&& r.tasks@.len() == top_level_at(p.tasks@, p.tasks@.len() as int).len()
    &&& forall|k: int|
        0 <= k < r.tasks@.len() ==> is_task_info(#[trigger] r.tasks@[k], p.tasks@[top_level_at(p.tasks@, p.tasks@.len() as int)[k]])
    &&& r.notes@.len() == p.notes@.len()
    &&& forall|k: int|
        0 <= k < r.notes@.len() ==> (#[trigger] r.notes@[k]).date == p.notes@[k].date && r.notes@[k].content
            == p.notes@[k].content
}

/// The data of the page of the first phase with this id, or of the error
/// page that says it is missing.
pub fn phase_page(phases: &Vec<Phase>, id: &str) -> (r: Result<PhaseTemplate, ErrorTemplate>)
    ensures
        forall|i: int| crate::phase_ops::first_phase_with(phases@, id@, i) ==> (r matches Ok(page) && is_phase_page(
            page,
            #[trigger] phases@[i],
        )),
        (forall|j: int| 0 <= j < phases@.len() ==> phases@[j].id@ != id@) ==> (r matches Err(e) && e.error_code
            == 404 && e.error_message@ == "Phase "@ + id@ + " non trouvée"@),
{
    let i = match crate::phase_ops::find_phase(phases, id) {
        Some(i) => i,
        None => {
            let mut m = String::new();
            push_str(&mut m, "Phase ");
            push_str(&mut m, id);
            push_str(&mut m, " non trouvée");
            return Err(error_page(404, m.as_str()));
        },
    };
    let p = &phases[i];
    let mut title = String::new();
    push_str(&mut title, "Phase ");
    push_str(&mut title, p.id.as_str());
    push_str(&mut title, " - ");
    push_str(&mut title, p.name.as_str());
    let mut notes: Vec<NoteInfo> = Vec::new();
    let mut k: usize = 0;
    while k < p.notes.len()
        invariant
            k <= p.notes@.len(),
            notes@.len() == k,
            forall|j: int|
                0 <= j < k ==> (#[trigger] notes@[j]).date == p.notes@[j].date && notes@[j].content == p.notes@[j].content,
        decreases p.notes@.len() - k,
    {
        notes.push(NoteInfo { date: p.notes[k].date.clone(), content: p.notes[k].content.clone() });
        k = k + 1;
    }
    let page = PhaseTemplate {
        title,
        current_page: owned("phases"),
        phase: phase_info(p),
        tasks: top_level_infos(&p.tasks),
        notes,
    };
    assert(page.title@ =~= "Phase "@ + p.id@ + " - "@ + p.name@);
    Ok(page)
}

/// The number of tasks with the status over the first `n` phases.
pub open spec fn status_tasks(phases: Seq<Phase>, status: Seq<char>, n: int) -> nat
    decreases n,
{
    if n <= 0 {
        0
    } else {
        status_tasks(phases, status, n - 1) + status_count(phases[n - 1].tasks@, status, phases[n - 1].tasks@.len() as int)
    }
}

/// The number of tasks with the status among the first `n`.
pub open spec fn status_count(tasks: Seq<Task>, status: Seq<char>, n: int) -> nat
    decreases n,
{
    if n <= 0 {
        0
    } else {
        status_count(tasks, status, n - 1) + if tasks[n - 1].status@ == status {
            1nat
        } else {
            0nat
        }
    }
}

/// The number of optional tasks among the first `n`.
pub open spec fn optional_count(tasks: Seq<Task>, n: int) -> nat
    decreases n,
{
    if n <= 0 {
        0
    } else {
        optional_count(tasks, n - 1) + if tasks[n - 1].optional {
            1nat
        } else {
            0nat
        }
    }
}

/// The number of optional tasks over the first `n` phases.
pub open spec fn optional_tasks(phases: Seq<Phase>, n: int) -> nat
    decreases n,
{
    if n <= 0 {
        0
    } else {
        optional_tasks(phases, n - 1) + optional_count(phases[n - 1].tasks@, phases[n - 1].tasks@.len() as int)
    }
}

/// The three statuses that count for progress differ.
proof fn lemma_statuses_differ()
    ensures
        "done"@ != "pending"@,
        "done"@ != "in_progress"@,
        "in_progress"@ != "pending"@,
{
    reveal_strlit("done");
    reveal_strlit("in_progress");
    reveal_strlit("pending");
    assert("done"@.len() != "pending"@.len());
    assert("done"@.len() != "in_progress"@.len());
    assert("in_progress"@.len() != "pending"@.len());
}

/// Tasks done, in progress and pending are no more than the tasks.
proof fn lemma_status_counts(tasks: Seq<Task>, n: int)
    requires
        0 <= n <= tasks.len(),
    ensures
        status_count(tasks, "done"@, n) + status_count(tasks, "in_progress"@, n) + status_count(
            tasks,
            "pending"@,
            n,
        ) <= n,
        optional_count(tasks, n) <= n,
    decreases n,
{
    if n > 0 {
        lemma_status_counts(tasks, n - 1);
        lemma_statuses_differ();
    }
}

/// Over all phases too.
proof fn lemma_all_status_counts(phases: Seq<Phase>, n: int)
    requires
        0 <= n <= phases.len(),
    ensures
        status_tasks(phases, "done"@, n) + status_tasks(phases, "in_progress"@, n) + status_tasks(
            phases,
            "pending"@,
            n,
        ) <= total_tasks(phases, n),
        optional_tasks(phases, n) <= total_tasks(phases, n),
    decreases n,
{
    if n > 0 {
        lemma_all_status_counts(phases, n - 1);
        lemma_status_counts(phases[n - 1].tasks@, phases[n - 1].tasks@.len() as int);
    }
}

/// The figures of the API's report; the progress is `tasks_done` over
/// `required_tasks` (done, in progress or pending).
pub struct ReportCounts {
    pub total_phases: usize,
    pub phases_done: usize,
    pub phases_in_progress: usize,
    pub phases_pending: usize,
    pub phases_blocked: usize,
    pub total_tasks: usize,
    pub tasks_done: usize,
    pub tasks_in_progress: usize,
    pub tasks_pending: usize,
    pub tasks_optional: usize,
    pub required_tasks: usize,
}

/// The counts of tasks of a phase: done, in progress, pending, optional.
fn phase_task_counts(tasks: &Vec<Task>) -> (r: (usize, usize, usize, usize))
    ensures
        r.0 == status_count(tasks@, "done"@, tasks@.len() as int),
        r.1 == status_count(tasks@, "in_progress"@, tasks@.len() as int),
        r.2 == status_count(tasks@, "pending"@, tasks@.len() as int),
        r.3 == optional_count(tasks@, tasks@.len() as int),
{
    let mut done: usize = 0;
    let mut doing: usize = 0;
    let mut pending: usize = 0;
    let mut optional: usize = 0;
    let mut i: usize = 0;
    while i < tasks.len()
        invariant
            i <= tasks@.len(),
            done == status_count(tasks@, "done"@, i as int),
            doing == status_count(tasks@, "in_progress"@, i as int),
            pending == status_count(tasks@, "pending"@, i as int),
            optional == optional_count(tasks@, i as int),
            done + doing + pending <= i,
            optional <= i,
        decreases tasks@.len() - i,
    {
        proof {
            lemma_status_counts(tasks@, i + 1);
            lemma_statuses_differ();
        }
        let t = &tasks[i];
        if t.optional {
            optional = optional + 1;
        }
        if str_eq(t.status.as_str(), "done") {
            done = done + 1;
        } else if str_eq(t.status.as_str(), "in_progress") {
            doing = doing + 1;
        } else if str_eq(t.status.as_str(), "pending") {
            pending = pending + 1;
        }
        i = i + 1;
    }
    (done, doing, pending, optional)
}

/// The figures of the API's report over the phases.
pub fn report_counts(phases: &Vec<Phase>) -> (r: ReportCounts)
    requires
        total_tasks(phases@, phases@.len() as int) <= usize::MAX,
    ensures
        r.total_phases == phases@.len(),
        r.phases_done == crate::context::phases_with_status(phases@, "done"@, phases@.len() as int),
        r.phases_in_progress == crate::context::phases_with_status(phases@, "in_progress"@, phases@.len() as int),
        r.phases_pending == crate::context::phases_with_status(phases@, "pending"@, phases@.len() as int),
        r.phases_blocked == crate::context::phases_with_status(phases@, "blocked"@, phases@.len() as int),
        r.total_tasks == total_tasks(phases@, phases@.len() as int),
        r.tasks_done == status_tasks(phases@, "done"@, phases@.len() as int),
        r.tasks_in_progress == status_tasks(phases@, "in_progress"@, phases@.len() as int),
        r.tasks_pending == status_tasks(phases@, "pending"@, phases@.len() as int),
        r.tasks_optional == optional_tasks(phases@, phases@.len() as int),
        r.required_tasks == r.tasks_done + r.tasks_in_progress + r.tasks_pending,
{
    let mut done: usize = 0;
    let mut doing: usize = 0;
    let mut pending: usize = 0;
    let mut optional: usize = 0;
    let mut i: usize = 0;
    while i < phases.len()
        invariant
            i <= phases@.len(),
            total_tasks(phases@, phases@.len() as int) <= usize::MAX,
            done == status_tasks(phases@, "done"@, i as int),
            doing == status_tasks(phases@, "in_progress"@, i as int),
            pending == status_tasks(phases@, "pending"@, i as int),
            optional == optional_tasks(phases@, i as int),
        decreases phases@.len() - i,
    {
        proof {
            lemma_all_status_counts(phases@, i + 1);
            crate::context::lemma_total_tasks_mono(phases@, i + 1, phases@.len() as int);
        }
        let (d, g, p, o) = phase_task_counts(&phases[i].tasks);
        done = done + d;
        doing = doing + g;
        pending = pending + p;
        optional = optional + o;
        i = i + 1;
    }
    proof {
        lemma_all_status_counts(phases@, phases@.len() as int);
    }
    ReportCounts {
        total_phases: phases.len(),
        phases_done: crate::context::count_phases_with(phases, "done"),
        phases_in_progress: crate::context::count_phases_with(phases, "in_progress"),
        phases_pending: crate::context::count_phases_with(phases, "pending"),
        phases_blocked: crate::context::count_phases_with(phases, "blocked"),
        total_tasks: crate::report::count_all_tasks(phases),
        tasks_done: done,
        tasks_in_progress: doing,
        tasks_pending: pending,
        tasks_optional: optional,
        required_tasks: done + doing + pending,
    }
}

/// The phases in progress as the API's report lists them, in order.
pub fn report_phases_in_progress(phases: &Vec<Phase>) -> (r: Vec<ApiPhase>)
    ensures
        r@.len() == phases_at_status(phases@, "in_progress"@, phases@.len() as int).len(),
        forall|k: int|
            0 <= k < r@.len() ==> is_api_phase(
                #[trigger] r@[k],
                phases@[phases_at_status(phases@, "in_progress"@, phases@.len() as int)[k]],
            ),
{
    let mut r: Vec<ApiPhase> = Vec::new();
    let mut i: usize = 0;
    while i < phases.len()
        invariant
            i <= phases@.len(),
            r@.len() == phases_at_status(phases@, "in_progress"@, i as int).len(),
            forall|k: int|
                0 <= k < r@.len() ==> is_api_phase(#[trigger] r@[k], phases@[phases_at_status(phases@, "in_progress"@, i as int)[k]]),
            forall|k: int|
                0 <= k < phases_at_status(phases@, "in_progress"@, i as int).len() ==> 0 <= #[trigger] phases_at_status(
                    phases@,
                    "in_progress"@,
                    i as int,
                )[k] < i,
        decreases phases@.len() - i,
    {
        if str_eq(phases[i].status.as_str(), "in_progress") {
            r.push(api_phase(&phases[i]));
        }
        i = i + 1;
    }
    r
}

/// Checks the status of a board request: one of `pending`, `in_progress`,
/// `done`, `blocked`, else the message of the refusal.
pub fn check_status_request(req: &UpdateStatusRequest) -> (r: Result<(), String>)
    ensures
        r is Ok <==> valid_status(req.status@),
        r matches Err(m) ==> m@ == "Statut invalide: "@ + req.status@,
{
    if crate::phase_ops::is_valid_status(req.status.as_str()) {
        Ok(())
    } else {
        let mut m = String::new();
        push_str(&mut m, "Statut invalide: ");
        push_str(&mut m, req.status.as_str());
        Err(m)
    }
}

} // verus!
