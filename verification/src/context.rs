//! `roadmap context`: the state of the roadmap as Markdown, for a reader
//! (or a language model) who needs the essentials at a glance.

use vstd::prelude::*;
use crate::model::{Phase, Task};
use crate::report::total_tasks;
use crate::text::{decimal, join_with, strings_view, push_str, push_decimal, join_strings, str_eq};

verus! {

/// A group of tasks that the context lists.
pub enum TaskGroup {
    /// Tasks in progress.
    InProgress,
    /// Pending tasks that are not optional.
    Todo,
    /// Optional tasks not done yet.
    Optional,
    /// Blocked tasks.
    Blocked,
    /// Tasks done.
    Done,
}

/// Whether a task belongs to a group.
pub open spec fn in_group(g: TaskGroup, t: Task) -> bool {
    match g {
        TaskGroup::InProgress => t.status@ == "in_progress"@,
        TaskGroup::Todo => t.status@ == "pending"@ && !t.optional,
        TaskGroup::Optional => t.optional && t.status@ != "done"@,
        TaskGroup::Blocked => t.status@ == "blocked"@,
        TaskGroup::Done => t.status@ == "done"@,
    }
}

/// Whether a task belongs to a group.
fn belongs(g: &TaskGroup, t: &Task) -> (r: bool)
    ensures
        r == in_group(*g, *t),
{
    match g {
        TaskGroup::InProgress => str_eq(t.status.as_str(), "in_progress"),
        TaskGroup::Todo => str_eq(t.status.as_str(), "pending") && !t.optional,
        TaskGroup::Optional => t.optional && !str_eq(t.status.as_str(), "done"),
        TaskGroup::Blocked => str_eq(t.status.as_str(), "blocked"),
        TaskGroup::Done => str_eq(t.status.as_str(), "done"),
    }
}

/// The number of the first `n` tasks in a group.
pub open spec fn group_count(tasks: Seq<Task>, g: TaskGroup, n: int) -> nat
    decreases n,
{
    if n <= 0 {
        0
    } else {
        group_count(tasks, g, n - 1) + if in_group(g, tasks[n - 1]) {
            1nat
        } else {
            0nat
        }
    }
}

/// The number of tasks of a phase in a group.
fn count_in_group(tasks: &Vec<Task>, g: &TaskGroup) -> (r: usize)
    ensures
        r == group_count(tasks@, *g, tasks@.len() as int),
        r <= tasks@.len(),
{
    let mut r: usize = 0;
    let mut i: usize = 0;
    while i < tasks.len()
        invariant
            i <= tasks@.len(),
            r == group_count(tasks@, *g, i as int),
            r <= i,
        decreases tasks@.len() - i,
    {
        if belongs(g, &tasks[i]) {
            r = r + 1;
        }
        i = i + 1;
    }
    r
}

/// A list of names, when there is one: `<label><a>, <b>`, on its own line.
pub open spec fn list_line(label: Seq<char>, items: Seq<String>) -> Seq<char> {
    if items.len() > 0 {
        label + join_with(strings_view(items), ", "@) + "\n"@
    } else {
        Seq::empty()
    }
}

/// Appends a list of names, when there is one.
fn push_list(out: &mut String, label: &str, items: &Vec<String>)
    ensures
        final(out)@ == old(out)@ + list_line(label@, items@),
{
    if items.len() > 0 {
        push_str(out, label);
        let j = join_strings(items, ", ");
        push_str(out, j.as_str());
        push_str(out, "\n");
    }
}

/// The short entry of a task: its id and name, then its files.
pub open spec fn brief_entry(t: Task) -> Seq<char> {
    "- ["@ + t.id@ + "] "@ + t.name@ + "\n"@ + list_line("  Fichiers: "@, t.files@)
}

/// The detailed entry of a task: its id and name, then its description,
/// files, tags and blockers.
pub open spec fn detail_entry(t: Task) -> Seq<char> {
    "- ["@ + t.id@ + "] "@ + t.name@ + "\n"@ + match t.description {
        Some(d) => "  "@ + d@ + "\n"@,
        None => Seq::empty(),
    } + list_line("  Fichiers: "@, t.files@) + list_line("  Tags: "@, t.tags@) + list_line(
        "  Bloqué par: "@,
        t.blocked_by@,
    )
}

/// The entry of a task done.
pub open spec fn done_entry(t: Task) -> Seq<char> {
    "- ["@ + t.id@ + "] ✅ "@ + t.name@ + "\n"@
}

/// How a list shows its tasks.
pub enum EntryStyle {
    Brief,
    Detail,
    Done,
}

/// The entry of a task in a style.
pub open spec fn entry(style: EntryStyle, t: Task) -> Seq<char> {
    match style {
        EntryStyle::Brief => brief_entry(t),
        EntryStyle::Detail => detail_entry(t),
        EntryStyle::Done => done_entry(t),
    }
}

/// The entries of the first `n` tasks that are in the group.
pub open spec fn group_entries(tasks: Seq<Task>, g: TaskGroup, style: EntryStyle, n: int) -> Seq<char>
    decreases n,
{
    if n <= 0 {
        Seq::empty()
    } else {
        group_entries(tasks, g, style, n - 1) + if in_group(g, tasks[n - 1]) {
            entry(style, tasks[n - 1])
        } else {
            Seq::empty()
        }
    }
}

/// Appends the entry of a task.
fn push_entry(out: &mut String, style: &EntryStyle, t: &Task)
    ensures
        final(out)@ == old(out)@ + entry(*style, *t),
{
    push_str(out, "- [");
    push_str(out, t.id.as_str());
    match style {
        EntryStyle::Done => {
            push_str(out, "] ✅ ");
            push_str(out, t.name.as_str());
            push_str(out, "\n");
        },
        EntryStyle::Brief => {
            push_str(out, "] ");
            push_str(out, t.name.as_str());
            push_str(out, "\n");
            push_list(out, "  Fichiers: ", &t.files);
        },
        EntryStyle::Detail => {
            push_str(out, "] ");
            push_str(out, t.name.as_str());
            push_str(out, "\n");
            match &t.description {
                Some(d) => {
                    push_str(out, "  ");
                    push_str(out, d.as_str());
                    push_str(out, "\n");
                },
                None => {},
            }
            push_list(out, "  Fichiers: ", &t.files);
            push_list(out, "  Tags: ", &t.tags);
            push_list(out, "  Bloqué par: ", &t.blocked_by);
        },
    }
}

/// Appends the entries of the tasks in the group.
fn push_group(out: &mut String, tasks: &Vec<Task>, g: &TaskGroup, style: &EntryStyle)
    ensures
        final(out)@ == old(out)@ + group_entries(tasks@, *g, *style, tasks@.len() as int),
{
    let ghost start = out@;
    let mut i: usize = 0;
    assert(start + group_entries(tasks@, *g, *style, 0) =~= start);
    while i < tasks.len()
        invariant
            i <= tasks@.len(),
            out@ == start + group_entries(tasks@, *g, *style, i as int),
        decreases tasks@.len() - i,
    {
        if belongs(g, &tasks[i]) {
            push_entry(out, style, &tasks[i]);
        }
        i = i + 1;
    }
}

/// A titled section listing the tasks of a group, when there are some.
pub open spec fn group_section(tasks: Seq<Task>, g: TaskGroup, style: EntryStyle, head: Seq<char>) -> Seq<
    char,
> {
    if group_count(tasks, g, tasks.len() as int) > 0 {
        head + group_entries(tasks, g, style, tasks.len() as int)
    } else {
        Seq::empty()
    }
}

/// Appends a titled section listing the tasks of a group, when there are
/// some.
fn push_group_section(out: &mut String, tasks: &Vec<Task>, g: &TaskGroup, style: &EntryStyle, head: &str)
    ensures
        final(out)@ == old(out)@ + group_section(tasks@, *g, *style, head@),
{
    if count_in_group(tasks, g) > 0 {
        push_str(out, head);
        push_group(out, tasks, g, style);
    }
}

/// The line of a note.
pub open spec fn note_entry(date: Seq<char>, content: Seq<char>) -> Seq<char> {
    "- "@ + date + ": "@ + content + "\n"@
}

/// The last `m` notes of a phase, newest first.
pub open spec fn recent_notes(p: Phase, m: int) -> Seq<char>
    decreases m,
{
    if m <= 0 {
        Seq::empty()
    } else {
        let note = p.notes@[p.notes@.len() - m];
        recent_notes(p, m - 1) + note_entry(note.date@, note.content@)
    }
}

/// The first `n` notes of a phase, in order.
pub open spec fn all_notes(p: Phase, n: int) -> Seq<char>
    decreases n,
{
    if n <= 0 {
        Seq::empty()
    } else {
        let note = p.notes@[n - 1];
        all_notes(p, n - 1) + note_entry(note.date@, note.content@)
    }
}

/// The description of a phase as a paragraph, when it has one.
pub open spec fn paragraph(d: Seq<char>) -> Seq<char> {
    if d.len() > 0 {
        d + "\n\n"@
    } else {
        Seq::empty()
    }
}

/// A list of a phase in progress, followed by a blank line, when it has
/// tasks.
pub open spec fn focus_list(tasks: Seq<Task>, g: TaskGroup, head: Seq<char>) -> Seq<char> {
    group_section(tasks, g, EntryStyle::Brief, head) + if group_count(tasks, g, tasks.len() as int) > 0 {
        "\n"@
    } else {
        Seq::empty()
    }
}

/// The last three notes of a phase, newest first, when it has some.
pub open spec fn focus_notes(p: Phase) -> Seq<char> {
    if p.notes@.len() > 0 {
        "**Notes récentes:**\n"@ + recent_notes(p, if p.notes@.len() < 3 {
            p.notes@.len() as int
        } else {
            3
        }) + "\n"@
    } else {
        Seq::empty()
    }
}

/// What the context says of a phase in progress.
pub open spec fn focus_block(p: Phase) -> Seq<char> {
    "### Phase "@ + p.id@ + " — "@ + p.name@ + "\n\n"@ + paragraph(p.description@) + focus_list(
        p.tasks@,
        TaskGroup::InProgress,
        "**En cours:**\n"@,
    ) + focus_list(p.tasks@, TaskGroup::Todo, "**À faire:**\n"@) + focus_notes(p)
}

/// Appends a description as a paragraph, when there is one.
fn push_paragraph(out: &mut String, d: &String)
    ensures
        final(out)@ == old(out)@ + paragraph(d@),
{
    if crate::text::chars_of(d.as_str()).len() > 0 {
        push_str(out, d.as_str());
        push_str(out, "\n\n");
    }
}

/// Appends the last notes of a phase, newest first.
fn push_recent_notes(out: &mut String, p: &Phase)
    ensures
        final(out)@ == old(out)@ + recent_notes(*p, if p.notes@.len() < 3 {
            p.notes@.len() as int
        } else {
            3
        }),
{
    let n = p.notes.len();
    let m: usize = if n < 3 {
        n
    } else {
        3
    };
    let ghost start = out@;
    let mut k: usize = 0;
    assert(start + recent_notes(*p, 0) =~= start);
    while k < m
        invariant
            n == p.notes@.len(),
            m <= n,
            k <= m,
            out@ == start + recent_notes(*p, k as int),
        decreases m - k,
    {
        let note = &p.notes[n - 1 - k];
        push_str(out, "- ");
        push_str(out, note.date.as_str());
        push_str(out, ": ");
        push_str(out, note.content.as_str());
        push_str(out, "\n");
        k = k + 1;
    }
}

/// Appends a list of a phase in progress (see `focus_list`).
fn push_focus_list(out: &mut String, tasks: &Vec<Task>, g: &TaskGroup, head: &str)
    ensures
        final(out)@ == old(out)@ + focus_list(tasks@, *g, head@),
{
    let ghost start = out@;
    push_group_section(out, tasks, g, &EntryStyle::Brief, head);
    let ghost mid = out@;
    if count_in_group(tasks, g) > 0 {
        push_str(out, "\n");
    }
    assert(out@ =~= start + focus_list(tasks@, *g, head@));
}

/// Appends the last notes of a phase (see `focus_notes`).
fn push_focus_notes(out: &mut String, p: &Phase)
    ensures
        final(out)@ == old(out)@ + focus_notes(*p),
{
    let ghost start = out@;
    if p.notes.len() > 0 {
        push_str(out, "**Notes récentes:**\n");
        push_recent_notes(out, p);
        push_str(out, "\n");
    }
    assert(out@ =~= start + focus_notes(*p));
}

/// Appends what the context says of a phase in progress.
fn push_focus_block(out: &mut String, p: &Phase)
    ensures
        final(out)@ == old(out)@ + focus_block(*p),
{
    let ghost start = out@;
    push_str(out, "### Phase ");
    push_str(out, p.id.as_str());
    push_str(out, " — ");
    push_str(out, p.name.as_str());
    push_str(out, "\n\n");
    push_paragraph(out, &p.description);
    push_focus_list(out, &p.tasks, &TaskGroup::InProgress, "**En cours:**\n");
    push_focus_list(out, &p.tasks, &TaskGroup::Todo, "**À faire:**\n");
    push_focus_notes(out, p);
    assert(out@ =~= start + focus_block(*p));
}

/// The number of the first `n` phases with the status.
pub open spec fn phases_with_status(phases: Seq<Phase>, status: Seq<char>, n: int) -> nat
    decreases n,
{
    if n <= 0 {
        0
    } else {
        phases_with_status(phases, status, n - 1) + if phases[n - 1].status@ == status {
            1nat
        } else {
            0nat
        }
    }
}

/// The number of phases with the status.
pub fn count_phases_with(phases: &Vec<Phase>, status: &str) -> (r: usize)
    ensures
        r == phases_with_status(phases@, status@, phases@.len() as int),
{
    let mut r: usize = 0;
    let mut i: usize = 0;
    while i < phases.len()
        invariant
            i <= phases@.len(),
            r == phases_with_status(phases@, status@, i as int),
            r <= i,
        decreases phases@.len() - i,
    {
        if str_eq(phases[i].status.as_str(), status) {
            r = r + 1;
        }
        i = i + 1;
    }
    r
}

/// The number of tasks in the group over the first `n` phases.
pub open spec fn tasks_in_group(phases: Seq<Phase>, g: TaskGroup, n: int) -> nat
    decreases n,
{
    if n <= 0 {
        0
    } else {
        tasks_in_group(phases, g, n - 1) + group_count(phases[n - 1].tasks@, g, phases[n - 1].tasks@.len() as int)
    }
}

/// A group has no more tasks than the list.
proof fn lemma_group_count_bound(tasks: Seq<Task>, g: TaskGroup, n: int)
    requires
        0 <= n,
    ensures
        group_count(tasks, g, n) <= n,
    decreases n,
{
    if n > 0 {
        lemma_group_count_bound(tasks, g, n - 1);
    }
}

/// Over all phases, a group has no more tasks than there are.
proof fn lemma_tasks_in_group_bound(phases: Seq<Phase>, g: TaskGroup, n: int)
    requires
        0 <= n <= phases.len(),
    ensures
        tasks_in_group(phases, g, n) <= total_tasks(phases, n),
    decreases n,
{
    if n > 0 {
        lemma_tasks_in_group_bound(phases, g, n - 1);
        lemma_group_count_bound(phases[n - 1].tasks@, g, phases[n - 1].tasks@.len() as int);
    }
}

/// The number of tasks in the group over all phases.
fn count_tasks_in_group(phases: &Vec<Phase>, g: &TaskGroup) -> (r: usize)
    requires
        total_tasks(phases@, phases@.len() as int) <= usize::MAX,
    ensures
        r == tasks_in_group(phases@, *g, phases@.len() as int),
{
    let mut r: usize = 0;
    let mut i: usize = 0;
    while i < phases.len()
        invariant
            i <= phases@.len(),
            total_tasks(phases@, phases@.len() as int) <= usize::MAX,
            r == tasks_in_group(phases@, *g, i as int),
        decreases phases@.len() - i,
    {
        proof {
            lemma_tasks_in_group_bound(phases@, *g, i + 1);
            lemma_total_tasks_mono(phases@, i + 1, phases@.len() as int);
        }
        let c = count_in_group(&phases[i].tasks, g);
        r = r + c;
        i = i + 1;
    }
    r
}

/// Counting more phases counts no fewer tasks.
pub proof fn lemma_total_tasks_mono(phases: Seq<Phase>, a: int, b: int)
    requires
        0 <= a <= b,
    ensures
        total_tasks(phases, a) <= total_tasks(phases, b),
    decreases b - a,
{
    if a < b {
        lemma_total_tasks_mono(phases, a, b - 1);
    }
}

/// The share of tasks done, in percent rounded to the nearest (halves up);
/// 0 without tasks.
pub open spec fn progress_percent(done: nat, total: nat) -> nat {
    if total == 0 {
        0
    } else {
        (200 * done + total) / (2 * total)
    }
}

/// The state of the roadmap: the number of phases with how many are done,
/// in progress and pending, and the share of tasks done.
pub open spec fn summary_block(phases: Seq<Phase>) -> Seq<char> {
    "## État actuel\n- Phases: "@ + decimal(phases.len()) + " ("@ + decimal(
        phases_with_status(phases, "done"@, phases.len() as int),
    ) + " done, "@ + decimal(phases_with_status(phases, "in_progress"@, phases.len() as int))
        + " in_progress, "@ + decimal(phases_with_status(phases, "pending"@, phases.len() as int))
        + " pending)\n- Progression: "@ + decimal(
        progress_percent(
            tasks_in_group(phases, TaskGroup::Done, phases.len() as int),
            total_tasks(phases, phases.len() as int),
        ),
    ) + "%\n\n"@
}

/// The share of tasks done, in percent (see `progress_percent`).
fn percent_done(done: usize, total: usize) -> (r: u64)
    requires
        done <= total,
    ensures
        r == progress_percent(done as nat, total as nat),
{
    if total == 0 {
        return 0;
    }
    let d = done as u128;
    let t = total as u128;
    assert(200 * d + t <= 201 * 0x1_0000_0000_0000_0000) by (nonlinear_arith)
        requires
            d <= t,
            t <= 0xffff_ffff_ffff_ffff,
    ;
    let q = (200 * d + t) / (2 * t);
    assert(q <= 100) by (nonlinear_arith)
        requires
            d <= t,
            t > 0,
            q == (200 * d + t) / (2 * t),
    ;
    q as u64
}

/// The blocks of the first `n` phases in progress.
pub open spec fn focus_blocks(phases: Seq<Phase>, n: int) -> Seq<char>
    decreases n,
{
    if n <= 0 {
        Seq::empty()
    } else {
        focus_blocks(phases, n - 1) + if phases[n - 1].status@ == "in_progress"@ {
            focus_block(phases[n - 1])
        } else {
            Seq::empty()
        }
    }
}

/// The line of an upcoming phase.
pub open spec fn upcoming_line(p: Phase) -> Seq<char> {
    "- **Phase "@ + p.id@ + "** (P"@ + decimal(p.priority as nat) + ") — "@ + p.name@ + " ("@
        + decimal(p.tasks@.len()) + " tâches)\n"@
}

/// The lines of at most `left` pending phases, from position `i` on.
pub open spec fn upcoming_from(phases: Seq<Phase>, i: int, left: int) -> Seq<char>
    decreases phases.len() - i,
{
    if i >= phases.len() || i < 0 || left <= 0 {
        Seq::empty()
    } else if phases[i].status@ == "pending"@ {
        upcoming_line(phases[i]) + upcoming_from(phases, i + 1, left - 1)
    } else {
        upcoming_from(phases, i + 1, left)
    }
}

/// The lines of the first `n` phases done.
pub open spec fn done_phase_lines(phases: Seq<Phase>, n: int) -> Seq<char>
    decreases n,
{
    if n <= 0 {
        Seq::empty()
    } else {
        done_phase_lines(phases, n - 1) + if phases[n - 1].status@ == "done"@ {
            "- ✅ Phase "@ + phases[n - 1].id@ + " — "@ + phases[n - 1].name@ + "\n"@
        } else {
            Seq::empty()
        }
    }
}

/// The commands that the context suggests.
pub open spec fn actions_block() -> Seq<char> {
    "## Actions suggérées\n\n```bash\n# Voir la prochaine tâche\nroadmap next\n\n# Démarrer une tâche\nroadmap task start <id>\n\n# Marquer comme terminée\nroadmap task done <id>\n```\n"@
}

/// The context of the whole roadmap: its state (phases by status and the
/// share of tasks done), the phases in progress
/// with what is being done and what is left, the next three pending phases,
/// the phases done (on request), and the suggested commands.
pub open spec fn roadmap_context(phases: Seq<Phase>, include_done: bool) -> Seq<char> {
    "# Contexte Roadmap\n\n"@ + summary_block(phases) + (if phases_with_status(
        phases,
        "in_progress"@,
        phases.len() as int,
    ) > 0 {
        "## Focus actuel\n\n"@ + focus_blocks(phases, phases.len() as int)
    } else {
        Seq::empty()
    }) + (if phases_with_status(phases, "pending"@, phases.len() as int) > 0 {
        "## Phases à venir\n\n"@ + upcoming_from(phases, 0, 3) + "\n"@
    } else {
        Seq::empty()
    }) + (if include_done && phases_with_status(phases, "done"@, phases.len() as int) > 0 {
        "## Phases terminées\n\n"@ + done_phase_lines(phases, phases.len() as int) + "\n"@
    } else {
        Seq::empty()
    }) + actions_block()
}

/// Appends the summary.
fn push_summary(out: &mut String, phases: &Vec<Phase>)
    requires
        total_tasks(phases@, phases@.len() as int) <= usize::MAX,
    ensures
        final(out)@ == old(out)@ + summary_block(phases@),
{
    let ghost start = out@;
    let done_phases = count_phases_with(phases, "done");
    let active_phases = count_phases_with(phases, "in_progress");
    let pending_phases = count_phases_with(phases, "pending");
    let total = crate::report::count_all_tasks(phases);
    let done = count_tasks_in_group(phases, &TaskGroup::Done);
    proof {
        lemma_tasks_in_group_bound(phases@, TaskGroup::Done, phases@.len() as int);
    }
    let percent = percent_done(done, total);
    push_str(out, "## État actuel\n- Phases: ");
    push_decimal(out, phases.len() as u64);
    push_str(out, " (");
    push_decimal(out, done_phases as u64);
    push_str(out, " done, ");
    push_decimal(out, active_phases as u64);
    push_str(out, " in_progress, ");
    push_decimal(out, pending_phases as u64);
    push_str(out, " pending)\n- Progression: ");
    push_decimal(out, percent);
    push_str(out, "%\n\n");
    assert(out@ =~= start + summary_block(phases@));
}

/// Appends the blocks of the phases in progress.
fn push_focus_blocks(out: &mut String, phases: &Vec<Phase>)
    ensures
        final(out)@ == old(out)@ + focus_blocks(phases@, phases@.len() as int),
{
    let ghost start = out@;
    let mut i: usize = 0;
    assert(start + focus_blocks(phases@, 0) =~= start);
    while i < phases.len()
        invariant
            i <= phases@.len(),
            out@ == start + focus_blocks(phases@, i as int),
        decreases phases@.len() - i,
    {
        if str_eq(phases[i].status.as_str(), "in_progress") {
            push_focus_block(out, &phases[i]);
        }
        i = i + 1;
    }
}

/// Appends the line of an upcoming phase.
fn push_upcoming_line(out: &mut String, p: &Phase)
    ensures
        final(out)@ == old(out)@ + upcoming_line(*p),
{
    let ghost start = out@;
    push_str(out, "- **Phase ");
    push_str(out, p.id.as_str());
    push_str(out, "** (P");
    push_decimal(out, p.priority as u64);
    push_str(out, ") — ");
    push_str(out, p.name.as_str());
    push_str(out, " (");
    push_decimal(out, p.tasks.len() as u64);
    push_str(out, " tâches)\n");
    assert(out@ =~= start + upcoming_line(*p));
}

/// Appends the lines of the next three pending phases.
fn push_upcoming(out: &mut String, phases: &Vec<Phase>)
    ensures
        final(out)@ == old(out)@ + upcoming_from(phases@, 0, 3),
{
    let ghost start = out@;
    let mut i: usize = 0;
    let mut left: usize = 3;
    while i < phases.len() && left > 0
        invariant
            i <= phases@.len(),
            left <= 3,
            start + upcoming_from(phases@, 0, 3) == out@ + upcoming_from(phases@, i as int, left as int),
        decreases phases@.len() - i,
    {
        if str_eq(phases[i].status.as_str(), "pending") {
            let ghost before = out@;
            push_upcoming_line(out, &phases[i]);
            assert(before + upcoming_from(phases@, i as int, left as int) == out@ + upcoming_from(
                phases@,
                i + 1,
                left - 1,
            ));
            left = left - 1;
        }
        i = i + 1;
    }
    assert(upcoming_from(phases@, i as int, left as int) =~= Seq::<char>::empty());
}

/// Appends the lines of the phases done.
fn push_done_phases(out: &mut String, phases: &Vec<Phase>)
    ensures
        final(out)@ == old(out)@ + done_phase_lines(phases@, phases@.len() as int),
{
    let ghost start = out@;
    let mut i: usize = 0;
    assert(start + done_phase_lines(phases@, 0) =~= start);
    while i < phases.len()
        invariant
            i <= phases@.len(),
            out@ == start + done_phase_lines(phases@, i as int),
        decreases phases@.len() - i,
    {
        if str_eq(phases[i].status.as_str(), "done") {
            let ghost before = out@;
            push_str(out, "- ✅ Phase ");
            push_str(out, phases[i].id.as_str());
            push_str(out, " — ");
            push_str(out, phases[i].name.as_str());
            push_str(out, "\n");
            assert(out@ =~= before + ("- ✅ Phase "@ + phases@[i as int].id@ + " — "@ + phases@[i as int].name@ + "\n"@));
        }
        i = i + 1;
    }
}

/// The context of the whole roadmap (see `roadmap_context`).
pub fn context_text(phases: &Vec<Phase>, include_done: bool) -> (r: String)
    requires
        total_tasks(phases@, phases@.len() as int) <= usize::MAX,
    ensures
        r@ == roadmap_context(phases@, include_done),
{
    let mut out = String::new();
    push_str(&mut out, "# Contexte Roadmap\n\n");
    push_summary(&mut out, phases);
    let ghost a = out@;
    if count_phases_with(phases, "in_progress") > 0 {
        push_str(&mut out, "## Focus actuel\n\n");
        push_focus_blocks(&mut out, phases);
    }
    let ghost b = out@;
    if count_phases_with(phases, "pending") > 0 {
        push_str(&mut out, "## Phases à venir\n\n");
        push_upcoming(&mut out, phases);
        push_str(&mut out, "\n");
    }
    let ghost c = out@;
    if include_done && count_phases_with(phases, "done") > 0 {
        push_str(&mut out, "## Phases terminées\n\n");
        push_done_phases(&mut out, phases);
        push_str(&mut out, "\n");
    }
    push_str(
        &mut out,
        "## Actions suggérées\n\n```bash\n# Voir la prochaine tâche\nroadmap next\n\n# Démarrer une tâche\nroadmap task start <id>\n\n# Marquer comme terminée\nroadmap task done <id>\n```\n",
    );
    assert(out@ =~= roadmap_context(phases@, include_done));
    out
}

/// The head of a phase's context: title, description, status, priority,
/// dependencies and progress.
pub open spec fn phase_head(p: Phase) -> Seq<char> {
    "# Contexte — Phase "@ + p.id@ + " — "@ + p.name@ + "\n\n"@ + paragraph(p.description@)
        + "- Statut: "@ + p.status@ + "\n- Priorité: "@ + decimal(p.priority as nat) + "\n"@
        + list_line("- Dépend de: "@, p.depends_on@) + "- Progression: "@ + decimal(
        group_count(p.tasks@, TaskGroup::Done, p.tasks@.len() as int),
    ) + "/"@ + decimal(p.tasks@.len()) + " tâches\n\n"@
}

/// The tasks done of a phase, on request, when it has some.
pub open spec fn done_section(p: Phase, include_done: bool) -> Seq<char> {
    if include_done && group_count(p.tasks@, TaskGroup::Done, p.tasks@.len() as int) > 0 {
        "## Terminé\n\n"@ + group_entries(p.tasks@, TaskGroup::Done, EntryStyle::Done, p.tasks@.len() as int)
            + "\n"@
    } else {
        Seq::empty()
    }
}

/// The notes of a phase, when it has some.
pub open spec fn notes_section(p: Phase) -> Seq<char> {
    if p.notes@.len() > 0 {
        "## Notes\n\n"@ + all_notes(p, p.notes@.len() as int) + "\n"@
    } else {
        Seq::empty()
    }
}

/// The context of one phase: its head, then its tasks in progress, to do,
/// optional and blocked, in detail, its tasks done (on request) and its
/// notes.
pub open spec fn phase_context(p: Phase, include_done: bool) -> Seq<char> {
    phase_head(p) + group_section(p.tasks@, TaskGroup::InProgress, EntryStyle::Detail, "## En cours\n\n"@)
        + group_section(p.tasks@, TaskGroup::Todo, EntryStyle::Detail, "## À faire\n\n"@)
        + group_section(p.tasks@, TaskGroup::Optional, EntryStyle::Detail, "## Optionnel\n\n"@)
        + group_section(p.tasks@, TaskGroup::Blocked, EntryStyle::Detail, "## Bloqué\n\n"@)
        + done_section(p, include_done) + notes_section(p)
}

/// Appends the head of a phase's context.
fn push_phase_head(out: &mut String, p: &Phase)
    ensures
        final(out)@ == old(out)@ + phase_head(*p),
{
    let ghost start = out@;
    push_str(out, "# Contexte — Phase ");
    push_str(out, p.id.as_str());
    push_str(out, " — ");
    push_str(out, p.name.as_str());
    push_str(out, "\n\n");
    push_paragraph(out, &p.description);
    push_str(out, "- Statut: ");
    push_str(out, p.status.as_str());
    push_str(out, "\n- Priorité: ");
    push_decimal(out, p.priority as u64);
    push_str(out, "\n");
    push_list(out, "- Dépend de: ", &p.depends_on);
    let done = count_in_group(&p.tasks, &TaskGroup::Done);
    push_str(out, "- Progression: ");
    push_decimal(out, done as u64);
    push_str(out, "/");
    push_decimal(out, p.tasks.len() as u64);
    push_str(out, " tâches\n\n");
    assert(out@ =~= start + phase_head(*p));
}

/// Appends the notes of a phase, when it has some.
fn push_notes_section(out: &mut String, p: &Phase)
    ensures
        final(out)@ == old(out)@ + notes_section(*p),
{
    let ghost start = out@;
    if p.notes.len() > 0 {
        push_str(out, "## Notes\n\n");
        let mut i: usize = 0;
        let ghost head = out@;
        assert(head + all_notes(*p, 0) =~= head);
        while i < p.notes.len()
            invariant
                i <= p.notes@.len(),
                out@ == head + all_notes(*p, i as int),
            decreases p.notes@.len() - i,
        {
            push_str(out, "- ");
            push_str(out, p.notes[i].date.as_str());
            push_str(out, ": ");
            push_str(out, p.notes[i].content.as_str());
            push_str(out, "\n");
            i = i + 1;
        }
        push_str(out, "\n");
    }
    assert(out@ =~= start + notes_section(*p));
}

/// Appends the tasks done of a phase, on request.
fn push_done_section(out: &mut String, p: &Phase, include_done: bool)
    ensures
        final(out)@ == old(out)@ + done_section(*p, include_done),
{
    let ghost start = out@;
    if include_done && count_in_group(&p.tasks, &TaskGroup::Done) > 0 {
        push_str(out, "## Terminé\n\n");
        push_group(out, &p.tasks, &TaskGroup::Done, &EntryStyle::Done);
        push_str(out, "\n");
    }
    assert(out@ =~= start + done_section(*p, include_done));
}

/// The context of one phase (see `phase_context`).
pub fn phase_context_text(p: &Phase, include_done: bool) -> (r: String)
    ensures
        r@ == phase_context(*p, include_done),
{
    let mut out = String::new();
    push_phase_head(&mut out, p);
    push_group_section(&mut out, &p.tasks, &TaskGroup::InProgress, &EntryStyle::Detail, "## En cours\n\n");
    push_group_section(&mut out, &p.tasks, &TaskGroup::Todo, &EntryStyle::Detail, "## À faire\n\n");
    push_group_section(&mut out, &p.tasks, &TaskGroup::Optional, &EntryStyle::Detail, "## Optionnel\n\n");
    push_group_section(&mut out, &p.tasks, &TaskGroup::Blocked, &EntryStyle::Detail, "## Bloqué\n\n");
    push_done_section(&mut out, p, include_done);
    push_notes_section(&mut out, p);
    assert(out@ =~= phase_context(*p, include_done));
    out
}

/// `roadmap context [--phase <id>]`: the context of the roadmap, or of the
/// first phase with the id given; where no phase has it, a line that says so.
pub fn cmd_context(phases: &Vec<Phase>, include_done: bool, phase_filter: Option<&str>) -> (r: String)
    requires
        total_tasks(phases@, phases@.len() as int) <= usize::MAX,
    ensures
        phase_filter is None ==> r@ == roadmap_context(phases@, include_done),
        phase_filter matches Some(id) ==> forall|i: int| crate::phase_ops::first_phase_with(phases@, id@, i)
            ==> r@ == phase_context(#[trigger] phases@[i], include_done),
        phase_filter matches Some(id) ==> (forall|j: int| 0 <= j < phases@.len() ==> phases@[j].id@ != id@)
            ==> r@ == "Phase "@ + id@ + " non trouvée\n"@,
{
    match phase_filter {
        None => context_text(phases, include_done),
        Some(id) => match crate::phase_ops::find_phase(phases, id) {
            Some(i) => phase_context_text(&phases[i], include_done),
            None => {
                let mut out = String::new();
                push_str(&mut out, "Phase ");
                push_str(&mut out, id);
                push_str(&mut out, " non trouvée\n");
                out
            },
        },
    }
}

} // verus!
