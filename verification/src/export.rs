//! The Markdown export of the roadmap (`roadmap export`, written to
//! `ROADMAP.md` by default).

use vstd::prelude::*;
use crate::model::{Phase, Task};
use crate::report::{done_count, phase_progress};
use crate::phase_ops::status_icon;
use crate::text::{decimal, push_str, push_decimal};

verus! {

/// The icon of a status in the export.
pub open spec fn icon_of(status: Seq<char>) -> Seq<char> {
    if status == "done"@ {
        "✅"@
    } else if status == "in_progress"@ {
        "🔄"@
    } else if status == "blocked"@ {
        "🚫"@
    } else {
        "⬜"@
    }
}

/// The progress cell of a phase: `done/total`, or `-` without tasks.
pub open spec fn progress_cell(p: Phase) -> Seq<char> {
    if p.tasks@.len() > 0 {
        decimal(done_count(p, p.tasks@.len() as int)) + "/"@ + decimal(p.tasks@.len())
    } else {
        "-"@
    }
}

/// The row of a phase in the summary table.
pub open spec fn table_row(p: Phase) -> Seq<char> {
    "| "@ + p.id@ + " | "@ + p.name@ + " | "@ + icon_of(p.status@) + " | "@ + decimal(
        p.priority as nat,
    ) + " | "@ + progress_cell(p) + " |\n"@
}

/// The rows of the first `n` phases.
pub open spec fn table_rows(phases: Seq<Phase>, n: int) -> Seq<char>
    decreases n,
{
    if n <= 0 {
        Seq::empty()
    } else {
        table_rows(phases, n - 1) + table_row(phases[n - 1])
    }
}

/// The lines, among the first `n` tasks, of the subtasks of the task `parent`.
pub open spec fn subtask_lines(tasks: Seq<Task>, parent: Seq<char>, n: int) -> Seq<char>
    decreases n,
{
    if n <= 0 {
        Seq::empty()
    } else {
        let t = tasks[n - 1];
        subtask_lines(tasks, parent, n - 1) + if t.parent matches Some(q) && q@ == parent {
            "  - "@ + icon_of(t.status@) + " "@ + t.id@ + " — "@ + t.name@ + "\n"@
        } else {
            Seq::empty()
        }
    }
}

/// The lines, among the first `n` tasks, of the top-level tasks, each
/// followed by its subtasks.
pub open spec fn task_lines(tasks: Seq<Task>, n: int) -> Seq<char>
    decreases n,
{
    if n <= 0 {
        Seq::empty()
    } else {
        let t = tasks[n - 1];
        task_lines(tasks, n - 1) + if t.parent is None {
            task_line(tasks, t)
        } else {
            Seq::empty()
        }
    }
}

/// The line of a top-level task, followed by the lines of its subtasks.
pub open spec fn task_line(tasks: Seq<Task>, t: Task) -> Seq<char> {
    "- "@ + icon_of(t.status@) + " **"@ + t.id@ + "** — "@ + t.name@ + (if t.optional {
        " *(optionnel)*"@
    } else {
        Seq::empty()
    }) + "\n"@ + subtask_lines(tasks, t.id@, tasks.len() as int)
}

/// The lines of the first `n` notes of a phase.
pub open spec fn note_lines(p: Phase, n: int) -> Seq<char>
    decreases n,
{
    if n <= 0 {
        Seq::empty()
    } else {
        let note = p.notes@[n - 1];
        note_lines(p, n - 1) + "- **"@ + note.date@ + "** : "@ + note.content@ + "\n"@
    }
}

/// The heading of a phase's section.
pub open spec fn section_head(p: Phase) -> Seq<char> {
    "## Phase "@ + p.id@ + " — "@ + p.name@ + " "@ + icon_of(p.status@) + "\n\n"@
}

/// The description block of a phase's section.
pub open spec fn section_description(p: Phase) -> Seq<char> {
    if p.description@.len() > 0 {
        p.description@ + "\n\n"@
    } else {
        Seq::empty()
    }
}

/// The tasks block of a phase's section.
pub open spec fn section_tasks(p: Phase) -> Seq<char> {
    if p.tasks@.len() > 0 {
        "### Tâches\n\n"@ + task_lines(p.tasks@, p.tasks@.len() as int) + "\n"@
    } else {
        Seq::empty()
    }
}

/// The notes block of a phase's section.
pub open spec fn section_notes(p: Phase) -> Seq<char> {
    if p.notes@.len() > 0 {
        "### Notes\n\n"@ + note_lines(p, p.notes@.len() as int) + "\n"@
    } else {
        Seq::empty()
    }
}

/// The section of a phase.
pub open spec fn phase_section(p: Phase) -> Seq<char> {
    section_head(p) + section_description(p) + section_tasks(p) + section_notes(p) + "---\n\n"@
}

/// The sections of the first `n` phases.
pub open spec fn phase_sections(phases: Seq<Phase>, n: int) -> Seq<char>
    decreases n,
{
    if n <= 0 {
        Seq::empty()
    } else {
        phase_sections(phases, n - 1) + phase_section(phases[n - 1])
    }
}

/// The whole Markdown document.
pub open spec fn markdown(name: Seq<char>, description: Seq<char>, phases: Seq<Phase>) -> Seq<char> {
    "# "@ + name + " - Roadmap\n\n"@ + description + "\n\n"@ + "---\n\n"@ + "## Phases\n\n"@
        + "| Phase | Nom | Statut | Priorité | Progression |\n"@
        + "|-------|-----|--------|----------|-------------|\n"@ + table_rows(
        phases,
        phases.len() as int,
    ) + "\n---\n\n"@ + phase_sections(phases, phases.len() as int)
}

fn push_row(out: &mut String, p: &Phase)
    ensures
        final(out)@ == old(out)@ + table_row(*p),
{
    let (done, total) = phase_progress(p);
    push_str(out, "| ");
    push_str(out, p.id.as_str());
    push_str(out, " | ");
    push_str(out, p.name.as_str());
    push_str(out, " | ");
    push_str(out, status_icon(p.status.as_str()));
    push_str(out, " | ");
    push_decimal(out, p.priority as u64);
    push_str(out, " | ");
    if total > 0 {
        push_decimal(out, done as u64);
        push_str(out, "/");
        push_decimal(out, total as u64);
    } else {
        push_str(out, "-");
    }
    push_str(out, " |\n");
}

fn push_subtasks(out: &mut String, tasks: &Vec<Task>, parent: &String)
    ensures
        final(out)@ == old(out)@ + subtask_lines(tasks@, parent@, tasks@.len() as int),
{
    let ghost o0 = out@;
    let mut k: usize = 0;
    while k < tasks.len()
        invariant
            k <= tasks@.len(),
            out@ == o0 + subtask_lines(tasks@, parent@, k as int),
        decreases tasks@.len() - k,
    {
        let t = &tasks[k];
        let ghost before = out@;
        let is_child = match &t.parent {
            Some(q) => *q == *parent,
            None => false,
        };
        if is_child {
            push_str(out, "  - ");
            push_str(out, status_icon(t.status.as_str()));
            push_str(out, " ");
            push_str(out, t.id.as_str());
            push_str(out, " — ");
            push_str(out, t.name.as_str());
            push_str(out, "\n");
        } else {
            assert(before + Seq::<char>::empty() == before);
        }
        k = k + 1;
    }
}

fn push_task_line(out: &mut String, tasks: &Vec<Task>, t: &Task)
    ensures
        final(out)@ == old(out)@ + task_line(tasks@, *t),
{
    let ghost o0 = out@;
    push_str(out, "- ");
    push_str(out, status_icon(t.status.as_str()));
    push_str(out, " **");
    push_str(out, t.id.as_str());
    push_str(out, "** — ");
    push_str(out, t.name.as_str());
    let ghost o1 = out@;
    if t.optional {
        push_str(out, " *(optionnel)*");
    } else {
        assert(out@ + Seq::<char>::empty() == out@);
    }
    let ghost o2 = out@;
    push_str(out, "\n");
    let ghost o3 = out@;
    push_subtasks(out, tasks, &t.id);
    assert(out@ =~= o0 + task_line(tasks@, *t));
}

fn push_tasks(out: &mut String, tasks: &Vec<Task>)
    ensures
        final(out)@ == old(out)@ + task_lines(tasks@, tasks@.len() as int),
{
    let ghost o0 = out@;
    let mut k: usize = 0;
    while k < tasks.len()
        invariant
            k <= tasks@.len(),
            out@ == o0 + task_lines(tasks@, k as int),
        decreases tasks@.len() - k,
    {
        let t = &tasks[k];
        let ghost before = out@;
        if t.parent.is_none() {
            push_task_line(out, tasks, t);
        } else {
            assert(before + Seq::<char>::empty() == before);
        }
        k = k + 1;
    }
}

fn push_head(out: &mut String, p: &Phase)
    ensures
        final(out)@ == old(out)@ + section_head(*p),
{
    let ghost o0 = out@;
    push_str(out, "## Phase ");
    push_str(out, p.id.as_str());
    push_str(out, " — ");
    push_str(out, p.name.as_str());
    push_str(out, " ");
    push_str(out, status_icon(p.status.as_str()));
    push_str(out, "\n\n");
    assert(out@ =~= o0 + section_head(*p));
}

fn push_description(out: &mut String, p: &Phase)
    ensures
        final(out)@ == old(out)@ + section_description(*p),
{
    let ghost o0 = out@;
    if p.description.as_str().is_empty() == false {
        push_str(out, p.description.as_str());
        push_str(out, "\n\n");
        assert(out@ =~= o0 + section_description(*p));
    } else {
        assert(o0 + Seq::<char>::empty() == o0);
    }
}

fn push_tasks_block(out: &mut String, p: &Phase)
    ensures
        final(out)@ == old(out)@ + section_tasks(*p),
{
    let ghost o0 = out@;
    if p.tasks.len() > 0 {
        push_str(out, "### Tâches\n\n");
        push_tasks(out, &p.tasks);
        push_str(out, "\n");
        assert(out@ =~= o0 + section_tasks(*p));
    } else {
        assert(o0 + Seq::<char>::empty() == o0);
    }
}

fn push_notes_block(out: &mut String, p: &Phase)
    ensures
        final(out)@ == old(out)@ + section_notes(*p),
{
    let ghost o0 = out@;
    if p.notes.len() > 0 {
        push_str(out, "### Notes\n\n");
        let ghost o4 = out@;
        let mut k: usize = 0;
        while k < p.notes.len()
            invariant
                k <= p.notes@.len(),
                out@ == o4 + note_lines(*p, k as int),
            decreases p.notes@.len() - k,
        {
            let n = &p.notes[k];
            let ghost b = out@;
            push_str(out, "- **");
            push_str(out, n.date.as_str());
            push_str(out, "** : ");
            push_str(out, n.content.as_str());
            push_str(out, "\n");
            assert(out@ =~= o4 + note_lines(*p, k + 1));
            k = k + 1;
        }
        push_str(out, "\n");
        assert(out@ =~= o0 + section_notes(*p));
    } else {
        assert(o0 + Seq::<char>::empty() == o0);
    }
}

fn push_section(out: &mut String, p: &Phase)
    ensures
        final(out)@ == old(out)@ + phase_section(*p),
{
    let ghost o0 = out@;
    push_head(out, p);
    push_description(out, p);
    push_tasks_block(out, p);
    push_notes_block(out, p);
    push_str(out, "---\n\n");
    assert(out@ =~= o0 + phase_section(*p));
}

/// The Markdown document of the roadmap: a title and description, a summary
/// table of the phases, then one section per phase with its tasks (subtasks
/// under their parents) and notes.
pub fn render_markdown(name: &str, description: &str, phases: &Vec<Phase>) -> (r: String)
    ensures
        r@ == markdown(name@, description@, phases@),
{
    let mut md = String::new();
    push_str(&mut md, "# ");
    push_str(&mut md, name);
    push_str(&mut md, " - Roadmap\n\n");
    push_str(&mut md, description);
    push_str(&mut md, "\n\n");
    push_str(&mut md, "---\n\n");
    push_str(&mut md, "## Phases\n\n");
    push_str(&mut md, "| Phase | Nom | Statut | Priorité | Progression |\n");
    push_str(&mut md, "|-------|-----|--------|----------|-------------|\n");
    let ghost h = md@;
    let mut i: usize = 0;
    while i < phases.len()
        invariant
            i <= phases@.len(),
            md@ == h + table_rows(phases@, i as int),
        decreases phases@.len() - i,
    {
        push_row(&mut md, &phases[i]);
        i = i + 1;
    }
    push_str(&mut md, "\n---\n\n");
    let ghost h2 = md@;
    let mut j: usize = 0;
    while j < phases.len()
        invariant
            j <= phases@.len(),
            md@ == h2 + phase_sections(phases@, j as int),
        decreases phases@.len() - j,
    {
        push_section(&mut md, &phases[j]);
        j = j + 1;
    }
    md
}

} // verus!
