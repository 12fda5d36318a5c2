//! The history of the roadmap (`roadmap log`): phase and task completions,
//! notes and bug events, newest first.

use vstd::prelude::*;
use crate::model::{Phase, Task, Bug};
use crate::text::{lex_le, str_lex_le, str_eq, lemma_lex_refl, lemma_lex_total, lemma_lex_trans};

verus! {

/// One event of the history.
pub enum LogEvent {
    PhaseDone { date: String, phase_id: String, phase_name: String },
    PhaseAllTasksDone { date: String, phase_id: String, phase_name: String },
    TaskDone { date: String, task_id: String, task_name: String, phase_id: String, phase_name: String },
    Note { date: String, phase_id: String, phase_name: String, content: String },
    BugCreated { date: String, bug_id: u32, bug_title: String, severity: String },
    BugResolved { date: String, bug_id: u32, bug_title: String, resolution: Option<String> },
}

/// The date of an event.
pub open spec fn event_date(e: LogEvent) -> Seq<char> {
    match e {
        LogEvent::PhaseDone { date, .. } => date@,
        LogEvent::PhaseAllTasksDone { date, .. } => date@,
        LogEvent::TaskDone { date, .. } => date@,
        LogEvent::Note { date, .. } => date@,
        LogEvent::BugCreated { date, .. } => date@,
        LogEvent::BugResolved { date, .. } => date@,
    }
}

impl LogEvent {
    /// The date of the event.
    pub fn date(&self) -> (r: &String)
        ensures
            r@ == event_date(*self),
    {
        match self {
            LogEvent::PhaseDone { date, .. } => date,
            LogEvent::PhaseAllTasksDone { date, .. } => date,
            LogEvent::TaskDone { date, .. } => date,
            LogEvent::Note { date, .. } => date,
            LogEvent::BugCreated { date, .. } => date,
            LogEvent::BugResolved { date, .. } => date,
        }
    }
}

/// The latest completion date among the first `n` tasks (latest in the
/// order of strings), if any has one.
pub open spec fn latest_completion(tasks: Seq<Task>, n: int) -> Option<String>
    decreases n,
{
    if n <= 0 {
        None
    } else {
        let rest = latest_completion(tasks, n - 1);
        match tasks[n - 1].completed_at {
            None => rest,
            Some(c) => match rest {
                None => Some(c),
                Some(m) => if lex_le(c@, m@) {
                    Some(m)
                } else {
                    Some(c)
                },
            },
        }
    }
}

/// Every required task among the first `n` is done.
pub open spec fn required_done(tasks: Seq<Task>, n: int) -> bool {
    forall|j: int| 0 <= j < n ==> (#[trigger] tasks[j]).optional || tasks[j].status@ == "done"@
}

/// The date of a phase's completion: its latest task completion, or its last update.
pub open spec fn phase_date(p: Phase) -> String {
    match latest_completion(p.tasks@, p.tasks@.len() as int) {
        Some(d) => d,
        None => p.updated_at,
    }
}

/// The completion event of a phase, when it is done, or when it has tasks and
/// all its required ones are done.
pub open spec fn phase_event(p: Phase) -> Seq<LogEvent> {
    if p.status@ == "done"@ {
        seq![LogEvent::PhaseDone { date: phase_date(p), phase_id: p.id, phase_name: p.name }]
    } else if p.tasks@.len() > 0 && required_done(p.tasks@, p.tasks@.len() as int) {
        seq![LogEvent::PhaseAllTasksDone { date: phase_date(p), phase_id: p.id, phase_name: p.name }]
    } else {
        Seq::empty()
    }
}

/// The completion events of the first `n` tasks of a phase.
pub open spec fn task_events(p: Phase, n: int) -> Seq<LogEvent>
    decreases n,
{
    if n <= 0 {
        Seq::empty()
    } else {
        let t = p.tasks@[n - 1];
        task_events(p, n - 1) + match t.completed_at {
            Some(c) => seq![
                LogEvent::TaskDone {
                    date: c,
                    task_id: t.id,
                    task_name: t.name,
                    phase_id: p.id,
                    phase_name: p.name,
                },
            ],
            None => Seq::empty(),
        }
    }
}

/// The note events of the first `n` notes of a phase.
pub open spec fn note_events(p: Phase, n: int) -> Seq<LogEvent>
    decreases n,
{
    if n <= 0 {
        Seq::empty()
    } else {
        let note = p.notes@[n - 1];
        note_events(p, n - 1).push(
            LogEvent::Note {
                date: note.date,
                phase_id: p.id,
                phase_name: p.name,
                content: note.content,
            },
        )
    }
}

/// The events of the first `n` phases.
pub open spec fn phases_events(phases: Seq<Phase>, n: int) -> Seq<LogEvent>
    decreases n,
{
    if n <= 0 {
        Seq::empty()
    } else {
        let p = phases[n - 1];
        phases_events(phases, n - 1) + phase_event(p) + task_events(p, p.tasks@.len() as int)
            + note_events(p, p.notes@.len() as int)
    }
}

/// The events of the first `n` bugs: each creation, and each resolution.
pub open spec fn bugs_events(bugs: Seq<Bug>, n: int) -> Seq<LogEvent>
    decreases n,
{
    if n <= 0 {
        Seq::empty()
    } else {
        let b = bugs[n - 1];
        bugs_events(bugs, n - 1) + seq![
            LogEvent::BugCreated {
                date: b.created_at,
                bug_id: b.id,
                bug_title: b.title,
                severity: b.severity,
            },
        ] + match b.resolved_at {
            Some(d) => seq![
                LogEvent::BugResolved {
                    date: d,
                    bug_id: b.id,
                    bug_title: b.title,
                    resolution: b.resolution,
                },
            ],
            None => Seq::empty(),
        }
    }
}

/// All events, in roadmap order (before sorting).
pub open spec fn all_events(phases: Seq<Phase>, bugs: Seq<Bug>) -> Seq<LogEvent> {
    phases_events(phases, phases.len() as int) + bugs_events(bugs, bugs.len() as int)
}

/// The events of `s` with date `d`, in their order in `s`.
pub open spec fn date_class(s: Seq<LogEvent>, d: Seq<char>) -> Seq<LogEvent>
    decreases s.len(),
{
    if s.len() == 0 {
        Seq::empty()
    } else if event_date(s.last()) == d {
        date_class(s.drop_last(), d).push(s.last())
    } else {
        date_class(s.drop_last(), d)
    }
}

/// The events come newest first.
pub open spec fn newest_first(s: Seq<LogEvent>) -> bool {
    forall|i: int, j: int| 0 <= i < j < s.len() ==> lex_le(event_date(s[j]), event_date(s[i]))
}

/// `out` is `input` stably sorted newest first.
pub open spec fn stable_date_sort(input: Seq<LogEvent>, out: Seq<LogEvent>) -> bool {
    &&& newest_first(out)
    &&& forall|d: Seq<char>| #[trigger] date_class(out, d) == date_class(input, d)
}

proof fn lemma_date_class_add(a: Seq<LogEvent>, b: Seq<LogEvent>, d: Seq<char>)
    ensures
        date_class(a + b, d) == date_class(a, d) + date_class(b, d),
    decreases b.len(),
{
    if b.len() == 0 {
        assert(a + b == a);
    } else {
        assert((a + b).drop_last() == a + b.drop_last());
        assert((a + b).last() == b.last());
        lemma_date_class_add(a, b.drop_last(), d);
    }
}

proof fn lemma_date_class_none(s: Seq<LogEvent>, d: Seq<char>)
    requires
        forall|i: int| 0 <= i < s.len() ==> event_date(s[i]) != d,
    ensures
        date_class(s, d) == Seq::<LogEvent>::empty(),
    decreases s.len(),
{
    if s.len() > 0 {
        lemma_date_class_none(s.drop_last(), d);
    }
}

proof fn lemma_date_class_single(x: LogEvent, d: Seq<char>)
    ensures
        date_class(seq![x], d) == (if event_date(x) == d { seq![x] } else { Seq::empty() }),
{
    assert(seq![x].drop_last() == Seq::<LogEvent>::empty());
    assert(seq![x].last() == x);
    assert(date_class(Seq::<LogEvent>::empty(), d) == Seq::<LogEvent>::empty());
    assert(Seq::<LogEvent>::empty().push(x) == seq![x]);
}

/// The events stably sorted newest first (insertion sort on the date strings).
pub fn sort_newest_first(input: Vec<LogEvent>) -> (r: Vec<LogEvent>)
    ensures
        stable_date_sort(input@, r@),
{
    let ghost all = input@;
    let mut out: Vec<LogEvent> = Vec::new();
    for x in iter: input.into_iter()
        invariant
            iter.seq() == all,
            newest_first(out@),
            forall|d: Seq<char>| #[trigger]
                date_class(out@, d) == date_class(all.take(iter.index()), d),
    {
        let ghost done = all.take(iter.index());
        assert(all.take(iter.index() + 1) == done.push(x));
        let mut pos: usize = 0;
        while pos < out.len() && str_lex_le(x.date().as_str(), out[pos].date().as_str())
            invariant
                pos <= out@.len(),
                forall|i: int| 0 <= i < pos ==> lex_le(event_date(x), event_date(out@[i])),
            decreases out@.len() - pos,
        {
            pos = pos + 1;
        }
        let ghost before = out@;
        proof {
            assert forall|i: int| pos <= i < before.len() implies !lex_le(
                event_date(x),
                event_date(before[i]),
            ) by {
                assert(!lex_le(event_date(x), event_date(before[pos as int])));
                if lex_le(event_date(x), event_date(before[i])) {
                    lemma_lex_trans(event_date(x), event_date(before[i]), event_date(before[pos as int]));
                }
            }
            assert forall|i: int| pos <= i < before.len() implies lex_le(
                event_date(before[i]),
                event_date(x),
            ) by {
                lemma_lex_total(event_date(x), event_date(before[i]));
            }
        }
        out.insert(pos, x);
        proof {
            let a = before.take(pos as int);
            let b = before.skip(pos as int);
            assert(before == a + b);
            assert(out@ == a + seq![x] + b);
            assert forall|d: Seq<char>| #[trigger]
                date_class(out@, d) == date_class(done.push(x), d) by {
                lemma_date_class_add(a + seq![x], b, d);
                lemma_date_class_add(a, seq![x], d);
                lemma_date_class_add(a, b, d);
                lemma_date_class_single(x, d);
                assert(done.push(x).drop_last() == done);
                if d == event_date(x) {
                    assert forall|i: int| 0 <= i < b.len() implies event_date(b[i]) != d by {
                        assert(b[i] == before[pos + i]);
                        if event_date(b[i]) == d {
                            lemma_lex_refl(d);
                        }
                    }
                    lemma_date_class_none(b, d);
                }
            }
            assert forall|i: int, j: int| 0 <= i < j < out@.len() implies lex_le(
                event_date(out@[j]),
                event_date(out@[i]),
            ) by {
                if i < pos && j > pos {
                    assert(out@[j] == before[j - 1]);
                    lemma_lex_trans(event_date(out@[j]), event_date(x), event_date(out@[i]));
                } else if i < pos && j == pos {
                } else if i == pos {
                    assert(out@[j] == before[j - 1]);
                } else if j < pos {
                } else {
                    assert(out@[i] == before[i - 1]);
                    assert(out@[j] == before[j - 1]);
                }
            }
        }
    }
    assert(all.take(all.len() as int) == all);
    out
}

fn latest_completion_exec(tasks: &Vec<Task>) -> (r: Option<String>)
    ensures
        r == latest_completion(tasks@, tasks@.len() as int),
{
    let mut best: Option<String> = None;
    let mut j: usize = 0;
    while j < tasks.len()
        invariant
            j <= tasks@.len(),
            best == latest_completion(tasks@, j as int),
        decreases tasks@.len() - j,
    {
        match &tasks[j].completed_at {
            None => {},
            Some(c) => {
                match &best {
                    None => {
                        best = Some(c.clone());
                    },
                    Some(m) => {
                        if !str_lex_le(c.as_str(), m.as_str()) {
                            best = Some(c.clone());
                        }
                    },
                }
            },
        }
        j = j + 1;
    }
    best
}

fn required_done_exec(tasks: &Vec<Task>) -> (r: bool)
    ensures
        r == required_done(tasks@, tasks@.len() as int),
{
    let mut j: usize = 0;
    while j < tasks.len()
        invariant
            j <= tasks@.len(),
            required_done(tasks@, j as int),
        decreases tasks@.len() - j,
    {
        if !tasks[j].optional && !str_eq(tasks[j].status.as_str(), "done") {
            return false;
        }
        j = j + 1;
    }
    true
}

fn push_phase_events(p: &Phase, out: &mut Vec<LogEvent>)
    ensures
        final(out)@ == old(out)@ + phase_event(*p) + task_events(*p, p.tasks@.len() as int)
            + note_events(*p, p.notes@.len() as int),
{
    let ghost o0 = out@;
    if str_eq(p.status.as_str(), "done") {
        let date = match latest_completion_exec(&p.tasks) {
            Some(d) => d,
            None => p.updated_at.clone(),
        };
        out.push(LogEvent::PhaseDone { date, phase_id: p.id.clone(), phase_name: p.name.clone() });
    } else if p.tasks.len() > 0 && required_done_exec(&p.tasks) {
        let date = match latest_completion_exec(&p.tasks) {
            Some(d) => d,
            None => p.updated_at.clone(),
        };
        out.push(
            LogEvent::PhaseAllTasksDone { date, phase_id: p.id.clone(), phase_name: p.name.clone() },
        );
    }
    proof {
        if phase_event(*p).len() == 0 {
            assert(o0 + phase_event(*p) == o0);
        } else {
            assert(o0 + phase_event(*p) == o0.push(phase_event(*p)[0]));
        }
    }
    let ghost o1 = out@;
    let mut j: usize = 0;
    while j < p.tasks.len()
        invariant
            j <= p.tasks@.len(),
            out@ == o1 + task_events(*p, j as int),
        decreases p.tasks@.len() - j,
    {
        let t = &p.tasks[j];
        match &t.completed_at {
            Some(c) => {
                out.push(
                    LogEvent::TaskDone {
                        date: c.clone(),
                        task_id: t.id.clone(),
                        task_name: t.name.clone(),
                        phase_id: p.id.clone(),
                        phase_name: p.name.clone(),
                    },
                );
            },
            None => {},
        }
        j = j + 1;
    }
    let ghost o2 = out@;
    let mut k: usize = 0;
    while k < p.notes.len()
        invariant
            k <= p.notes@.len(),
            out@ == o2 + note_events(*p, k as int),
        decreases p.notes@.len() - k,
    {
        let n = &p.notes[k];
        out.push(
            LogEvent::Note {
                date: n.date.clone(),
                phase_id: p.id.clone(),
                phase_name: p.name.clone(),
                content: n.content.clone(),
            },
        );
        k = k + 1;
    }
}

/// All events of the roadmap and the bug store, in roadmap order.
pub fn collect_events(phases: &Vec<Phase>, bugs: &Vec<Bug>) -> (r: Vec<LogEvent>)
    ensures
        r@ == all_events(phases@, bugs@),
{
    let mut out: Vec<LogEvent> = Vec::new();
    let mut i: usize = 0;
    while i < phases.len()
        invariant
            i <= phases@.len(),
            out@ == phases_events(phases@, i as int),
        decreases phases@.len() - i,
    {
        push_phase_events(&phases[i], &mut out);
        i = i + 1;
    }
    let ghost o1 = out@;
    let mut b: usize = 0;
    while b < bugs.len()
        invariant
            b <= bugs@.len(),
            out@ == o1 + bugs_events(bugs@, b as int),
        decreases bugs@.len() - b,
    {
        let bug = &bugs[b];
        out.push(
            LogEvent::BugCreated {
                date: bug.created_at.clone(),
                bug_id: bug.id,
                bug_title: bug.title.clone(),
                severity: bug.severity.clone(),
            },
        );
        match &bug.resolved_at {
            Some(d) => {
                out.push(
                    LogEvent::BugResolved {
                        date: d.clone(),
                        bug_id: bug.id,
                        bug_title: bug.title.clone(),
                        resolution: bug.resolution.clone(),
                    },
                );
            },
            None => {},
        }
        b = b + 1;
    }
    out
}

/// The history: all events stably sorted newest first, at most `limit` of them.
pub fn history(phases: &Vec<Phase>, bugs: &Vec<Bug>, limit: usize) -> (r: Vec<LogEvent>)
    ensures
        exists|sorted: Seq<LogEvent>|
            stable_date_sort(all_events(phases@, bugs@), sorted) && r@ == sorted.take(
                if limit < sorted.len() {
                    limit as int
                } else {
                    sorted.len() as int
                },
            ),
{
    let events = collect_events(phases, bugs);
    let mut sorted = sort_newest_first(events);
    let ghost s = sorted@;
    sorted.truncate(limit);
    sorted
}

} // verus!
