//! `roadmap show <id>`: one phase in detail, its tasks as a tree and the
//! bugs attached to it.

use vstd::prelude::*;
use crate::model::{Task, Bug};
use crate::phase_ops::today;
use crate::text::{lex_le, str_eq, str_lex_le};

verus! {

/// A task has the parent: none for a top-level task, or the task of that id.
pub open spec fn parent_is(t: Task, parent: Option<Seq<char>>) -> bool {
    match t.parent {
        None => parent is None,
        Some(p) => parent == Some(p@),
    }
}

/// Listing the tasks under `parent` ends within `fuel` levels: each task
/// under it has a level left for its own subtasks.
pub open spec fn tree_within(tasks: Seq<Task>, parent: Option<Seq<char>>, fuel: nat) -> bool
    decreases fuel,
{
    forall|i: int|
        #![trigger tasks[i]]
        0 <= i < tasks.len() && parent_is(tasks[i], parent) ==> fuel > 0 && tree_within(
            tasks,
            Some(tasks[i].id@),
            (fuel - 1) as nat,
        )
}

/// The tasks form a tree from the top-level ones: following parents from a
/// top-level task never comes back to a task (else the listing would not end).
pub open spec fn forms_tree(tasks: Seq<Task>) -> bool {
    tree_within(tasks, None, tasks.len())
}

/// A row of the task tree: the position of the task and its depth (a
/// top-level task has depth 0; it is shown indented by `4 + 2 * depth`).
pub struct TaskRow {
    pub index: usize,
    pub depth: usize,
}

/// The rows of the tree under `parent`, among the first `n` tasks, at the
/// depth given: each task followed by the rows of its subtasks.
pub open spec fn rows_under(tasks: Seq<Task>, parent: Option<Seq<char>>, depth: int, fuel: nat, n: int) -> Seq<
    (int, int),
>
    decreases fuel, n,
{
    if n <= 0 || fuel == 0 || n > tasks.len() {
        Seq::empty()
    } else {
        rows_under(tasks, parent, depth, fuel, n - 1) + if parent_is(tasks[n - 1], parent) {
            seq![(n - 1, depth)] + rows_under(
                tasks,
                Some(tasks[n - 1].id@),
                depth + 1,
                (fuel - 1) as nat,
                tasks.len() as int,
            )
        } else {
            Seq::empty()
        }
    }
}

/// The models of rows.
pub open spec fn row_views(rows: Seq<TaskRow>) -> Seq<(int, int)> {
    rows.map_values(|r: TaskRow| (r.index as int, r.depth as int))
}

/// Whether a task has the parent.
fn has_parent(t: &Task, parent: Option<&str>) -> (r: bool)
    ensures
        r == parent_is(
            *t,
            match parent {
                Some(p) => Some(p@),
                None => None,
            },
        ),
{
    match (&t.parent, parent) {
        (None, None) => true,
        (Some(p), Some(q)) => str_eq(p.as_str(), q),
        _ => false,
    }
}

/// Whether listing the tasks under `parent` ends within `fuel` levels.
fn within(tasks: &Vec<Task>, parent: Option<&str>, fuel: usize) -> (r: bool)
    ensures
        r == tree_within(
            tasks@,
            match parent {
                Some(p) => Some(p@),
                None => None,
            },
            fuel as nat,
        ),
    decreases fuel,
{
    let ghost pv = match parent {
        Some(p) => Some(p@),
        None => None,
    };
    let mut i: usize = 0;
    while i < tasks.len()
        invariant
            i <= tasks@.len(),
            pv == match parent {
                Some(p) => Some(p@),
                None => None::<Seq<char>>,
            },
            forall|j: int|
                #![trigger tasks@[j]]
                0 <= j < i && parent_is(tasks@[j], pv) ==> fuel > 0 && tree_within(
                    tasks@,
                    Some(tasks@[j].id@),
                    (fuel - 1) as nat,
                ),
        decreases tasks@.len() - i,
    {
        if has_parent(&tasks[i], parent) {
            if fuel == 0 {
                return false;
            }
            if !within(tasks, Some(tasks[i].id.as_str()), fuel - 1) {
                return false;
            }
        }
        i = i + 1;
    }
    true
}

/// Whether the tasks form a tree (see `forms_tree`).
pub fn is_tree(tasks: &Vec<Task>) -> (r: bool)
    ensures
        r == forms_tree(tasks@),
{
    within(tasks, None, tasks.len())
}

/// Appends the rows of the tree under `parent`.
fn push_rows(
    tasks: &Vec<Task>,
    parent: Option<&str>,
    depth: usize,
    fuel: usize,
    out: &mut Vec<TaskRow>,
)
    requires
        tree_within(
            tasks@,
            match parent {
                Some(p) => Some(p@),
                None => None,
            },
            fuel as nat,
        ),
        depth + fuel <= tasks@.len(),
    ensures
        row_views(final(out)@) == row_views(old(out)@) + rows_under(
            tasks@,
            match parent {
                Some(p) => Some(p@),
                None => None,
            },
            depth as int,
            fuel as nat,
            tasks@.len() as int,
        ),
    decreases fuel,
{
    let ghost pv = match parent {
        Some(p) => Some(p@),
        None => None,
    };
    let ghost start = row_views(out@);
    if fuel == 0 {
        assert(start + rows_under(tasks@, pv, depth as int, 0, tasks@.len() as int) =~= start);
        return;
    }
    let mut i: usize = 0;
    assert(start + rows_under(tasks@, pv, depth as int, fuel as nat, 0) =~= start);
    while i < tasks.len()
        invariant
            i <= tasks@.len(),
            fuel > 0,
            depth + fuel <= tasks@.len(),
            pv == match parent {
                Some(p) => Some(p@),
                None => None::<Seq<char>>,
            },
            tree_within(tasks@, pv, fuel as nat),
            row_views(out@) == start + rows_under(tasks@, pv, depth as int, fuel as nat, i as int),
        decreases tasks@.len() - i,
    {
        if has_parent(&tasks[i], parent) {
            let ghost before = row_views(out@);
            let row = TaskRow { index: i, depth };
            out.push(row);
            assert(row_views(out@) =~= before.push((i as int, depth as int)));
            push_rows(tasks, Some(tasks[i].id.as_str()), depth + 1, fuel - 1, out);
            assert(row_views(out@) =~= start + rows_under(tasks@, pv, depth as int, fuel as nat, i + 1));
        }
        i = i + 1;
    }
}

/// The rows of the task tree of a phase: the top-level tasks in order, each
/// followed by the rows of its subtasks, one level deeper.
pub fn task_rows(tasks: &Vec<Task>) -> (r: Vec<TaskRow>)
    requires
        forms_tree(tasks@),
    ensures
        row_views(r@) == rows_under(tasks@, None, 0, tasks@.len() as nat, tasks@.len() as int),
{
    let mut out: Vec<TaskRow> = Vec::new();
    push_rows(tasks, None, 0, tasks.len(), &mut out);
    assert(row_views(Seq::<TaskRow>::empty()) =~= Seq::<(int, int)>::empty());
    out
}

/// A due date is past: it comes before today (dates compared as text, in
/// `YYYY-MM-DD` form) and the task is not done.
pub open spec fn overdue(due: Seq<char>, today: Seq<char>, status: Seq<char>) -> bool {
    !lex_le(today, due) && status != "done"@
}

/// Whether a due date is past (see `overdue`).
pub fn is_overdue(due: &str, today: &str, status: &str) -> (r: bool)
    ensures
        r == overdue(due@, today@, status@),
{
    !str_lex_le(today, due) && !str_eq(status, "done")
}

/// A task is late on a day: it has a due date, past on that day (see
/// `overdue`).
pub open spec fn late_on(t: Task, day: Seq<char>) -> bool {
    t.due matches Some(d) && overdue(d@, day, t.status@)
}

/// Whether a task is late today (the date is read from the clock): a task
/// with a due date is late when that date is past on the day read (see
/// `overdue`); a task without one never is.
pub fn task_overdue(t: &Task) -> (r: bool)
    ensures
        exists|day: Seq<char>| #[trigger] late_on(*t, day) == r,
{
    match &t.due {
        Some(d) => {
            let now = today();
            let r = is_overdue(d.as_str(), now.as_str(), t.status.as_str());
            assert(late_on(*t, now@) == r);
            r
        },
        None => {
            assert(!late_on(*t, Seq::<char>::empty()));
            false
        },
    }
}

/// The positions, among the first `n` bugs, of those attached to the phase.
pub open spec fn bugs_of_phase(bugs: Seq<Bug>, phase: Seq<char>, n: int) -> Seq<int>
    decreases n,
{
    if n <= 0 {
        Seq::empty()
    } else {
        bugs_of_phase(bugs, phase, n - 1) + if bugs[n - 1].phase matches Some(p) && p@ == phase {
            seq![n - 1]
        } else {
            Seq::empty()
        }
    }
}

/// The positions of the bugs attached to the phase, in order.
pub fn phase_bugs(bugs: &Vec<Bug>, phase: &str) -> (r: Vec<usize>)
    ensures
        r@.map_values(|i: usize| i as int) == bugs_of_phase(bugs@, phase@, bugs@.len() as int),
{
    let mut r: Vec<usize> = Vec::new();
    let mut i: usize = 0;
    while i < bugs.len()
        invariant
            i <= bugs@.len(),
            r@.map_values(|x: usize| x as int) == bugs_of_phase(bugs@, phase@, i as int),
        decreases bugs@.len() - i,
    {
        let attached = match &bugs[i].phase {
            Some(p) => str_eq(p.as_str(), phase),
            None => false,
        };
        if attached {
            let ghost before = r@;
            r.push(i);
            assert(r@.map_values(|x: usize| x as int) =~= before.map_values(|x: usize| x as int).push(
                i as int,
            ));
        }
        i = i + 1;
    }
    r
}

/// The icon of a bug's severity on a phase's page.
pub open spec fn severity_mark(severity: Seq<char>) -> Seq<char> {
    if severity == "blocking"@ {
        "🔴"@
    } else if severity == "major"@ {
        "🟠"@
    } else {
        "🟡"@
    }
}

/// The icon of a bug's severity on a phase's page.
pub fn severity_mark_of(severity: &str) -> (r: &'static str)
    ensures
        r@ == severity_mark(severity@),
{
    if str_eq(severity, "blocking") {
        "🔴"
    } else if str_eq(severity, "major") {
        "🟠"
    } else {
        "🟡"
    }
}

/// The icon of a bug's status on a phase's page.
pub open spec fn bug_status_mark(status: Seq<char>) -> Seq<char> {
    if status == "resolved"@ {
        "✅"@
    } else if status == "in_progress"@ {
        "🔄"@
    } else if status == "wontfix"@ {
        "⏭️"@
    } else {
        "⬜"@
    }
}

/// The icon of a bug's status on a phase's page.
pub fn bug_status_mark_of(status: &str) -> (r: &'static str)
    ensures
        r@ == bug_status_mark(status@),
{
    if str_eq(status, "resolved") {
        "✅"
    } else if str_eq(status, "in_progress") {
        "🔄"
    } else if str_eq(status, "wontfix") {
        "⏭️"
    } else {
        "⬜"
    }
}


/// No two tasks have the same id.
pub open spec fn ids_distinct(tasks: Seq<Task>) -> bool {
    forall|i: int, j: int| 0 <= i < j < tasks.len() ==> (#[trigger] tasks[i]).id@ != (#[trigger] tasks[j]).id@
}

/// A chain of tasks from a top-level one down, each the parent of the next
/// (by position, each position once).
pub open spec fn is_chain(tasks: Seq<Task>, chain: Seq<int>) -> bool {
    &&& chain.len() >= 1
    &&& chain.no_duplicates()
    &&& forall|k: int| 0 <= k < chain.len() ==> 0 <= #[trigger] chain[k] < tasks.len()
    &&& tasks[chain[0]].parent is None
    &&& forall|k: int|
        0 < k < chain.len() ==> parent_is(tasks[#[trigger] chain[k]], Some(tasks[chain[k - 1]].id@))
}

/// A chain holds no more tasks than there are.
proof fn lemma_chain_len(tasks: Seq<Task>, chain: Seq<int>)
    requires
        is_chain(tasks, chain),
    ensures
        chain.len() <= tasks.len(),
{
    chain.unique_seq_to_set();
    vstd::set_lib::lemma_int_range(0, tasks.len() as int);
    assert(chain.to_set().subset_of(vstd::set_lib::set_int_range(0, tasks.len() as int)));
    vstd::set_lib::lemma_len_subset(chain.to_set(), vstd::set_lib::set_int_range(0, tasks.len() as int));
}

/// Under the last task of a chain, the listing ends within the levels left.
proof fn lemma_chain_within(tasks: Seq<Task>, chain: Seq<int>, fuel: nat)
    requires
        ids_distinct(tasks),
        is_chain(tasks, chain),
        chain.len() + fuel >= tasks.len(),
    ensures
        tree_within(tasks, Some(tasks[chain.last()].id@), fuel),
    decreases fuel,
{
    let last = chain.last();
    assert forall|i: int|
        #![trigger tasks[i]]
        0 <= i < tasks.len() && parent_is(tasks[i], Some(tasks[last].id@)) implies fuel > 0 && tree_within(
        tasks,
        Some(tasks[i].id@),
        (fuel - 1) as nat,
    ) by {
        if chain.contains(i) {
            let j = choose|j: int| 0 <= j < chain.len() && chain[j] == i;
            if j == 0 {
                assert(tasks[chain[0]].parent is None);
            } else {
                assert(parent_is(tasks[chain[j]], Some(tasks[chain[j - 1]].id@)));
                assert(tasks[chain[j - 1]].id@ == tasks[last].id@);
                if chain[j - 1] != last {
                    if chain[j - 1] < last {
                        assert(tasks[chain[j - 1]].id@ != tasks[last].id@);
                    } else {
                        assert(tasks[last].id@ != tasks[chain[j - 1]].id@);
                    }
                }
                assert(chain[j - 1] == chain[chain.len() - 1]);
                assert(j - 1 == chain.len() - 1);
            }
        }
        let next = chain.push(i);
        assert(next.no_duplicates()) by {
            assert forall|a: int, b: int| 0 <= a < next.len() && 0 <= b < next.len() && a != b implies next[a]
                != next[b] by {
                if a < chain.len() && b < chain.len() {
                } else if a == chain.len() {
                    assert(chain.contains(next[b]) || b == a);
                } else {
                    assert(chain.contains(next[a]) || b == a);
                }
            }
        }
        assert(next.last() == i);
        assert forall|k: int| 0 < k < next.len() implies parent_is(tasks[#[trigger] next[k]], Some(tasks[next[k - 1]].id@)) by {
            if k < chain.len() {
                assert(next[k] == chain[k] && next[k - 1] == chain[k - 1]);
            }
        }
        assert(is_chain(tasks, next));
        lemma_chain_len(tasks, next);
        lemma_chain_within(tasks, next, (fuel - 1) as nat);
    }
}

/// Tasks with distinct ids always form a tree: a task's parent is at most
/// one task, so following subtasks down from the top-level ones never comes
/// back to a task.
pub proof fn lemma_distinct_ids_form_tree(tasks: Seq<Task>)
    requires
        ids_distinct(tasks),
    ensures
        forms_tree(tasks),
{
    assert forall|i: int|
        #![trigger tasks[i]]
        0 <= i < tasks.len() && parent_is(tasks[i], None) implies tasks.len() > 0 && tree_within(
        tasks,
        Some(tasks[i].id@),
        (tasks.len() - 1) as nat,
    ) by {
        let chain = seq![i];
        assert(chain.no_duplicates());
        assert(is_chain(tasks, chain));
        lemma_chain_within(tasks, chain, (tasks.len() - 1) as nat);
    }
}

} // verus!
