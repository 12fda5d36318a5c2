//! Choosing the next tasks to work on (`roadmap next`).

use vstd::prelude::*;
use crate::model::{Phase, Task};
use crate::text::str_eq;

verus! {

/// Some task of the roadmap with this id is done.
pub open spec fn done_task(phases: Seq<Phase>, id: Seq<char>) -> bool {
    exists|i: int, j: int|
        #![trigger phases[i].tasks@[j]]
        0 <= i < phases.len() && 0 <= j < phases[i].tasks@.len() && phases[i].tasks@[j].status@
            == "done"@ && phases[i].tasks@[j].id@ == id
}

/// A task is blocked while one of the tasks blocking it is not done.
pub open spec fn blocked(phases: Seq<Phase>, t: Task) -> bool {
    exists|k: int| 0 <= k < t.blocked_by@.len() && !done_task(phases, (#[trigger] t.blocked_by@[k])@)
}

/// A pending, required task that nothing blocks.
pub open spec fn ready(phases: Seq<Phase>, t: Task) -> bool {
    t.status@ == "pending"@ && !t.optional && !blocked(phases, t)
}

/// Whether task `j` of phase `i` is picked by the first tier (tasks in
/// progress) or the second (ready tasks of phases in progress).
pub open spec fn picked(phases: Seq<Phase>, tier: int, i: int, j: int) -> bool {
    let t = phases[i].tasks@[j];
    if tier == 1 {
        t.status@ == "in_progress"@ && !blocked(phases, t)
    } else {
        phases[i].status@ == "in_progress"@ && ready(phases, t)
    }
}

/// The picks of a tier among the first `n` tasks of phase `i`.
pub open spec fn picks_in(phases: Seq<Phase>, tier: int, i: int, n: int) -> Seq<(usize, usize)>
    decreases n,
{
    if n <= 0 {
        Seq::empty()
    } else if picked(phases, tier, i, n - 1) {
        picks_in(phases, tier, i, n - 1).push((i as usize, (n - 1) as usize))
    } else {
        picks_in(phases, tier, i, n - 1)
    }
}

/// The picks of a tier among the first `n` phases.
pub open spec fn picks(phases: Seq<Phase>, tier: int, n: int) -> Seq<(usize, usize)>
    decreases n,
{
    if n <= 0 {
        Seq::empty()
    } else {
        picks(phases, tier, n - 1) + picks_in(phases, tier, n - 1, phases[n - 1].tasks@.len() as int)
    }
}

/// The position of the first ready task among the first `n` tasks of a phase.
pub open spec fn first_ready(phases: Seq<Phase>, p: Phase, n: int) -> Option<int>
    decreases n,
{
    if n <= 0 {
        None
    } else {
        match first_ready(phases, p, n - 1) {
            Some(j) => Some(j),
            None => if ready(phases, p.tasks@[n - 1]) {
                Some(n - 1)
            } else {
                None
            },
        }
    }
}

/// The third tier among the first `n` phases: for each pending phase, its
/// first ready task.
pub open spec fn pending_picks(phases: Seq<Phase>, n: int) -> Seq<(usize, usize)>
    decreases n,
{
    if n <= 0 {
        Seq::empty()
    } else {
        let p = phases[n - 1];
        let rest = pending_picks(phases, n - 1);
        if p.status@ == "pending"@ {
            match first_ready(phases, p, p.tasks@.len() as int) {
                Some(j) => rest.push(((n - 1) as usize, j as usize)),
                None => rest,
            }
        } else {
            rest
        }
    }
}

/// The next tasks, as (phase, task) positions: the tasks in progress, then
/// the ready tasks of the phases in progress, then the first ready task of
/// each pending phase; none of them blocked.
pub open spec fn next_tasks_spec(phases: Seq<Phase>) -> Seq<(usize, usize)> {
    picks(phases, 1, phases.len() as int) + picks(phases, 2, phases.len() as int) + pending_picks(
        phases,
        phases.len() as int,
    )
}

fn done_task_exec(phases: &Vec<Phase>, id: &String) -> (r: bool)
    ensures
        r == done_task(phases@, id@),
{
    let mut i: usize = 0;
    while i < phases.len()
        invariant
            i <= phases@.len(),
            forall|ii: int, j: int|
                #![trigger phases@[ii].tasks@[j]]
                0 <= ii < i && 0 <= j < phases@[ii].tasks@.len() ==> !(
                phases@[ii].tasks@[j].status@ == "done"@ && phases@[ii].tasks@[j].id@ == id@),
        decreases phases@.len() - i,
    {
        let mut j: usize = 0;
        while j < phases[i].tasks.len()
            invariant
                i < phases@.len(),
                j <= phases@[i as int].tasks@.len(),
                forall|ii: int, jj: int|
                    #![trigger phases@[ii].tasks@[jj]]
                    ((0 <= ii < i) || (ii == i && jj < j)) && 0 <= ii < phases@.len() && 0 <= jj
                        < phases@[ii].tasks@.len() ==> !(phases@[ii].tasks@[jj].status@ == "done"@
                        && phases@[ii].tasks@[jj].id@ == id@),
            decreases phases@[i as int].tasks@.len() - j,
        {
            let t = &phases[i].tasks[j];
            if str_eq(t.status.as_str(), "done") && t.id == *id {
                return true;
            }
            j = j + 1;
        }
        i = i + 1;
    }
    false
}

/// Whether the task is blocked by a task that is not done.
pub fn is_blocked(phases: &Vec<Phase>, t: &Task) -> (r: bool)
    ensures
        r == blocked(phases@, *t),
{
    let mut k: usize = 0;
    while k < t.blocked_by.len()
        invariant
            k <= t.blocked_by@.len(),
            forall|kk: int| 0 <= kk < k ==> done_task(phases@, (#[trigger] t.blocked_by@[kk])@),
        decreases t.blocked_by@.len() - k,
    {
        if !done_task_exec(phases, &t.blocked_by[k]) {
            return true;
        }
        k = k + 1;
    }
    false
}

fn is_ready(phases: &Vec<Phase>, t: &Task) -> (r: bool)
    ensures
        r == ready(phases@, *t),
{
    str_eq(t.status.as_str(), "pending") && !t.optional && !is_blocked(phases, t)
}

fn picked_exec(phases: &Vec<Phase>, tier: u8, i: usize, j: usize) -> (r: bool)
    requires
        tier == 1 || tier == 2,
        i < phases@.len(),
        j < phases@[i as int].tasks@.len(),
    ensures
        r == picked(phases@, tier as int, i as int, j as int),
{
    let t = &phases[i].tasks[j];
    if tier == 1 {
        str_eq(t.status.as_str(), "in_progress") && !is_blocked(phases, t)
    } else {
        str_eq(phases[i].status.as_str(), "in_progress") && is_ready(phases, t)
    }
}

fn push_tier(phases: &Vec<Phase>, tier: u8, out: &mut Vec<(usize, usize)>)
    requires
        tier == 1 || tier == 2,
    ensures
        final(out)@ == old(out)@ + picks(phases@, tier as int, phases@.len() as int),
{
    let ghost o0 = out@;
    let mut i: usize = 0;
    while i < phases.len()
        invariant
            tier == 1 || tier == 2,
            i <= phases@.len(),
            out@ == o0 + picks(phases@, tier as int, i as int),
        decreases phases@.len() - i,
    {
        let ghost o1 = out@;
        let mut j: usize = 0;
        while j < phases[i].tasks.len()
            invariant
                tier == 1 || tier == 2,
                i < phases@.len(),
                j <= phases@[i as int].tasks@.len(),
                out@ == o1 + picks_in(phases@, tier as int, i as int, j as int),
            decreases phases@[i as int].tasks@.len() - j,
        {
            if picked_exec(phases, tier, i, j) {
                out.push((i, j));
            }
            j = j + 1;
        }
        i = i + 1;
    }
}

/// The next tasks to work on, as (phase, task) positions.
pub fn next_tasks(phases: &Vec<Phase>) -> (r: Vec<(usize, usize)>)
    ensures
        r@ == next_tasks_spec(phases@),
{
    let mut out: Vec<(usize, usize)> = Vec::new();
    push_tier(phases, 1, &mut out);
    push_tier(phases, 2, &mut out);
    let ghost o2 = out@;
    let mut i: usize = 0;
    while i < phases.len()
        invariant
            i <= phases@.len(),
            out@ == o2 + pending_picks(phases@, i as int),
        decreases phases@.len() - i,
    {
        let p = &phases[i];
        if str_eq(p.status.as_str(), "pending") {
            let mut j: usize = 0;
            let mut found = false;
            while j < p.tasks.len()
                invariant_except_break
                    !found,
                invariant
                    i < phases@.len(),
                    *p == phases@[i as int],
                    j <= p.tasks@.len(),
                    first_ready(phases@, *p, j as int) is None,
                ensures
                    found ==> j < p.tasks@.len() && ready(phases@, p.tasks@[j as int])
                        && first_ready(phases@, *p, j as int) is None,
                    !found ==> first_ready(phases@, *p, p.tasks@.len() as int) is None,
                decreases p.tasks@.len() - j,
            {
                if is_ready(phases, &p.tasks[j]) {
                    found = true;
                    break;
                }
                j = j + 1;
            }
            if found {
                assert(first_ready(phases@, *p, j as int + 1) == Some(j as int));
                proof {
                    lemma_first_ready_stable(phases@, *p, j as int + 1, p.tasks@.len() as int);
                }
                out.push((i, j));
            }
        }
        i = i + 1;
    }
    out
}

proof fn lemma_first_ready_stable(phases: Seq<Phase>, p: Phase, a: int, b: int)
    requires
        0 <= a <= b,
        first_ready(phases, p, a) is Some,
    ensures
        first_ready(phases, p, b) == first_ready(phases, p, a),
    decreases b - a,
{
    if a < b {
        lemma_first_ready_stable(phases, p, a, b - 1);
    }
}

} // verus!
