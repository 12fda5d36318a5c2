//! Keyword search across phases, tasks and notes (`roadmap search`).

use vstd::prelude::*;
use crate::model::{Phase, Task};
use crate::text::{contains_seq, spec_lowercase, to_lowercase, contains};

verus! {

/// A search result: a phase, a task of a phase, or a note of a phase, by position.
pub enum SearchHit {
    Phase(usize),
    Task(usize, usize),
    Note(usize, usize),
}

/// `text` holds the (already lower-cased) query, ignoring case.
pub open spec fn hit(text: Seq<char>, q: Seq<char>) -> bool {
    contains_seq(spec_lowercase(text), q)
}

/// Some of the first `n` tags holds the query.
pub open spec fn tag_hit(tags: Seq<String>, q: Seq<char>) -> bool {
    exists|k: int| 0 <= k < tags.len() && hit((#[trigger] tags[k])@, q)
}

/// A phase matches by its name or description.
pub open spec fn phase_hit(p: Phase, q: Seq<char>) -> bool {
    hit(p.name@, q) || hit(p.description@, q)
}

/// A task matches by its name, description or one of its tags.
pub open spec fn task_hit(t: Task, q: Seq<char>) -> bool {
    hit(t.name@, q) || (t.description matches Some(d) && hit(d@, q)) || tag_hit(t.tags@, q)
}

/// The task hits among the first `n` tasks of phase `i`.
pub open spec fn task_hits(phases: Seq<Phase>, q: Seq<char>, i: int, n: int) -> Seq<SearchHit>
    decreases n,
{
    if n <= 0 {
        Seq::empty()
    } else if task_hit(phases[i].tasks@[n - 1], q) {
        task_hits(phases, q, i, n - 1).push(SearchHit::Task(i as usize, (n - 1) as usize))
    } else {
        task_hits(phases, q, i, n - 1)
    }
}

/// The note hits among the first `n` notes of phase `i`.
pub open spec fn note_hits(phases: Seq<Phase>, q: Seq<char>, i: int, n: int) -> Seq<SearchHit>
    decreases n,
{
    if n <= 0 {
        Seq::empty()
    } else if hit(phases[i].notes@[n - 1].content@, q) {
        note_hits(phases, q, i, n - 1).push(SearchHit::Note(i as usize, (n - 1) as usize))
    } else {
        note_hits(phases, q, i, n - 1)
    }
}

/// The hits of the first `n` phases: for each phase, itself, then its tasks,
/// then its notes.
pub open spec fn search_hits(phases: Seq<Phase>, q: Seq<char>, n: int) -> Seq<SearchHit>
    decreases n,
{
    if n <= 0 {
        Seq::empty()
    } else {
        let i = n - 1;
        let p = phases[i];
        search_hits(phases, q, n - 1) + (if phase_hit(p, q) {
            seq![SearchHit::Phase(i as usize)]
        } else {
            Seq::empty()
        }) + task_hits(phases, q, i, p.tasks@.len() as int) + note_hits(
            phases,
            q,
            i,
            p.notes@.len() as int,
        )
    }
}

fn hit_exec(text: &String, q: &String) -> (r: bool)
    ensures
        r == hit(text@, q@),
{
    let low = to_lowercase(text.as_str());
    contains(low.as_str(), q.as_str())
}

fn task_hit_exec(t: &Task, q: &String) -> (r: bool)
    ensures
        r == task_hit(*t, q@),
{
    if hit_exec(&t.name, q) {
        return true;
    }
    match &t.description {
        Some(d) => {
            if hit_exec(d, q) {
                return true;
            }
        },
        None => {},
    }
    let mut k: usize = 0;
    while k < t.tags.len()
        invariant
            k <= t.tags@.len(),
            forall|kk: int| 0 <= kk < k ==> !hit((#[trigger] t.tags@[kk])@, q@),
        decreases t.tags@.len() - k,
    {
        if hit_exec(&t.tags[k], q) {
            return true;
        }
        k = k + 1;
    }
    false
}

/// Searches the phases for the query, ignoring case.
pub fn search(phases: &Vec<Phase>, query: &str) -> (r: Vec<SearchHit>)
    ensures
        r@ == search_hits(phases@, spec_lowercase(query@), phases@.len() as int),
{
    let q = to_lowercase(query);
    let mut out: Vec<SearchHit> = Vec::new();
    let mut i: usize = 0;
    while i < phases.len()
        invariant
            i <= phases@.len(),
            q@ == spec_lowercase(query@),
            out@ == search_hits(phases@, q@, i as int),
        decreases phases@.len() - i,
    {
        let p = &phases[i];
        let ghost o0 = out@;
        if hit_exec(&p.name, &q) || hit_exec(&p.description, &q) {
            out.push(SearchHit::Phase(i));
            assert(out@ == o0 + seq![SearchHit::Phase(i)]);
        } else {
            assert(out@ == o0 + Seq::<SearchHit>::empty());
        }
        let ghost o1 = out@;
        let mut j: usize = 0;
        while j < p.tasks.len()
            invariant
                i < phases@.len(),
                *p == phases@[i as int],
                j <= p.tasks@.len(),
                out@ == o1 + task_hits(phases@, q@, i as int, j as int),
            decreases p.tasks@.len() - j,
        {
            if task_hit_exec(&p.tasks[j], &q) {
                out.push(SearchHit::Task(i, j));
            }
            j = j + 1;
        }
        let ghost o2 = out@;
        let mut k: usize = 0;
        while k < p.notes.len()
            invariant
                i < phases@.len(),
                *p == phases@[i as int],
                k <= p.notes@.len(),
                out@ == o2 + note_hits(phases@, q@, i as int, k as int),
            decreases p.notes@.len() - k,
        {
            if hit_exec(&p.notes[k].content, &q) {
                out.push(SearchHit::Note(i, k));
            }
            k = k + 1;
        }
        i = i + 1;
    }
    out
}

} // verus!
