//! Loading the phases of a roadmap from the files of its `.phases` directory.

use vstd::prelude::*;
use crate::model::Phase;
use crate::text::{is_prefix, is_suffix, starts_with, ends_with};

verus! {

/// One entry of the `.phases` directory: its file name, and the phase that
/// its content parses to, if it is readable and parses.
pub struct PhaseFile {
    pub name: String,
    pub phase: Option<Phase>,
}

/// A file name of the form `phase-*.yml`.
pub open spec fn is_phase_file_name(name: Seq<char>) -> bool {
    is_prefix("phase-"@, name) && is_suffix(".yml"@, name)
}

/// Whether a file name has the form `phase-*.yml`.
pub fn phase_file_name(name: &str) -> (r: bool)
    ensures
        r == is_phase_file_name(name@),
{
    starts_with(name, "phase-") && ends_with(name, ".yml")
}

/// The phases of the directory entries that are phase files and parse, in
/// directory order.
pub open spec fn loadable(files: Seq<PhaseFile>) -> Seq<Phase>
    decreases files.len(),
{
    if files.len() == 0 {
        Seq::empty()
    } else {
        let rest = loadable(files.drop_last());
        let f = files.last();
        if is_phase_file_name(f.name@) && f.phase is Some {
            rest.push(f.phase->0)
        } else {
            rest
        }
    }
}

/// The phases of `s` whose priority is `k`, in their order in `s`.
pub open spec fn priority_class(s: Seq<Phase>, k: u32) -> Seq<Phase>
    decreases s.len(),
{
    if s.len() == 0 {
        Seq::empty()
    } else if s.last().priority == k {
        priority_class(s.drop_last(), k).push(s.last())
    } else {
        priority_class(s.drop_last(), k)
    }
}

/// The phases of `s` come in order of priority, lowest number first.
pub open spec fn sorted_by_priority(s: Seq<Phase>) -> bool {
    forall|i: int, j: int| 0 <= i < j < s.len() ==> s[i].priority <= s[j].priority
}

/// `out` is `input` stably sorted by priority: sorted, and the phases of each
/// priority come in the order they had in `input`.
pub open spec fn stable_priority_sort(input: Seq<Phase>, out: Seq<Phase>) -> bool {
    &&& sorted_by_priority(out)
    &&& forall|k: u32| #[trigger] priority_class(out, k) == priority_class(input, k)
}

proof fn lemma_class_add(a: Seq<Phase>, b: Seq<Phase>, k: u32)
    ensures
        priority_class(a + b, k) == priority_class(a, k) + priority_class(b, k),
    decreases b.len(),
{
    if b.len() == 0 {
        assert(a + b == a);
    } else {
        assert((a + b).drop_last() == a + b.drop_last());
        assert((a + b).last() == b.last());
        lemma_class_add(a, b.drop_last(), k);
    }
}

proof fn lemma_class_none(s: Seq<Phase>, k: u32)
    requires
        forall|i: int| 0 <= i < s.len() ==> s[i].priority != k,
    ensures
        priority_class(s, k) == Seq::<Phase>::empty(),
    decreases s.len(),
{
    if s.len() > 0 {
        lemma_class_none(s.drop_last(), k);
    }
}

proof fn lemma_class_single(x: Phase, k: u32)
    ensures
        priority_class(seq![x], k) == (if x.priority == k { seq![x] } else { Seq::empty() }),
{
    assert(seq![x].drop_last() == Seq::<Phase>::empty());
    assert(seq![x].last() == x);
    assert(priority_class(Seq::<Phase>::empty(), k) == Seq::<Phase>::empty());
    assert(Seq::<Phase>::empty().push(x) == seq![x]);
}

/// The loadable phases of the directory listing, stably sorted by priority;
/// `None` when the directory is missing or cannot be read.
pub fn load_phases(listing: Option<Vec<PhaseFile>>) -> (r: Option<Vec<Phase>>)
    ensures
        listing is None <==> r is None,
        listing matches Some(files) ==> stable_priority_sort(loadable(files@), r->0@),
{
    let files = match listing {
        None => {
            return None;
        },
        Some(f) => f,
    };
    let ghost all = files@;
    let mut found: Vec<Phase> = Vec::new();
    for f in iter: files.into_iter()
        invariant
            iter.seq() == all,
            found@ == loadable(all.take(iter.index())),
    {
        assert(all.take(iter.index() + 1).drop_last() == all.take(iter.index()));
        let keep = phase_file_name(f.name.as_str());
        if keep {
            match f.phase {
                Some(p) => {
                    found.push(p);
                },
                None => {},
            }
        }
    }
    assert(all.take(all.len() as int) == all);
    Some(sort_by_priority(found))
}

/// The phases stably sorted by priority (insertion sort).
pub fn sort_by_priority(input: Vec<Phase>) -> (r: Vec<Phase>)
    ensures
        stable_priority_sort(input@, r@),
{
    let ghost all = input@;
    let mut out: Vec<Phase> = Vec::new();
    for x in iter: input.into_iter()
        invariant
            iter.seq() == all,
            sorted_by_priority(out@),
            forall|k: u32| #[trigger]
                priority_class(out@, k) == priority_class(all.take(iter.index()), k),
    {
        let ghost done = all.take(iter.index());
        assert(all.take(iter.index() + 1) == done.push(x));
        let mut pos: usize = 0;
        while pos < out.len() && out[pos].priority <= x.priority
            invariant
                pos <= out@.len(),
                forall|i: int| 0 <= i < pos ==> out@[i].priority <= x.priority,
            decreases out@.len() - pos,
        {
            pos = pos + 1;
        }
        let ghost before = out@;
        proof {
            assert forall|i: int| pos <= i < before.len() implies before[i].priority
                > x.priority by {
                assert(before[pos as int].priority > x.priority);
                assert(before[pos as int].priority <= before[i].priority);
            }
        }
        out.insert(pos, x);
        proof {
            let a = before.take(pos as int);
            let b = before.skip(pos as int);
            assert(before == a + b);
            assert(out@ == a + seq![x] + b);
            assert forall|k: u32| #[trigger]
                priority_class(out@, k) == priority_class(done.push(x), k) by {
                lemma_class_add(a + seq![x], b, k);
                lemma_class_add(a, seq![x], k);
                lemma_class_add(a, b, k);
                lemma_class_single(x, k);
                assert(done.push(x).drop_last() == done);
                if k == x.priority {
                    lemma_class_none(b, k);
                }
            }
            assert forall|i: int, j: int| 0 <= i < j < out@.len() implies out@[i].priority
                <= out@[j].priority by {
                if i < pos && j > pos {
                    assert(out@[j] == before[j - 1]);
                } else if i < pos && j == pos {
                } else if i == pos {
                    assert(out@[j] == before[j - 1]);
                } else if j < pos {
                } else {
                    assert(out@[i] == before[i - 1]);
                    assert(out@[j] == before[j - 1]);
                }
            }
        }
    }
    assert(all.take(all.len() as int) == all);
    out
}

} // verus!
