//! The progress report (`roadmap report`, `/api/report`) and the per-phase
//! summaries shown by the web views.

use vstd::prelude::*;
use crate::model::{Phase, Task, Bug, FeatureRequest};
use crate::text::str_eq;

verus! {

/// The bucket of a phase in the report: 0 in progress, 1 done, 2 blocked,
/// 3 any other status (shown as pending).
pub open spec fn phase_bucket(p: Phase) -> int {
    if p.status@ == "in_progress"@ {
        0
    } else if p.status@ == "done"@ {
        1
    } else if p.status@ == "blocked"@ {
        2
    } else {
        3
    }
}

/// The task categories of the report: 0 done, 1 in progress, 2 pending and
/// required, 3 optional and not done, 4 blocked.
pub open spec fn task_in_category(t: Task, c: int) -> bool {
    if c == 0 {
        t.status@ == "done"@
    } else if c == 1 {
        t.status@ == "in_progress"@
    } else if c == 2 {
        t.status@ == "pending"@ && !t.optional
    } else if c == 3 {
        t.optional && t.status@ != "done"@
    } else {
        t.status@ == "blocked"@
    }
}

/// The positions, among the first `n` phases, of the phases of a bucket.
pub open spec fn phases_in_bucket(phases: Seq<Phase>, b: int, n: int) -> Seq<usize>
    decreases n,
{
    if n <= 0 {
        Seq::empty()
    } else if phase_bucket(phases[n - 1]) == b {
        phases_in_bucket(phases, b, n - 1).push((n - 1) as usize)
    } else {
        phases_in_bucket(phases, b, n - 1)
    }
}

/// The positions, among the first `n` tasks of phase `i`, of the tasks of a category.
pub open spec fn tasks_of_phase_in(phases: Seq<Phase>, c: int, i: int, n: int) -> Seq<(usize, usize)>
    decreases n,
{
    if n <= 0 {
        Seq::empty()
    } else if task_in_category(phases[i].tasks@[n - 1], c) {
        tasks_of_phase_in(phases, c, i, n - 1).push((i as usize, (n - 1) as usize))
    } else {
        tasks_of_phase_in(phases, c, i, n - 1)
    }
}

/// The (phase, task) positions of the tasks of a category among the first `n` phases.
pub open spec fn tasks_in(phases: Seq<Phase>, c: int, n: int) -> Seq<(usize, usize)>
    decreases n,
{
    if n <= 0 {
        Seq::empty()
    } else {
        tasks_in(phases, c, n - 1) + tasks_of_phase_in(
            phases,
            c,
            n - 1,
            phases[n - 1].tasks@.len() as int,
        )
    }
}

/// The number of tasks of the first `n` phases.
pub open spec fn total_tasks(phases: Seq<Phase>, n: int) -> nat
    decreases n,
{
    if n <= 0 {
        0
    } else {
        total_tasks(phases, n - 1) + phases[n - 1].tasks@.len()
    }
}

/// What the progress report is computed from: the phases by bucket and the
/// tasks by category, each in roadmap order.
pub struct Report {
    pub phases_in_progress: Vec<usize>,
    pub phases_done: Vec<usize>,
    pub phases_blocked: Vec<usize>,
    pub phases_pending: Vec<usize>,
    pub total_tasks: usize,
    pub tasks_done: Vec<(usize, usize)>,
    pub tasks_in_progress: Vec<(usize, usize)>,
    pub tasks_pending: Vec<(usize, usize)>,
    pub tasks_optional: Vec<(usize, usize)>,
    pub tasks_blocked: Vec<(usize, usize)>,
}

/// The report of the phases.
pub open spec fn report_spec(phases: Seq<Phase>, r: Report) -> bool {
    let n = phases.len() as int;
    &&& r.phases_in_progress@ == phases_in_bucket(phases, 0, n)
    &&& r.phases_done@ == phases_in_bucket(phases, 1, n)
    &&& r.phases_blocked@ == phases_in_bucket(phases, 2, n)
    &&& r.phases_pending@ == phases_in_bucket(phases, 3, n)
    &&& r.total_tasks == total_tasks(phases, n)
    &&& r.tasks_done@ == tasks_in(phases, 0, n)
    &&& r.tasks_in_progress@ == tasks_in(phases, 1, n)
    &&& r.tasks_pending@ == tasks_in(phases, 2, n)
    &&& r.tasks_optional@ == tasks_in(phases, 3, n)
    &&& r.tasks_blocked@ == tasks_in(phases, 4, n)
}

fn phase_bucket_exec(p: &Phase) -> (r: u8)
    ensures
        r as int == phase_bucket(*p),
{
    if str_eq(p.status.as_str(), "in_progress") {
        0
    } else if str_eq(p.status.as_str(), "done") {
        1
    } else if str_eq(p.status.as_str(), "blocked") {
        2
    } else {
        3
    }
}

fn task_in_category_exec(t: &Task, c: u8) -> (r: bool)
    requires
        c <= 4,
    ensures
        r == task_in_category(*t, c as int),
{
    if c == 0 {
        str_eq(t.status.as_str(), "done")
    } else if c == 1 {
        str_eq(t.status.as_str(), "in_progress")
    } else if c == 2 {
        str_eq(t.status.as_str(), "pending") && !t.optional
    } else if c == 3 {
        t.optional && !str_eq(t.status.as_str(), "done")
    } else {
        str_eq(t.status.as_str(), "blocked")
    }
}

fn collect_phases(phases: &Vec<Phase>, b: u8) -> (r: Vec<usize>)
    ensures
        r@ == phases_in_bucket(phases@, b as int, phases@.len() as int),
{
    let mut out: Vec<usize> = Vec::new();
    let mut i: usize = 0;
    while i < phases.len()
        invariant
            i <= phases@.len(),
            out@ == phases_in_bucket(phases@, b as int, i as int),
        decreases phases@.len() - i,
    {
        if phase_bucket_exec(&phases[i]) == b {
            out.push(i);
        }
        i = i + 1;
    }
    out
}

/// The (phase, task) positions of the tasks of a category, in roadmap order.
pub fn collect_tasks(phases: &Vec<Phase>, c: u8) -> (r: Vec<(usize, usize)>)
    requires
        c <= 4,
    ensures
        r@ == tasks_in(phases@, c as int, phases@.len() as int),
{
    let mut out: Vec<(usize, usize)> = Vec::new();
    let mut i: usize = 0;
    while i < phases.len()
        invariant
            c <= 4,
            i <= phases@.len(),
            out@ == tasks_in(phases@, c as int, i as int),
        decreases phases@.len() - i,
    {
        let ghost o1 = out@;
        let mut j: usize = 0;
        while j < phases[i].tasks.len()
            invariant
                c <= 4,
                i < phases@.len(),
                j <= phases@[i as int].tasks@.len(),
                out@ == o1 + tasks_of_phase_in(phases@, c as int, i as int, j as int),
            decreases phases@[i as int].tasks@.len() - j,
        {
            if task_in_category_exec(&phases[i].tasks[j], c) {
                out.push((i, j));
            }
            j = j + 1;
        }
        i = i + 1;
    }
    out
}

/// The number of tasks, as a `usize` holds it.
pub fn count_all_tasks(phases: &Vec<Phase>) -> (r: usize)
    requires
        total_tasks(phases@, phases@.len() as int) <= usize::MAX,
    ensures
        r == total_tasks(phases@, phases@.len() as int),
{
    let mut n: usize = 0;
    let mut i: usize = 0;
    while i < phases.len()
        invariant
            i <= phases@.len(),
            n == total_tasks(phases@, i as int),
            total_tasks(phases@, phases@.len() as int) <= usize::MAX,
        decreases phases@.len() - i,
    {
        proof {
            lemma_total_tasks_mono(phases@, i as int + 1, phases@.len() as int);
        }
        n = n + phases[i].tasks.len();
        i = i + 1;
    }
    n
}

proof fn lemma_total_tasks_mono(phases: Seq<Phase>, a: int, b: int)
    requires
        0 <= a <= b,
    ensures
        total_tasks(phases, a) <= total_tasks(phases, b),
    decreases b - a,
{
    if a < b {
        lemma_total_tasks_mono(phases, a, b - 1);
    }
}

/// Builds the progress report of the phases.
pub fn build_report(phases: &Vec<Phase>) -> (r: Report)
    requires
        total_tasks(phases@, phases@.len() as int) <= usize::MAX,
    ensures
        report_spec(phases@, r),
{
    Report {
        phases_in_progress: collect_phases(phases, 0),
        phases_done: collect_phases(phases, 1),
        phases_blocked: collect_phases(phases, 2),
        phases_pending: collect_phases(phases, 3),
        total_tasks: count_all_tasks(phases),
        tasks_done: collect_tasks(phases, 0),
        tasks_in_progress: collect_tasks(phases, 1),
        tasks_pending: collect_tasks(phases, 2),
        tasks_optional: collect_tasks(phases, 3),
        tasks_blocked: collect_tasks(phases, 4),
    }
}

impl Report {
    /// The tasks that count for progress: done, in progress, pending or blocked.
    pub fn total_required(&self) -> (r: usize)
        requires
            self.tasks_done@.len() + self.tasks_in_progress@.len() + self.tasks_pending@.len()
                + self.tasks_blocked@.len() <= usize::MAX,
        ensures
            r == self.tasks_done@.len() + self.tasks_in_progress@.len()
                + self.tasks_pending@.len() + self.tasks_blocked@.len(),
    {
        self.tasks_done.len() + self.tasks_in_progress.len() + self.tasks_pending.len()
            + self.tasks_blocked.len()
    }

    /// The next tasks that the report lists: the first ten pending ones.
    pub fn next_tasks(&self) -> (r: Vec<(usize, usize)>)
        ensures
            r@ == self.tasks_pending@.take(
                if self.tasks_pending@.len() < 10 {
                    self.tasks_pending@.len() as int
                } else {
                    10
                },
            ),
    {
        let mut out: Vec<(usize, usize)> = Vec::new();
        let mut i: usize = 0;
        while i < self.tasks_pending.len() && i < 10
            invariant
                i <= self.tasks_pending@.len(),
                i <= 10,
                out@ == self.tasks_pending@.take(i as int),
            decreases 10 - i,
        {
            out.push(self.tasks_pending[i]);
            assert(self.tasks_pending@.take(i + 1) == self.tasks_pending@.take(i as int).push(
                self.tasks_pending@[i as int],
            ));
            i = i + 1;
        }
        out
    }
}

/// The number of done tasks among the first `n` tasks of a phase.
pub open spec fn done_count(p: Phase, n: int) -> nat
    decreases n,
{
    if n <= 0 {
        0
    } else {
        done_count(p, n - 1) + if p.tasks@[n - 1].status@ == "done"@ {
            1nat
        } else {
            0nat
        }
    }
}

/// The progress of a phase: how many of its tasks are done, and how many it has.
pub fn phase_progress(p: &Phase) -> (r: (usize, usize))
    ensures
        r.0 == done_count(*p, p.tasks@.len() as int),
        r.1 == p.tasks@.len(),
        r.0 <= r.1,
{
    let mut done: usize = 0;
    let mut j: usize = 0;
    while j < p.tasks.len()
        invariant
            j <= p.tasks@.len(),
            done == done_count(*p, j as int),
            done <= j,
        decreases p.tasks@.len() - j,
    {
        if str_eq(p.tasks[j].status.as_str(), "done") {
            done = done + 1;
        }
        j = j + 1;
    }
    (done, p.tasks.len())
}

/// A bug that is still open: its status is `open` or `in_progress`.
pub open spec fn bug_open(b: Bug) -> bool {
    b.status@ == "open"@ || b.status@ == "in_progress"@
}

/// The positions of the open bugs among the first `n`.
pub open spec fn open_bugs_spec(bugs: Seq<Bug>, n: int) -> Seq<usize>
    decreases n,
{
    if n <= 0 {
        Seq::empty()
    } else if bug_open(bugs[n - 1]) {
        open_bugs_spec(bugs, n - 1).push((n - 1) as usize)
    } else {
        open_bugs_spec(bugs, n - 1)
    }
}

/// The number of bugs of a severity among the given positions.
pub open spec fn severity_count(bugs: Seq<Bug>, at: Seq<usize>, sev: Seq<char>) -> nat
    decreases at.len(),
{
    if at.len() == 0 {
        0
    } else {
        severity_count(bugs, at.drop_last(), sev) + if bugs[at.last() as int].severity@ == sev {
            1nat
        } else {
            0nat
        }
    }
}

/// The bugs section of the report: the open bugs, and how many of them are
/// blocking, major and minor.
pub struct BugSummary {
    pub open: Vec<usize>,
    pub blocking: usize,
    pub major: usize,
    pub minor: usize,
}

/// Summarizes the open bugs.
pub fn bug_summary(bugs: &Vec<Bug>) -> (r: BugSummary)
    ensures
        r.open@ == open_bugs_spec(bugs@, bugs@.len() as int),
        r.blocking == severity_count(bugs@, r.open@, "blocking"@),
        r.major == severity_count(bugs@, r.open@, "major"@),
        r.minor == severity_count(bugs@, r.open@, "minor"@),
{
    let mut open: Vec<usize> = Vec::new();
    let mut blocking: usize = 0;
    let mut major: usize = 0;
    let mut minor: usize = 0;
    let mut i: usize = 0;
    while i < bugs.len()
        invariant
            i <= bugs@.len(),
            open@ == open_bugs_spec(bugs@, i as int),
            open@.len() <= i,
            forall|k: int| 0 <= k < open@.len() ==> open@[k] < i,
            blocking == severity_count(bugs@, open@, "blocking"@),
            major == severity_count(bugs@, open@, "major"@),
            minor == severity_count(bugs@, open@, "minor"@),
            blocking <= open@.len(),
            major <= open@.len(),
            minor <= open@.len(),
        decreases bugs@.len() - i,
    {
        let b = &bugs[i];
        if str_eq(b.status.as_str(), "open") || str_eq(b.status.as_str(), "in_progress") {
            let ghost before = open@;
            open.push(i);
            assert(open@.drop_last() == before);
            if str_eq(b.severity.as_str(), "blocking") {
                blocking = blocking + 1;
            }
            if str_eq(b.severity.as_str(), "major") {
                major = major + 1;
            }
            if str_eq(b.severity.as_str(), "minor") {
                minor = minor + 1;
            }
        }
        i = i + 1;
    }
    BugSummary { open, blocking, major, minor }
}

/// A feature request still open: proposed, accepted or in progress.
pub open spec fn feature_open(f: FeatureRequest) -> bool {
    f.status@ == "proposed"@ || f.status@ == "accepted"@ || f.status@ == "in_progress"@
}

/// The positions of the open feature requests among the first `n`.
pub open spec fn open_features_spec(features: Seq<FeatureRequest>, n: int) -> Seq<usize>
    decreases n,
{
    if n <= 0 {
        Seq::empty()
    } else if feature_open(features[n - 1]) {
        open_features_spec(features, n - 1).push((n - 1) as usize)
    } else {
        open_features_spec(features, n - 1)
    }
}

/// The positions of the open feature requests.
pub fn open_features(features: &Vec<FeatureRequest>) -> (r: Vec<usize>)
    ensures
        r@ == open_features_spec(features@, features@.len() as int),
{
    let mut out: Vec<usize> = Vec::new();
    let mut i: usize = 0;
    while i < features.len()
        invariant
            i <= features@.len(),
            out@ == open_features_spec(features@, i as int),
        decreases features@.len() - i,
    {
        let f = &features[i];
        if str_eq(f.status.as_str(), "proposed") || str_eq(f.status.as_str(), "accepted")
            || str_eq(f.status.as_str(), "in_progress") {
            out.push(i);
        }
        i = i + 1;
    }
    out
}

/// The icon of a feature's priority in the report: anything but critical,
/// high and medium counts as low.
pub fn report_priority_mark(priority: &str) -> (r: &'static str)
    ensures
        r@ == (if priority@ == "critical"@ {
            "🔴"@
        } else if priority@ == "high"@ {
            "🟠"@
        } else if priority@ == "medium"@ {
            "🟡"@
        } else {
            "🟢"@
        }),
{
    if str_eq(priority, "critical") {
        "🔴"
    } else if str_eq(priority, "high") {
        "🟠"
    } else if str_eq(priority, "medium") {
        "🟡"
    } else {
        "🟢"
    }
}

} // verus!
