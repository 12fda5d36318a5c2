//! The integrity check of a roadmap directory (`roadmap doctor`): every phase
//! file must parse, be named after its phase, and hold consistent ids, statuses
//! and references; the bug store must name existing phases and known values.

use vstd::prelude::*;
use crate::model::{Phase, Task, Bug};
use crate::text::{decimal, push_decimal, is_prefix, str_eq, starts_with, push_str, lex_le, str_lex_le, lemma_lex_refl, lemma_lex_total, lemma_lex_trans, lemma_lex_antisym};
use crate::data::{is_phase_file_name, phase_file_name};

verus! {

/// What became of one phase file of the directory.
pub enum Loaded {
    /// The file could not be read; the reason.
    Unreadable(String),
    /// The file is not a valid phase; the parser's message.
    Invalid(String),
    /// The phase that the file holds.
    Parsed(Phase),
}

/// One entry of the `.phases` directory, with what its reading gave.
pub struct DoctorFile {
    pub name: String,
    pub content: Loaded,
}

/// One finding of the integrity check.
pub enum Diagnostic {
    Unreadable { file: String, detail: String },
    InvalidYaml { file: String, detail: String },
    FileNameMismatch { file: String, phase_id: String },
    DuplicatePhaseId { file: String, phase_id: String },
    InvalidPhaseStatus { phase_id: String, status: String },
    MissingParentPhase { phase_id: String, parent: String },
    BadTaskPrefix { phase_id: String, task_id: String },
    DuplicateTaskInPhase { phase_id: String, task_id: String },
    DuplicateTaskGlobal { task_id: String },
    InvalidTaskStatus { task_id: String, status: String },
    MissingParentTask { task_id: String, parent: String, phase_id: String },
    DoneWithoutDate { task_id: String },
    UnknownBlockedTask { task_id: String, target: String },
    UnknownBlockingTask { task_id: String, target: String },
    UnknownDependency { phase_id: String, dependency: String },
    BugUnknownPhase { bug_id: u32, phase: String },
    BugInvalidSeverity { bug_id: u32, severity: String },
    BugInvalidStatus { bug_id: u32, status: String },
}

/// The result of the integrity check.
pub struct DoctorReport {
    pub phase_count: usize,
    pub task_count: usize,
    pub bug_count: usize,
    pub errors: Vec<Diagnostic>,
    pub warnings: Vec<Diagnostic>,
}

/// The statuses a phase or a task may have.
pub open spec fn valid_status(s: Seq<char>) -> bool {
    s == "pending"@ || s == "in_progress"@ || s == "done"@ || s == "blocked"@
}

/// The severities a bug may have.
pub open spec fn valid_severity(s: Seq<char>) -> bool {
    s == "blocking"@ || s == "major"@ || s == "minor"@
}

/// The statuses a bug may have.
pub open spec fn valid_bug_status(s: Seq<char>) -> bool {
    s == "open"@ || s == "in_progress"@ || s == "resolved"@ || s == "wontfix"@
}

/// The file name of the phase with the given id.
pub open spec fn phase_file_of(id: Seq<char>) -> Seq<char> {
    "phase-"@ + id + ".yml"@
}

/// A one-element sequence when `c` holds, else the empty one.
pub open spec fn when(c: bool, d: Diagnostic) -> Seq<Diagnostic> {
    if c {
        seq![d]
    } else {
        Seq::empty()
    }
}

pub open spec fn parsed(files: Seq<DoctorFile>, f: int) -> bool {
    files[f].content is Parsed
}

pub open spec fn phase_of(files: Seq<DoctorFile>, f: int) -> Phase {
    files[f].content->Parsed_0
}

/// Some file before `f` holds a phase with this id.
pub open spec fn phase_seen_before(files: Seq<DoctorFile>, f: int, id: Seq<char>) -> bool {
    exists|k: int| 0 <= k < f && parsed(files, k) && (#[trigger] phase_of(files, k)).id@ == id
}

/// Some phase of the directory has this id.
pub open spec fn phase_known(files: Seq<DoctorFile>, id: Seq<char>) -> bool {
    phase_seen_before(files, files.len() as int, id)
}

/// Some task before task `t` of file `f` (in file order, then task order) has this id.
pub open spec fn task_seen_before(files: Seq<DoctorFile>, f: int, t: int, id: Seq<char>) -> bool {
    exists|k: int, u: int|
        #![trigger phase_of(files, k).tasks@[u]]
        ((0 <= k < f) || (k == f && u < t)) && 0 <= k < files.len() && parsed(files, k) && 0 <= u
            < phase_of(files, k).tasks@.len() && phase_of(files, k).tasks@[u].id@ == id
}

/// Some task of the directory has this id.
pub open spec fn task_known(files: Seq<DoctorFile>, id: Seq<char>) -> bool {
    task_seen_before(files, files.len() as int, 0, id)
}

/// Some task of the phase before position `t` has this id.
pub open spec fn task_in_phase_before(p: Phase, t: int, id: Seq<char>) -> bool {
    exists|u: int| 0 <= u < t && (#[trigger] p.tasks@[u]).id@ == id
}

/// Some entry of the directory has this name.
pub open spec fn name_listed(names: Seq<String>, name: Seq<char>) -> bool {
    exists|i: int| 0 <= i < names.len() && (#[trigger] names[i])@ == name
}

/// The errors found on task `t` of the phase of file `f`.
pub open spec fn task_errors(files: Seq<DoctorFile>, f: int, t: int) -> Seq<Diagnostic> {
    let p = phase_of(files, f);
    let task = p.tasks@[t];
    when(
        !is_prefix(p.id@ + "."@, task.id@),
        Diagnostic::BadTaskPrefix { phase_id: p.id, task_id: task.id },
    ) + when(
        task_in_phase_before(p, t, task.id@),
        Diagnostic::DuplicateTaskInPhase { phase_id: p.id, task_id: task.id },
    ) + when(
        task_seen_before(files, f, t, task.id@),
        Diagnostic::DuplicateTaskGlobal { task_id: task.id },
    ) + when(
        !valid_status(task.status@),
        Diagnostic::InvalidTaskStatus { task_id: task.id, status: task.status },
    ) + match task.parent {
        Some(q) => when(
            !task_in_phase_before(p, p.tasks@.len() as int, q@),
            Diagnostic::MissingParentTask { task_id: task.id, parent: q, phase_id: p.id },
        ),
        None => Seq::empty(),
    }
}

/// The warning found on a task: done without a completion date.
pub open spec fn task_warnings(task: Task) -> Seq<Diagnostic> {
    when(
        task.status@ == "done"@ && task.completed_at is None,
        Diagnostic::DoneWithoutDate { task_id: task.id },
    )
}

/// The errors of the first `n` tasks of the phase of file `f`.
pub open spec fn tasks_errors(files: Seq<DoctorFile>, f: int, n: int) -> Seq<Diagnostic>
    decreases n,
{
    if n <= 0 {
        Seq::empty()
    } else {
        tasks_errors(files, f, n - 1) + task_errors(files, f, n - 1)
    }
}

/// The warnings of the first `n` tasks of a phase.
pub open spec fn tasks_warnings(p: Phase, n: int) -> Seq<Diagnostic>
    decreases n,
{
    if n <= 0 {
        Seq::empty()
    } else {
        tasks_warnings(p, n - 1) + task_warnings(p.tasks@[n - 1])
    }
}

/// The errors found on the phase itself of file `f`.
pub open spec fn phase_errors(files: Seq<DoctorFile>, names: Seq<String>, f: int) -> Seq<
    Diagnostic,
> {
    let p = phase_of(files, f);
    let file = files[f].name;
    when(
        file@ != phase_file_of(p.id@),
        Diagnostic::FileNameMismatch { file: file, phase_id: p.id },
    ) + when(
        phase_seen_before(files, f, p.id@),
        Diagnostic::DuplicatePhaseId { file: file, phase_id: p.id },
    ) + when(
        !valid_status(p.status@),
        Diagnostic::InvalidPhaseStatus { phase_id: p.id, status: p.status },
    ) + match p.parent {
        Some(q) => when(
            !name_listed(names, phase_file_of(q@)),
            Diagnostic::MissingParentPhase { phase_id: p.id, parent: q },
        ),
        None => Seq::empty(),
    }
}

/// The errors of file `f`, in the order the check reports them.
pub open spec fn file_errors(files: Seq<DoctorFile>, names: Seq<String>, f: int) -> Seq<Diagnostic> {
    match files[f].content {
        Loaded::Unreadable(e) => seq![Diagnostic::Unreadable { file: files[f].name, detail: e }],
        Loaded::Invalid(e) => seq![Diagnostic::InvalidYaml { file: files[f].name, detail: e }],
        Loaded::Parsed(p) => phase_errors(files, names, f) + tasks_errors(
            files,
            f,
            p.tasks@.len() as int,
        ),
    }
}

/// The warnings of file `f`.
pub open spec fn file_warnings(files: Seq<DoctorFile>, f: int) -> Seq<Diagnostic> {
    match files[f].content {
        Loaded::Parsed(p) => tasks_warnings(p, p.tasks@.len() as int),
        _ => Seq::empty(),
    }
}

/// The per-file errors of the first `n` files.
pub open spec fn files_errors(files: Seq<DoctorFile>, names: Seq<String>, n: int) -> Seq<
    Diagnostic,
>
    decreases n,
{
    if n <= 0 {
        Seq::empty()
    } else {
        files_errors(files, names, n - 1) + file_errors(files, names, n - 1)
    }
}

/// The warnings of the first `n` files.
pub open spec fn files_warnings(files: Seq<DoctorFile>, n: int) -> Seq<Diagnostic>
    decreases n,
{
    if n <= 0 {
        Seq::empty()
    } else {
        files_warnings(files, n - 1) + file_warnings(files, n - 1)
    }
}

/// Unknown ids among the first `n` entries of `refs`, reported for a task
/// (`blocks` says whether these are the tasks it blocks or those blocking it).
pub open spec fn ref_errors(
    files: Seq<DoctorFile>,
    task: Task,
    refs: Seq<String>,
    blocks: bool,
    n: int,
) -> Seq<Diagnostic>
    decreases n,
{
    if n <= 0 {
        Seq::empty()
    } else {
        ref_errors(files, task, refs, blocks, n - 1) + when(
            !task_known(files, refs[n - 1]@),
            if blocks {
                Diagnostic::UnknownBlockedTask { task_id: task.id, target: refs[n - 1] }
            } else {
                Diagnostic::UnknownBlockingTask { task_id: task.id, target: refs[n - 1] }
            },
        )
    }
}

/// The cross-reference errors of the first `n` tasks of a phase.
pub open spec fn tasks_ref_errors(files: Seq<DoctorFile>, p: Phase, n: int) -> Seq<Diagnostic>
    decreases n,
{
    if n <= 0 {
        Seq::empty()
    } else {
        let task = p.tasks@[n - 1];
        tasks_ref_errors(files, p, n - 1) + ref_errors(
            files,
            task,
            task.blocks@,
            true,
            task.blocks@.len() as int,
        ) + ref_errors(files, task, task.blocked_by@, false, task.blocked_by@.len() as int)
    }
}

/// Unknown phases among the first `n` dependencies of a phase.
pub open spec fn dep_errors(files: Seq<DoctorFile>, p: Phase, n: int) -> Seq<Diagnostic>
    decreases n,
{
    if n <= 0 {
        Seq::empty()
    } else {
        dep_errors(files, p, n - 1) + when(
            !phase_known(files, p.depends_on@[n - 1]@),
            Diagnostic::UnknownDependency { phase_id: p.id, dependency: p.depends_on@[n - 1] },
        )
    }
}

/// The cross-reference errors of the first `n` files.
pub open spec fn cross_errors(files: Seq<DoctorFile>, n: int) -> Seq<Diagnostic>
    decreases n,
{
    if n <= 0 {
        Seq::empty()
    } else {
        cross_errors(files, n - 1) + match files[n - 1].content {
            Loaded::Parsed(p) => tasks_ref_errors(files, p, p.tasks@.len() as int) + dep_errors(
                files,
                p,
                p.depends_on@.len() as int,
            ),
            _ => Seq::empty(),
        }
    }
}

/// The errors found on one bug.
pub open spec fn bug_errors(files: Seq<DoctorFile>, bug: Bug) -> Seq<Diagnostic> {
    (match bug.phase {
        Some(q) => when(
            !phase_known(files, q@),
            Diagnostic::BugUnknownPhase { bug_id: bug.id, phase: q },
        ),
        None => Seq::empty(),
    }) + when(
        !valid_severity(bug.severity@),
        Diagnostic::BugInvalidSeverity { bug_id: bug.id, severity: bug.severity },
    ) + when(
        !valid_bug_status(bug.status@),
        Diagnostic::BugInvalidStatus { bug_id: bug.id, status: bug.status },
    )
}

/// The errors of the first `n` bugs.
pub open spec fn bugs_errors(files: Seq<DoctorFile>, bugs: Seq<Bug>, n: int) -> Seq<Diagnostic>
    decreases n,
{
    if n <= 0 {
        Seq::empty()
    } else {
        bugs_errors(files, bugs, n - 1) + bug_errors(files, bugs[n - 1])
    }
}

/// The number of files that hold a phase, among the first `n`.
pub open spec fn count_parsed(files: Seq<DoctorFile>, n: int) -> nat
    decreases n,
{
    if n <= 0 {
        0
    } else {
        count_parsed(files, n - 1) + if parsed(files, n - 1) {
            1nat
        } else {
            0nat
        }
    }
}

/// The number of tasks of the phases among the first `n` files.
pub open spec fn count_tasks(files: Seq<DoctorFile>, n: int) -> nat
    decreases n,
{
    if n <= 0 {
        0
    } else {
        count_tasks(files, n - 1) + match files[n - 1].content {
            Loaded::Parsed(p) => p.tasks@.len(),
            _ => 0nat,
        }
    }
}

/// A count as a `usize` holds it: the count itself, or `usize::MAX` when it
/// does not fit.
pub open spec fn capped(n: nat) -> usize {
    if n > usize::MAX {
        usize::MAX
    } else {
        n as usize
    }
}

/// The full result of checking `files` (in the order given), the directory's
/// entry names, and the bug store.
pub open spec fn doctor_spec(
    files: Seq<DoctorFile>,
    names: Seq<String>,
    bugs: Seq<Bug>,
    r: DoctorReport,
) -> bool {
    &&& r.phase_count == count_parsed(files, files.len() as int)
    &&& r.task_count == capped(count_tasks(files, files.len() as int))
    &&& r.bug_count == bugs.len()
    &&& r.errors@ == files_errors(files, names, files.len() as int) + cross_errors(
        files,
        files.len() as int,
    ) + bugs_errors(files, bugs, bugs.len() as int)
    &&& r.warnings@ == files_warnings(files, files.len() as int)
}

fn valid_status_exec(s: &String) -> (r: bool)
    ensures
        r == valid_status(s@),
{
    str_eq(s.as_str(), "pending") || str_eq(s.as_str(), "in_progress") || str_eq(
        s.as_str(),
        "done",
    ) || str_eq(s.as_str(), "blocked")
}

fn valid_severity_exec(s: &String) -> (r: bool)
    ensures
        r == valid_severity(s@),
{
    str_eq(s.as_str(), "blocking") || str_eq(s.as_str(), "major") || str_eq(s.as_str(), "minor")
}

fn valid_bug_status_exec(s: &String) -> (r: bool)
    ensures
        r == valid_bug_status(s@),
{
    str_eq(s.as_str(), "open") || str_eq(s.as_str(), "in_progress") || str_eq(
        s.as_str(),
        "resolved",
    ) || str_eq(s.as_str(), "wontfix")
}

/// The file name of the phase with the given id.
pub fn phase_file_name_of(id: &str) -> (r: String)
    ensures
        r@ == phase_file_of(id@),
{
    let mut s = String::new();
    push_str(&mut s, "phase-");
    push_str(&mut s, id);
    push_str(&mut s, ".yml");
    s
}

fn phase_seen_before_exec(files: &Vec<DoctorFile>, f: usize, id: &String) -> (r: bool)
    requires
        f <= files@.len(),
    ensures
        r == phase_seen_before(files@, f as int, id@),
{
    let mut k: usize = 0;
    while k < f
        invariant
            f <= files@.len(),
            k <= f,
            !phase_seen_before(files@, k as int, id@),
        decreases f - k,
    {
        match &files[k].content {
            Loaded::Parsed(p) => {
                if p.id == *id {
                    assert(phase_of(files@, k as int).id@ == id@);
                    return true;
                }
            },
            _ => {},
        }
        k = k + 1;
    }
    false
}

fn task_in_phase_before_exec(p: &Phase, t: usize, id: &String) -> (r: bool)
    requires
        t <= p.tasks@.len(),
    ensures
        r == task_in_phase_before(*p, t as int, id@),
{
    let mut u: usize = 0;
    while u < t
        invariant
            t <= p.tasks@.len(),
            u <= t,
            !task_in_phase_before(*p, u as int, id@),
        decreases t - u,
    {
        if p.tasks[u].id == *id {
            assert(p.tasks@[u as int].id@ == id@);
            return true;
        }
        u = u + 1;
    }
    false
}

fn task_seen_before_exec(files: &Vec<DoctorFile>, f: usize, t: usize, id: &String) -> (r: bool)
    requires
        f < files@.len(),
        parsed(files@, f as int),
        t <= phase_of(files@, f as int).tasks@.len(),
    ensures
        r == task_seen_before(files@, f as int, t as int, id@),
{
    let mut k: usize = 0;
    while k < f
        invariant
            f < files@.len(),
            k <= f,
            forall|kk: int, u: int|
                #![trigger phase_of(files@, kk).tasks@[u]]
                0 <= kk < k && parsed(files@, kk) && 0 <= u < phase_of(files@, kk).tasks@.len()
                    ==> phase_of(files@, kk).tasks@[u].id@ != id@,
        decreases f - k,
    {
        match &files[k].content {
            Loaded::Parsed(p) => {
                assert(p == phase_of(files@, k as int));
                if task_in_phase_before_exec(p, p.tasks.len(), id) {
                    let ghost u = choose|u: int|
                        0 <= u < p.tasks@.len() && (#[trigger] p.tasks@[u]).id@ == id@;
                    assert(phase_of(files@, k as int).tasks@[u].id@ == id@);
                    return true;
                }
            },
            _ => {},
        }
        k = k + 1;
    }
    match &files[f].content {
        Loaded::Parsed(p) => {
            assert(p == phase_of(files@, f as int));
            let r = task_in_phase_before_exec(p, t, id);
            if r {
                let ghost u = choose|u: int| 0 <= u < t && (#[trigger] p.tasks@[u]).id@ == id@;
                assert(phase_of(files@, f as int).tasks@[u].id@ == id@);
            }
            r
        },
        _ => false,
    }
}

fn name_listed_exec(names: &Vec<String>, name: &String) -> (r: bool)
    ensures
        r == name_listed(names@, name@),
{
    let mut i: usize = 0;
    while i < names.len()
        invariant
            i <= names@.len(),
            forall|j: int| 0 <= j < i ==> (#[trigger] names@[j])@ != name@,
        decreases names@.len() - i,
    {
        if names[i] == *name {
            return true;
        }
        i = i + 1;
    }
    false
}

proof fn lemma_when_add(s: Seq<Diagnostic>, c: bool, d: Diagnostic)
    ensures
        (if c {
            s.push(d)
        } else {
            s
        }) == s + when(c, d),
{
    if c {
        assert(s.push(d) == s + seq![d]);
    } else {
        assert(s + Seq::<Diagnostic>::empty() == s);
    }
}

fn push_when(out: &mut Vec<Diagnostic>, c: bool, d: Diagnostic)
    ensures
        final(out)@ == old(out)@ + when(c, d),
{
    proof {
        lemma_when_add(out@, c, d);
    }
    if c {
        out.push(d);
    }
}

fn check_task(files: &Vec<DoctorFile>, f: usize, t: usize, errors: &mut Vec<Diagnostic>)
    requires
        f < files@.len(),
        parsed(files@, f as int),
        t < phase_of(files@, f as int).tasks@.len(),
    ensures
        final(errors)@ == old(errors)@ + task_errors(files@, f as int, t as int),
{
    let ghost e0 = errors@;
    match &files[f].content {
        Loaded::Parsed(p) => {
            assert(*p == phase_of(files@, f as int));
            let task = &p.tasks[t];
            let mut prefix = p.id.clone();
            push_str(&mut prefix, ".");
            let good_prefix = starts_with(task.id.as_str(), prefix.as_str());
            push_when(
                errors,
                !good_prefix,
                Diagnostic::BadTaskPrefix { phase_id: p.id.clone(), task_id: task.id.clone() },
            );
            let dup = task_in_phase_before_exec(p, t, &task.id);
            push_when(
                errors,
                dup,
                Diagnostic::DuplicateTaskInPhase {
                    phase_id: p.id.clone(),
                    task_id: task.id.clone(),
                },
            );
            let gdup = task_seen_before_exec(files, f, t, &task.id);
            push_when(errors, gdup, Diagnostic::DuplicateTaskGlobal { task_id: task.id.clone() });
            let ok = valid_status_exec(&task.status);
            push_when(
                errors,
                !ok,
                Diagnostic::InvalidTaskStatus {
                    task_id: task.id.clone(),
                    status: task.status.clone(),
                },
            );
            match &task.parent {
                Some(q) => {
                    let found = task_in_phase_before_exec(p, p.tasks.len(), q);
                    push_when(
                        errors,
                        !found,
                        Diagnostic::MissingParentTask {
                            task_id: task.id.clone(),
                            parent: q.clone(),
                            phase_id: p.id.clone(),
                        },
                    );
                },
                None => {
                    assert(errors@ + Seq::<Diagnostic>::empty() == errors@);
                },
            }
            assert(errors@ == e0 + task_errors(files@, f as int, t as int));
        },
        _ => {},
    }
}

fn check_phase_head(files: &Vec<DoctorFile>, names: &Vec<String>, f: usize, errors: &mut Vec<Diagnostic>)
    requires
        f < files@.len(),
        parsed(files@, f as int),
    ensures
        final(errors)@ == old(errors)@ + phase_errors(files@, names@, f as int),
{
    let ghost e0 = errors@;
    match &files[f].content {
        Loaded::Parsed(p) => {
            assert(*p == phase_of(files@, f as int));
            let file = &files[f].name;
            let expected = phase_file_name_of(p.id.as_str());
            let same = *file == expected;
            push_when(
                errors,
                !same,
                Diagnostic::FileNameMismatch { file: file.clone(), phase_id: p.id.clone() },
            );
            let dup = phase_seen_before_exec(files, f, &p.id);
            push_when(
                errors,
                dup,
                Diagnostic::DuplicatePhaseId { file: file.clone(), phase_id: p.id.clone() },
            );
            let ok = valid_status_exec(&p.status);
            push_when(
                errors,
                !ok,
                Diagnostic::InvalidPhaseStatus { phase_id: p.id.clone(), status: p.status.clone() },
            );
            match &p.parent {
                Some(q) => {
                    let parent_file = phase_file_name_of(q.as_str());
                    let listed = name_listed_exec(names, &parent_file);
                    push_when(
                        errors,
                        !listed,
                        Diagnostic::MissingParentPhase { phase_id: p.id.clone(), parent: q.clone() },
                    );
                },
                None => {
                    assert(errors@ + Seq::<Diagnostic>::empty() == errors@);
                },
            }
            assert(errors@ == e0 + phase_errors(files@, names@, f as int));
        },
        _ => {},
    }
}

fn check_tasks(files: &Vec<DoctorFile>, f: usize, errors: &mut Vec<Diagnostic>, warnings: &mut Vec<Diagnostic>)
    requires
        f < files@.len(),
        parsed(files@, f as int),
    ensures
        final(errors)@ == old(errors)@ + tasks_errors(files@, f as int, phase_of(files@, f as int).tasks@.len() as int),
        final(warnings)@ == old(warnings)@ + tasks_warnings(phase_of(files@, f as int), phase_of(files@, f as int).tasks@.len() as int),
{
    let ghost e1 = errors@;
    let ghost w0 = warnings@;
    match &files[f].content {
        Loaded::Parsed(p) => {
            assert(*p == phase_of(files@, f as int));
            let mut t: usize = 0;
            while t < p.tasks.len()
                invariant
                    f < files@.len(),
                    *p == phase_of(files@, f as int),
                    parsed(files@, f as int),
                    t <= p.tasks@.len(),
                    errors@ == e1 + tasks_errors(files@, f as int, t as int),
                    warnings@ == w0 + tasks_warnings(*p, t as int),
                decreases p.tasks@.len() - t,
            {
                check_task(files, f, t, errors);
                let task = &p.tasks[t];
                let done = str_eq(task.status.as_str(), "done");
                push_when(
                    warnings,
                    done && task.completed_at.is_none(),
                    Diagnostic::DoneWithoutDate { task_id: task.id.clone() },
                );
                t = t + 1;
            }
        },
        _ => {},
    }
}

fn check_file(
    files: &Vec<DoctorFile>,
    names: &Vec<String>,
    f: usize,
    errors: &mut Vec<Diagnostic>,
    warnings: &mut Vec<Diagnostic>,
)
    requires
        f < files@.len(),
    ensures
        final(errors)@ == old(errors)@ + file_errors(files@, names@, f as int),
        final(warnings)@ == old(warnings)@ + file_warnings(files@, f as int),
{
    let ghost e0 = errors@;
    let ghost w0 = warnings@;
    match &files[f].content {
        Loaded::Unreadable(e) => {
            errors.push(Diagnostic::Unreadable { file: files[f].name.clone(), detail: e.clone() });
            assert(warnings@ == w0 + Seq::<Diagnostic>::empty());
        },
        Loaded::Invalid(e) => {
            errors.push(Diagnostic::InvalidYaml { file: files[f].name.clone(), detail: e.clone() });
            assert(warnings@ == w0 + Seq::<Diagnostic>::empty());
        },
        Loaded::Parsed(p) => {
            check_phase_head(files, names, f, errors);
            check_tasks(files, f, errors, warnings);
            assert(errors@ == e0 + file_errors(files@, names@, f as int));
        },
    }
}

fn check_refs(
    files: &Vec<DoctorFile>,
    task: &Task,
    refs: &Vec<String>,
    blocks: bool,
    errors: &mut Vec<Diagnostic>,
)
    ensures
        final(errors)@ == old(errors)@ + ref_errors(files@, *task, refs@, blocks, refs@.len() as int),
{
    let ghost e0 = errors@;
    let mut i: usize = 0;
    while i < refs.len()
        invariant
            i <= refs@.len(),
            errors@ == e0 + ref_errors(files@, *task, refs@, blocks, i as int),
        decreases refs@.len() - i,
    {
        let known = task_known_exec(files, &refs[i]);
        let d = if blocks {
            Diagnostic::UnknownBlockedTask { task_id: task.id.clone(), target: refs[i].clone() }
        } else {
            Diagnostic::UnknownBlockingTask { task_id: task.id.clone(), target: refs[i].clone() }
        };
        push_when(errors, !known, d);
        i = i + 1;
    }
}

fn task_known_exec(files: &Vec<DoctorFile>, id: &String) -> (r: bool)
    ensures
        r == task_known(files@, id@),
{
    let mut k: usize = 0;
    while k < files.len()
        invariant
            k <= files@.len(),
            forall|kk: int, u: int|
                #![trigger phase_of(files@, kk).tasks@[u]]
                0 <= kk < k && parsed(files@, kk) && 0 <= u < phase_of(files@, kk).tasks@.len()
                    ==> phase_of(files@, kk).tasks@[u].id@ != id@,
        decreases files@.len() - k,
    {
        match &files[k].content {
            Loaded::Parsed(p) => {
                assert(*p == phase_of(files@, k as int));
                if task_in_phase_before_exec(p, p.tasks.len(), id) {
                    let ghost u = choose|u: int|
                        0 <= u < p.tasks@.len() && (#[trigger] p.tasks@[u]).id@ == id@;
                    assert(phase_of(files@, k as int).tasks@[u].id@ == id@);
                    return true;
                }
            },
            _ => {},
        }
        k = k + 1;
    }
    false
}

fn check_cross(files: &Vec<DoctorFile>, f: usize, errors: &mut Vec<Diagnostic>)
    requires
        f < files@.len(),
    ensures
        final(errors)@ == old(errors)@ + cross_errors(files@, f as int + 1).skip(
            cross_errors(files@, f as int).len() as int,
        ),
        cross_errors(files@, f as int + 1) == cross_errors(files@, f as int) + (final(errors)@.skip(
            old(errors)@.len() as int,
        )),
{
    let ghost e0 = errors@;
    let ghost c0 = cross_errors(files@, f as int);
    match &files[f].content {
        Loaded::Parsed(p) => {
            let mut t: usize = 0;
            while t < p.tasks.len()
                invariant
                    t <= p.tasks@.len(),
                    errors@ == e0 + tasks_ref_errors(files@, *p, t as int),
                decreases p.tasks@.len() - t,
            {
                let task = &p.tasks[t];
                check_refs(files, task, &task.blocks, true, errors);
                check_refs(files, task, &task.blocked_by, false, errors);
                t = t + 1;
            }
            let ghost e1 = errors@;
            let mut d: usize = 0;
            while d < p.depends_on.len()
                invariant
                    d <= p.depends_on@.len(),
                    errors@ == e1 + dep_errors(files@, *p, d as int),
                decreases p.depends_on@.len() - d,
            {
                let known = phase_known_exec(files, &p.depends_on[d]);
                push_when(
                    errors,
                    !known,
                    Diagnostic::UnknownDependency {
                        phase_id: p.id.clone(),
                        dependency: p.depends_on[d].clone(),
                    },
                );
                d = d + 1;
            }
            let ghost added = tasks_ref_errors(files@, *p, p.tasks@.len() as int) + dep_errors(
                files@,
                *p,
                p.depends_on@.len() as int,
            );
            assert(cross_errors(files@, f as int + 1) == c0 + added);
            assert(errors@ == e0 + added);
            assert((c0 + added).skip(c0.len() as int) == added);
            assert(errors@.skip(e0.len() as int) == added);
        },
        _ => {
            assert(cross_errors(files@, f as int + 1) == c0 + Seq::<Diagnostic>::empty());
            assert(c0.skip(c0.len() as int) == Seq::<Diagnostic>::empty());
            assert(errors@.skip(e0.len() as int) == Seq::<Diagnostic>::empty());
        },
    }
}

fn phase_known_exec(files: &Vec<DoctorFile>, id: &String) -> (r: bool)
    ensures
        r == phase_known(files@, id@),
{
    phase_seen_before_exec(files, files.len(), id)
}

fn check_bug(files: &Vec<DoctorFile>, bug: &Bug, errors: &mut Vec<Diagnostic>)
    ensures
        final(errors)@ == old(errors)@ + bug_errors(files@, *bug),
{
    let ghost e0 = errors@;
    match &bug.phase {
        Some(q) => {
            let known = phase_known_exec(files, q);
            push_when(errors, !known, Diagnostic::BugUnknownPhase { bug_id: bug.id, phase: q.clone() });
        },
        None => {
            assert(errors@ + Seq::<Diagnostic>::empty() == errors@);
        },
    }
    let ok = valid_severity_exec(&bug.severity);
    push_when(
        errors,
        !ok,
        Diagnostic::BugInvalidSeverity { bug_id: bug.id, severity: bug.severity.clone() },
    );
    let ok2 = valid_bug_status_exec(&bug.status);
    push_when(errors, !ok2, Diagnostic::BugInvalidStatus { bug_id: bug.id, status: bug.status.clone() });
    assert(errors@ == e0 + bug_errors(files@, *bug));
}

/// Checks the phase files (in the order given), the directory's entry names
/// and the bug store, and reports every finding in the order of the check.
pub fn check_roadmap(files: &Vec<DoctorFile>, names: &Vec<String>, bugs: &Vec<Bug>) -> (r:
    DoctorReport)
    ensures
        doctor_spec(files@, names@, bugs@, r),
{
    let mut errors: Vec<Diagnostic> = Vec::new();
    let mut warnings: Vec<Diagnostic> = Vec::new();
    let mut phase_count: usize = 0;
    let mut task_count: usize = 0;
    let mut f: usize = 0;
    while f < files.len()
        invariant
            f <= files@.len(),
            errors@ == files_errors(files@, names@, f as int),
            warnings@ == files_warnings(files@, f as int),
            phase_count == count_parsed(files@, f as int),
            task_count == capped(count_tasks(files@, f as int)),
        decreases files@.len() - f,
    {
        check_file(files, names, f, &mut errors, &mut warnings);
        proof {
            lemma_count_parsed_bound(files@, f as int + 1);
        }
        match &files[f].content {
            Loaded::Parsed(p) => {
                phase_count = phase_count + 1;
                task_count = task_count.saturating_add(p.tasks.len());
            },
            _ => {},
        }
        f = f + 1;
    }
    let ghost e1 = errors@;
    let mut g: usize = 0;
    while g < files.len()
        invariant
            g <= files@.len(),
            errors@ == e1 + cross_errors(files@, g as int),
        decreases files@.len() - g,
    {
        let ghost before = errors@;
        check_cross(files, g, &mut errors);
        proof {
            let added = errors@.skip(before.len() as int);
            assert(errors@ == before + added);
        }
        g = g + 1;
    }
    let ghost e2 = errors@;
    let mut b: usize = 0;
    while b < bugs.len()
        invariant
            b <= bugs@.len(),
            errors@ == e2 + bugs_errors(files@, bugs@, b as int),
        decreases bugs@.len() - b,
    {
        check_bug(files, &bugs[b], &mut errors);
        b = b + 1;
    }
    DoctorReport { phase_count, task_count, bug_count: bugs.len(), errors, warnings }
}

proof fn lemma_count_parsed_bound(files: Seq<DoctorFile>, n: int)
    requires
        0 <= n,
    ensures
        count_parsed(files, n) <= n,
    decreases n,
{
    if n > 0 {
        lemma_count_parsed_bound(files, n - 1);
    }
}

/// The entries of the directory whose names have the form `phase-*.yml`, in
/// directory order.
pub open spec fn phase_entries(entries: Seq<DoctorFile>) -> Seq<DoctorFile>
    decreases entries.len(),
{
    if entries.len() == 0 {
        Seq::empty()
    } else if is_phase_file_name(entries.last().name@) {
        phase_entries(entries.drop_last()).push(entries.last())
    } else {
        phase_entries(entries.drop_last())
    }
}

/// The entries of `s` with the name `k`, in their order in `s`.
pub open spec fn name_class(s: Seq<DoctorFile>, k: Seq<char>) -> Seq<DoctorFile>
    decreases s.len(),
{
    if s.len() == 0 {
        Seq::empty()
    } else if s.last().name@ == k {
        name_class(s.drop_last(), k).push(s.last())
    } else {
        name_class(s.drop_last(), k)
    }
}

/// The entries come in lexicographic order of their names.
pub open spec fn sorted_by_name(s: Seq<DoctorFile>) -> bool {
    forall|i: int, j: int| 0 <= i < j < s.len() ==> lex_le(s[i].name@, s[j].name@)
}

/// `out` is `input` stably sorted by name.
pub open spec fn stable_name_sort(input: Seq<DoctorFile>, out: Seq<DoctorFile>) -> bool {
    &&& sorted_by_name(out)
    &&& forall|k: Seq<char>| #[trigger] name_class(out, k) == name_class(input, k)
}

/// The names of the directory's entries.
pub open spec fn entry_names(entries: Seq<DoctorFile>) -> Seq<String> {
    entries.map_values(|e: DoctorFile| e.name)
}

proof fn lemma_name_class_add(a: Seq<DoctorFile>, b: Seq<DoctorFile>, k: Seq<char>)
    ensures
        name_class(a + b, k) == name_class(a, k) + name_class(b, k),
    decreases b.len(),
{
    if b.len() == 0 {
        assert(a + b == a);
    } else {
        assert((a + b).drop_last() == a + b.drop_last());
        assert((a + b).last() == b.last());
        lemma_name_class_add(a, b.drop_last(), k);
    }
}

proof fn lemma_name_class_none(s: Seq<DoctorFile>, k: Seq<char>)
    requires
        forall|i: int| 0 <= i < s.len() ==> s[i].name@ != k,
    ensures
        name_class(s, k) == Seq::<DoctorFile>::empty(),
    decreases s.len(),
{
    if s.len() > 0 {
        lemma_name_class_none(s.drop_last(), k);
    }
}

proof fn lemma_name_class_single(x: DoctorFile, k: Seq<char>)
    ensures
        name_class(seq![x], k) == (if x.name@ == k { seq![x] } else { Seq::empty() }),
{
    assert(seq![x].drop_last() == Seq::<DoctorFile>::empty());
    assert(seq![x].last() == x);
    assert(name_class(Seq::<DoctorFile>::empty(), k) == Seq::<DoctorFile>::empty());
    assert(Seq::<DoctorFile>::empty().push(x) == seq![x]);
}

/// The phase files among the directory's entries, stably sorted by name.
pub fn sort_phase_files(entries: Vec<DoctorFile>) -> (r: Vec<DoctorFile>)
    ensures
        stable_name_sort(phase_entries(entries@), r@),
{
    let ghost all = entries@;
    let mut out: Vec<DoctorFile> = Vec::new();
    let ghost mut taken: Seq<DoctorFile> = Seq::empty();
    for x in iter: entries.into_iter()
        invariant
            iter.seq() == all,
            taken == phase_entries(all.take(iter.index())),
            sorted_by_name(out@),
            forall|k: Seq<char>| #[trigger] name_class(out@, k) == name_class(taken, k),
    {
        assert(all.take(iter.index() + 1).drop_last() == all.take(iter.index()));
        if phase_file_name(x.name.as_str()) {
            let mut pos: usize = 0;
            while pos < out.len() && str_lex_le(out[pos].name.as_str(), x.name.as_str())
                invariant
                    pos <= out@.len(),
                    forall|i: int| 0 <= i < pos ==> lex_le(out@[i].name@, x.name@),
                decreases out@.len() - pos,
            {
                pos = pos + 1;
            }
            let ghost before = out@;
            proof {
                assert forall|i: int| pos <= i < before.len() implies !lex_le(
                    before[i].name@,
                    x.name@,
                ) by {
                    assert(!lex_le(before[pos as int].name@, x.name@));
                    if lex_le(before[i].name@, x.name@) {
                        lemma_lex_trans(before[pos as int].name@, before[i].name@, x.name@);
                    }
                }
                assert forall|i: int| pos <= i < before.len() implies lex_le(
                    x.name@,
                    before[i].name@,
                ) by {
                    lemma_lex_total(x.name@, before[i].name@);
                }
            }
            out.insert(pos, x);
            proof {
                let a = before.take(pos as int);
                let b = before.skip(pos as int);
                assert(before == a + b);
                assert(out@ == a + seq![x] + b);
                assert forall|k: Seq<char>| #[trigger]
                    name_class(out@, k) == name_class(taken.push(x), k) by {
                    lemma_name_class_add(a + seq![x], b, k);
                    lemma_name_class_add(a, seq![x], k);
                    lemma_name_class_add(a, b, k);
                    lemma_name_class_single(x, k);
                    assert(taken.push(x).drop_last() == taken);
                    if k == x.name@ {
                        assert forall|i: int| 0 <= i < b.len() implies b[i].name@ != k by {
                            assert(b[i] == before[pos + i]);
                            if b[i].name@ == k {
                                lemma_lex_refl(k);
                            }
                        }
                        lemma_name_class_none(b, k);
                    }
                }
                assert forall|i: int, j: int| 0 <= i < j < out@.len() implies lex_le(
                    out@[i].name@,
                    out@[j].name@,
                ) by {
                    if i < pos && j > pos {
                        assert(out@[j] == before[j - 1]);
                        lemma_lex_trans(out@[i].name@, x.name@, out@[j].name@);
                    } else if i < pos && j == pos {
                    } else if i == pos {
                        assert(out@[j] == before[j - 1]);
                    } else if j < pos {
                    } else {
                        assert(out@[i] == before[i - 1]);
                        assert(out@[j] == before[j - 1]);
                    }
                }
                taken = taken.push(x);
            }
        }
    }
    assert(all.take(all.len() as int) == all);
    out
}

/// Checks a roadmap directory: its entries (with what reading each phase file
/// gave) and its bug store. The phase files are checked in the order of their
/// names, and every finding is reported in the order of the check.
pub fn diagnose(entries: Vec<DoctorFile>, bugs: &Vec<Bug>) -> (r: DoctorReport)
    ensures
        exists|files: Seq<DoctorFile>|
            stable_name_sort(phase_entries(entries@), files) && doctor_spec(
                files,
                entry_names(entries@),
                bugs@,
                r,
            ),
{
    let mut names: Vec<String> = Vec::new();
    let mut i: usize = 0;
    while i < entries.len()
        invariant
            i <= entries@.len(),
            names@ == entry_names(entries@).take(i as int),
        decreases entries@.len() - i,
    {
        names.push(entries[i].name.clone());
        i = i + 1;
    }
    assert(names@ == entry_names(entries@));
    let ghost all = entries@;
    let files = sort_phase_files(entries);
    let r = check_roadmap(&files, &names, bugs);
    r
}

/// The text of a finding, as the check prints it.
pub open spec fn message_of(d: Diagnostic) -> Seq<char> {
    match d {
        Diagnostic::Unreadable { file, detail } => file@ + ": impossible de lire le fichier: "@ + detail@,
        Diagnostic::InvalidYaml { file, detail } => file@ + ": YAML invalide: "@ + detail@,
        Diagnostic::FileNameMismatch { file, phase_id } => file@ + ": le nom du fichier ne correspond pas à l'ID de la phase (id: "@ + phase_id@ + ", attendu: phase-"@ + phase_id@ + ".yml)"@,
        Diagnostic::DuplicatePhaseId { file, phase_id } => file@ + ": ID de phase dupliqué: "@ + phase_id@,
        Diagnostic::InvalidPhaseStatus { phase_id, status } => "Phase "@ + phase_id@ + ": statut invalide '"@ + status@ + "' (attendu: pending, in_progress, done, blocked)"@,
        Diagnostic::MissingParentPhase { phase_id, parent } => "Phase "@ + phase_id@ + ": phase parente '"@ + parent@ + "' n'existe pas"@,
        Diagnostic::BadTaskPrefix { phase_id, task_id } => "Phase "@ + phase_id@ + ": tâche '"@ + task_id@ + "' n'a pas le bon préfixe (attendu: "@ + phase_id@ + ".X)"@,
        Diagnostic::DuplicateTaskInPhase { phase_id, task_id } => "Phase "@ + phase_id@ + ": ID de tâche dupliqué: "@ + task_id@,
        Diagnostic::DuplicateTaskGlobal { task_id } => "ID de tâche dupliqué globalement: "@ + task_id@,
        Diagnostic::InvalidTaskStatus { task_id, status } => "Tâche "@ + task_id@ + ": statut invalide '"@ + status@ + "' (attendu: pending, in_progress, done, blocked)"@,
        Diagnostic::MissingParentTask { task_id, parent, phase_id } => "Tâche "@ + task_id@ + ": tâche parente '"@ + parent@ + "' n'existe pas dans la phase "@ + phase_id@,
        Diagnostic::DoneWithoutDate { task_id } => "Tâche "@ + task_id@ + ": statut 'done' mais pas de date completed_at"@,
        Diagnostic::UnknownBlockedTask { task_id, target } => "Tâche "@ + task_id@ + ": bloque '"@ + target@ + "' qui n'existe pas"@,
        Diagnostic::UnknownBlockingTask { task_id, target } => "Tâche "@ + task_id@ + ": bloquée par '"@ + target@ + "' qui n'existe pas"@,
        Diagnostic::UnknownDependency { phase_id, dependency } => "Phase "@ + phase_id@ + ": dépend de '"@ + dependency@ + "' qui n'existe pas"@,
        Diagnostic::BugUnknownPhase { bug_id, phase } => "Bug #"@ + decimal(bug_id as nat) + ": phase '"@ + phase@ + "' n'existe pas"@,
        Diagnostic::BugInvalidSeverity { bug_id, severity } => "Bug #"@ + decimal(bug_id as nat) + ": sévérité invalide '"@ + severity@ + "'"@,
        Diagnostic::BugInvalidStatus { bug_id, status } => "Bug #"@ + decimal(bug_id as nat) + ": statut invalide '"@ + status@ + "'"@,
    }
}

impl Diagnostic {
    /// The text of the finding, as the check prints it.
    pub fn message(&self) -> (r: String)
        ensures
            r@ == message_of(*self),
    {
        let mut s = String::new();
        match self {
            Diagnostic::Unreadable { file, detail } => {
                push_str(&mut s, file.as_str());
                push_str(&mut s, ": impossible de lire le fichier: ");
                push_str(&mut s, detail.as_str());
            },
            Diagnostic::InvalidYaml { file, detail } => {
                push_str(&mut s, file.as_str());
                push_str(&mut s, ": YAML invalide: ");
                push_str(&mut s, detail.as_str());
            },
            Diagnostic::FileNameMismatch { file, phase_id } => {
                push_str(&mut s, file.as_str());
                push_str(&mut s, ": le nom du fichier ne correspond pas à l'ID de la phase (id: ");
                push_str(&mut s, phase_id.as_str());
                push_str(&mut s, ", attendu: phase-");
                push_str(&mut s, phase_id.as_str());
                push_str(&mut s, ".yml)");
            },
            Diagnostic::DuplicatePhaseId { file, phase_id } => {
                push_str(&mut s, file.as_str());
                push_str(&mut s, ": ID de phase dupliqué: ");
                push_str(&mut s, phase_id.as_str());
            },
            Diagnostic::InvalidPhaseStatus { phase_id, status } => {
                push_str(&mut s, "Phase ");
                push_str(&mut s, phase_id.as_str());
                push_str(&mut s, ": statut invalide '");
                push_str(&mut s, status.as_str());
                push_str(&mut s, "' (attendu: pending, in_progress, done, blocked)");
            },
            Diagnostic::MissingParentPhase { phase_id, parent } => {
                push_str(&mut s, "Phase ");
                push_str(&mut s, phase_id.as_str());
                push_str(&mut s, ": phase parente '");
                push_str(&mut s, parent.as_str());
                push_str(&mut s, "' n'existe pas");
            },
            Diagnostic::BadTaskPrefix { phase_id, task_id } => {
                push_str(&mut s, "Phase ");
                push_str(&mut s, phase_id.as_str());
                push_str(&mut s, ": tâche '");
                push_str(&mut s, task_id.as_str());
                push_str(&mut s, "' n'a pas le bon préfixe (attendu: ");
                push_str(&mut s, phase_id.as_str());
                push_str(&mut s, ".X)");
            },
            Diagnostic::DuplicateTaskInPhase { phase_id, task_id } => {
                push_str(&mut s, "Phase ");
                push_str(&mut s, phase_id.as_str());
                push_str(&mut s, ": ID de tâche dupliqué: ");
                push_str(&mut s, task_id.as_str());
            },
            Diagnostic::DuplicateTaskGlobal { task_id } => {
                push_str(&mut s, "ID de tâche dupliqué globalement: ");
                push_str(&mut s, task_id.as_str());
            },
            Diagnostic::InvalidTaskStatus { task_id, status } => {
                push_str(&mut s, "Tâche ");
                push_str(&mut s, task_id.as_str());
                push_str(&mut s, ": statut invalide '");
                push_str(&mut s, status.as_str());
                push_str(&mut s, "' (attendu: pending, in_progress, done, blocked)");
            },
            Diagnostic::MissingParentTask { task_id, parent, phase_id } => {
                push_str(&mut s, "Tâche ");
                push_str(&mut s, task_id.as_str());
                push_str(&mut s, ": tâche parente '");
                push_str(&mut s, parent.as_str());
                push_str(&mut s, "' n'existe pas dans la phase ");
                push_str(&mut s, phase_id.as_str());
            },
            Diagnostic::DoneWithoutDate { task_id } => {
                push_str(&mut s, "Tâche ");
                push_str(&mut s, task_id.as_str());
                push_str(&mut s, ": statut 'done' mais pas de date completed_at");
            },
            Diagnostic::UnknownBlockedTask { task_id, target } => {
                push_str(&mut s, "Tâche ");
                push_str(&mut s, task_id.as_str());
                push_str(&mut s, ": bloque '");
                push_str(&mut s, target.as_str());
                push_str(&mut s, "' qui n'existe pas");
            },
            Diagnostic::UnknownBlockingTask { task_id, target } => {
                push_str(&mut s, "Tâche ");
                push_str(&mut s, task_id.as_str());
                push_str(&mut s, ": bloquée par '");
                push_str(&mut s, target.as_str());
                push_str(&mut s, "' qui n'existe pas");
            },
            Diagnostic::UnknownDependency { phase_id, dependency } => {
                push_str(&mut s, "Phase ");
                push_str(&mut s, phase_id.as_str());
                push_str(&mut s, ": dépend de '");
                push_str(&mut s, dependency.as_str());
                push_str(&mut s, "' qui n'existe pas");
            },
            Diagnostic::BugUnknownPhase { bug_id, phase } => {
                push_str(&mut s, "Bug #");
                push_decimal(&mut s, *bug_id as u64);
                push_str(&mut s, ": phase '");
                push_str(&mut s, phase.as_str());
                push_str(&mut s, "' n'existe pas");
            },
            Diagnostic::BugInvalidSeverity { bug_id, severity } => {
                push_str(&mut s, "Bug #");
                push_decimal(&mut s, *bug_id as u64);
                push_str(&mut s, ": sévérité invalide '");
                push_str(&mut s, severity.as_str());
                push_str(&mut s, "'");
            },
            Diagnostic::BugInvalidStatus { bug_id, status } => {
                push_str(&mut s, "Bug #");
                push_decimal(&mut s, *bug_id as u64);
                push_str(&mut s, ": statut invalide '");
                push_str(&mut s, status.as_str());
                push_str(&mut s, "'");
            },
        }
        s
    }
}

} // verus!
