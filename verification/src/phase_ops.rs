//! Creating and editing phases: `add`, `edit`, `priority`, `note`, `status`.

use vstd::prelude::*;
use crate::model::{Phase, Note};
use crate::doctor::valid_status;
use crate::text::str_eq;

verus! {

/// Today's local date as `YYYY-MM-DD`: calls `chrono::Local::now()` and
/// formats it with `%Y-%m-%d`. Nothing is stated of the result: it depends on
/// the clock and the machine's time zone.
#[verifier::external_body]
pub(crate) fn today() -> (r: String) {
    chrono::Local::now().format("%Y-%m-%d").to_string()
}

impl Phase {
    /// A new phase created on `date`.
    pub fn new_on(id: String, name: String, date: String) -> (r: Phase)
        ensures
            r.id == id,
            r.name == name,
            r.description@ == Seq::<char>::empty(),
            r.priority == 10,
            r.status@ == "pending"@,
            r.parent is None,
            r.created_at == date,
            r.updated_at == date,
            r.workflow is None,
            r.depends_on@.len() == 0,
            r.tasks@.len() == 0,
            r.notes@.len() == 0,
    {
        let created = date.clone();
        Phase {
            id,
            name,
            description: String::new(),
            priority: 10,
            status: String::from_str("pending"),
            parent: None,
            created_at: created,
            updated_at: date,
            workflow: None,
            depends_on: Vec::new(),
            tasks: Vec::new(),
            notes: Vec::new(),
        }
    }

    /// A new phase created today (see [`today`]).
    pub fn new(id: String, name: String) -> (r: Phase)
        ensures
            r.id == id,
            r.name == name,
            r.description@ == Seq::<char>::empty(),
            r.priority == 10,
            r.status@ == "pending"@,
            r.parent is None,
            r.created_at == r.updated_at,
            r.workflow is None,
            r.depends_on@.len() == 0,
            r.tasks@.len() == 0,
            r.notes@.len() == 0,
    {
        let now = today();
        Phase::new_on(id, name, now)
    }
}

/// What the file system says about a phase about to be added.
pub struct AddFacts {
    /// The `.phases` directory exists.
    pub initialized: bool,
    /// A file for a phase with this id exists already.
    pub exists: bool,
    /// A file for the parent phase exists (when a parent is named).
    pub parent_exists: bool,
}

/// Why a phase cannot be added.
pub enum AddError {
    NotInitialized,
    AlreadyExists,
    ParentMissing,
}

/// The phase that `roadmap add` writes, or why it refuses: the roadmap must be
/// initialized, the id free, and a named parent must exist, checked in this order.
pub fn cmd_add(
    id: String,
    name: String,
    parent: Option<String>,
    depends_on: Option<Vec<String>>,
    facts: AddFacts,
    date: String,
) -> (r: Result<Phase, AddError>)
    ensures
        !facts.initialized ==> r matches Err(AddError::NotInitialized),
        facts.initialized && facts.exists ==> r matches Err(AddError::AlreadyExists),
        facts.initialized && !facts.exists && parent is Some && !facts.parent_exists ==> r matches Err(
            AddError::ParentMissing,
        ),
        facts.initialized && !facts.exists && (parent is None || facts.parent_exists) ==> r is Ok,
        r matches Ok(p) ==> {
            &&& p.id == id
            &&& p.name == name
            &&& p.description@ == Seq::<char>::empty()
            &&& p.priority == 10
            &&& p.status@ == "pending"@
            &&& p.parent == parent
            &&& p.created_at == date
            &&& p.updated_at == date
            &&& p.workflow is None
            &&& p.depends_on@ == match depends_on {
                Some(d) => d@,
                None => Seq::empty(),
            }
            &&& p.tasks@.len() == 0
            &&& p.notes@.len() == 0
        },
{
    if !facts.initialized {
        return Err(AddError::NotInitialized);
    }
    if facts.exists {
        return Err(AddError::AlreadyExists);
    }
    if parent.is_some() && !facts.parent_exists {
        return Err(AddError::ParentMissing);
    }
    let mut p = Phase::new_on(id, name, date);
    p.parent = parent;
    p.depends_on = match depends_on {
        Some(d) => d,
        None => Vec::new(),
    };
    Ok(p)
}

/// The position of the first phase with this id.
pub open spec fn first_phase_with(phases: Seq<Phase>, id: Seq<char>, i: int) -> bool {
    0 <= i < phases.len() && phases[i].id@ == id && forall|j: int| 0 <= j < i ==> phases[j].id@ != id
}

/// The position of the first phase with this id, if any.
pub fn find_phase(phases: &Vec<Phase>, id: &str) -> (r: Option<usize>)
    ensures
        r matches Some(i) ==> first_phase_with(phases@, id@, i as int),
        r is None ==> forall|j: int| 0 <= j < phases@.len() ==> phases@[j].id@ != id@,
{
    let mut i: usize = 0;
    while i < phases.len()
        invariant
            i <= phases@.len(),
            forall|j: int| 0 <= j < i ==> phases@[j].id@ != id@,
        decreases phases@.len() - i,
    {
        if str_eq(phases[i].id.as_str(), id) {
            return Some(i);
        }
        i = i + 1;
    }
    None
}

/// Why a phase could not be changed.
pub enum EditError {
    NotFound,
    NothingToChange,
}

/// `roadmap edit`: sets the name, description and dependencies given on the
/// first phase with this id and dates the change; returns its position.
pub fn cmd_edit(
    phases: &mut Vec<Phase>,
    id: &str,
    name: Option<String>,
    description: Option<String>,
    depends_on: Option<Vec<String>>,
    date: String,
) -> (r: Result<usize, EditError>)
    ensures
        (forall|j: int| 0 <= j < old(phases)@.len() ==> old(phases)@[j].id@ != id@) ==> r matches Err(
            EditError::NotFound,
        ),
        (exists|j: int| 0 <= j < old(phases)@.len() && old(phases)@[j].id@ == id@) && name is None
            && description is None && depends_on is None ==> r matches Err(EditError::NothingToChange),
        (exists|j: int| 0 <= j < old(phases)@.len() && old(phases)@[j].id@ == id@) && (name is Some
            || description is Some || depends_on is Some) ==> r is Ok,
        r is Err ==> final(phases)@ == old(phases)@,
        r matches Ok(i) ==> {
            let o = old(phases)@[i as int];
            &&& first_phase_with(old(phases)@, id@, i as int)
            &&& final(phases)@ == old(phases)@.update(
                i as int,
                Phase {
                    name: match name {
                        Some(n) => n,
                        None => o.name,
                    },
                    description: match description {
                        Some(d) => d,
                        None => o.description,
                    },
                    depends_on: match depends_on {
                        Some(d) => d,
                        None => o.depends_on,
                    },
                    updated_at: date,
                    ..o
                },
            )
        },
{
    let i = match find_phase(phases, id) {
        Some(i) => i,
        None => {
            return Err(EditError::NotFound);
        },
    };
    if name.is_none() && description.is_none() && depends_on.is_none() {
        return Err(EditError::NothingToChange);
    }
    let mut p = phases.remove(i);
    match name {
        Some(n) => {
            p.name = n;
        },
        None => {},
    }
    match description {
        Some(d) => {
            p.description = d;
        },
        None => {},
    }
    match depends_on {
        Some(d) => {
            p.depends_on = d;
        },
        None => {},
    }
    p.updated_at = date;
    phases.insert(i, p);
    Ok(i)
}

/// `roadmap priority`: sets the priority of the first phase with this id and
/// dates the change; returns its position and its former priority.
pub fn cmd_priority(phases: &mut Vec<Phase>, id: &str, priority: u32, date: String) -> (r: Option<
    (usize, u32),
>)
    ensures
        r is None <==> forall|j: int| 0 <= j < old(phases)@.len() ==> old(phases)@[j].id@ != id@,
        r is None ==> final(phases)@ == old(phases)@,
        r matches Some((i, before)) ==> {
            let o = old(phases)@[i as int];
            &&& first_phase_with(old(phases)@, id@, i as int)
            &&& before == o.priority
            &&& final(phases)@ == old(phases)@.update(
                i as int,
                Phase { priority: priority, updated_at: date, ..o },
            )
        },
{
    let i = match find_phase(phases, id) {
        Some(i) => i,
        None => {
            return None;
        },
    };
    let mut p = phases.remove(i);
    let before = p.priority;
    p.priority = priority;
    p.updated_at = date;
    phases.insert(i, p);
    Some((i, before))
}

/// `roadmap note`: adds a note dated `date` to the first phase with this id
/// and dates the change; returns its position.
pub fn cmd_note(phases: &mut Vec<Phase>, id: &str, content: String, date: String) -> (r: Option<
    usize,
>)
    ensures
        r is None <==> forall|j: int| 0 <= j < old(phases)@.len() ==> old(phases)@[j].id@ != id@,
        r is None ==> final(phases)@ == old(phases)@,
        r matches Some(i) ==> {
            let o = old(phases)@[i as int];
            let p = final(phases)@[i as int];
            &&& first_phase_with(old(phases)@, id@, i as int)
            &&& final(phases)@ == old(phases)@.update(i as int, p)
            &&& p == (Phase { notes: p.notes, updated_at: date, ..o })
            &&& p.notes@ == o.notes@.push(Note { date: date, content: content })
        },
{
    let i = match find_phase(phases, id) {
        Some(i) => i,
        None => {
            return None;
        },
    };
    let mut p = phases.remove(i);
    let d2 = date.clone();
    p.notes.push(Note { date: d2, content });
    p.updated_at = date;
    phases.insert(i, p);
    Some(i)
}

/// Whether a phase status is one of `pending`, `in_progress`, `done`, `blocked`.
pub fn is_valid_status(s: &str) -> (r: bool)
    ensures
        r == valid_status(s@),
{
    str_eq(s, "pending") || str_eq(s, "in_progress") || str_eq(s, "done") || str_eq(s, "blocked")
}

/// `roadmap status`, and the web's status update: sets a valid status on the
/// phase and dates the change; returns the former status.
pub fn set_phase_status(phase: &mut Phase, status: String, date: String) -> (r: String)
    requires
        valid_status(status@),
    ensures
        r == old(phase).status,
        *final(phase) == (Phase { status: status, updated_at: date, ..*old(phase) }),
{
    let before = phase.status.clone();
    phase.status = status;
    phase.updated_at = date;
    before
}

/// The icon of a phase or task status.
pub fn status_icon(status: &str) -> (r: &'static str)
    ensures
        r@ == (if status@ == "done"@ {
            "✅"@
        } else if status@ == "in_progress"@ {
            "🔄"@
        } else if status@ == "blocked"@ {
            "🚫"@
        } else {
            "⬜"@
        }),
{
    if str_eq(status, "done") {
        "✅"
    } else if str_eq(status, "in_progress") {
        "🔄"
    } else if str_eq(status, "blocked") {
        "🚫"
    } else {
        "⬜"
    }
}

} // verus!
