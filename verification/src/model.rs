//! The roadmap's data: phases with their tasks and notes, and the bug and
//! feature-request stores kept beside them.

use vstd::prelude::*;

verus! {

/// A phase of the roadmap, as stored in `.phases/phase-<id>.yml`.
pub struct Phase {
    pub id: String,
    pub name: String,
    pub description: String,
    pub priority: u32,
    pub status: String,
    pub parent: Option<String>,
    pub created_at: String,
    pub updated_at: String,
    pub workflow: Option<PhaseWorkflow>,
    pub depends_on: Vec<String>,
    pub tasks: Vec<Task>,
    pub notes: Vec<Note>,
}

/// The workflow stages that a phase's tasks go through.
pub struct PhaseWorkflow {
    pub enabled: bool,
    pub stages: Vec<WorkflowStage>,
}

/// One stage of a phase workflow.
pub struct WorkflowStage {
    pub id: String,
    pub name: String,
}

/// A task of a phase.
pub struct Task {
    pub id: String,
    pub name: String,
    pub description: Option<String>,
    pub status: String,
    pub parent: Option<String>,
    pub workflow_stage: Option<String>,
    pub optional: bool,
    pub completed_at: Option<String>,
    pub blocks: Vec<String>,
    pub blocked_by: Vec<String>,
    pub files: Vec<String>,
    pub tags: Vec<String>,
    pub assignee: Option<String>,
    pub due: Option<String>,
}

/// A dated note attached to a phase.
pub struct Note {
    pub date: String,
    pub content: String,
}

/// The bugs of a project, as stored in `.phases/bugs.yml`.
pub struct BugStore {
    pub bugs: Vec<Bug>,
}

/// A bug or incident.
pub struct Bug {
    pub id: u32,
    pub title: String,
    pub severity: String,
    pub status: String,
    pub phase: Option<String>,
    pub description: Option<String>,
    pub assignee: Option<String>,
    pub reported_by: Option<String>,
    pub resolution: Option<String>,
    pub created_at: String,
    pub resolved_at: Option<String>,
}

/// The feature requests of a project, as stored in `.phases/features.yml`.
pub struct FeatureStore {
    pub features: Vec<FeatureRequest>,
}

/// A feature request.
pub struct FeatureRequest {
    pub id: u32,
    pub title: String,
    pub priority: String,
    pub status: String,
    pub phase: Option<String>,
    pub description: Option<String>,
    pub assignee: Option<String>,
    pub requested_by: Option<String>,
    pub implementation: Option<String>,
    pub created_at: String,
    pub implemented_at: Option<String>,
}

/// The priority a phase gets when its file names none.
pub fn default_priority() -> (r: u32)
    ensures
        r == 10,
{
    10
}

/// The status a phase or a task gets when its file names none.
pub fn default_status() -> (r: String)
    ensures
        r@ == "pending"@,
{
    String::from_str("pending")
}

/// The status a bug gets when the store names none.
pub fn default_bug_status() -> (r: String)
    ensures
        r@ == "open"@,
{
    String::from_str("open")
}

/// The status a feature request gets when the store names none.
pub fn default_feature_status() -> (r: String)
    ensures
        r@ == "proposed"@,
{
    String::from_str("proposed")
}

/// The largest bug id of a sequence of bugs, 0 when there is none.
pub open spec fn max_bug_id(bugs: Seq<Bug>) -> nat
    decreases bugs.len(),
{
    if bugs.len() == 0 {
        0
    } else {
        let rest = max_bug_id(bugs.drop_last());
        if bugs.last().id > rest {
            bugs.last().id as nat
        } else {
            rest
        }
    }
}

/// The largest feature id of a sequence of feature requests, 0 when there is none.
pub open spec fn max_feature_id(features: Seq<FeatureRequest>) -> nat
    decreases features.len(),
{
    if features.len() == 0 {
        0
    } else {
        let rest = max_feature_id(features.drop_last());
        if features.last().id > rest {
            features.last().id as nat
        } else {
            rest
        }
    }
}

/// Every bug id is at most the largest one.
pub proof fn lemma_max_bug_id_bounds(bugs: Seq<Bug>)
    ensures
        forall|i: int| 0 <= i < bugs.len() ==> bugs[i].id <= max_bug_id(bugs),
        bugs.len() == 0 ==> max_bug_id(bugs) == 0,
        bugs.len() > 0 ==> exists|i: int| 0 <= i < bugs.len() && bugs[i].id == max_bug_id(bugs),
        max_bug_id(bugs) <= u32::MAX,
    decreases bugs.len(),
{
    if bugs.len() > 0 {
        lemma_max_bug_id_bounds(bugs.drop_last());
        let rest = bugs.drop_last();
        if bugs.last().id <= max_bug_id(rest) && rest.len() > 0 {
            let k = choose|k: int| 0 <= k < rest.len() && rest[k].id == max_bug_id(rest);
            assert(bugs[k] == rest[k]);
        }
        assert forall|i: int| 0 <= i < bugs.len() implies bugs[i].id <= max_bug_id(bugs) by {
            if i < bugs.len() - 1 {
                assert(bugs[i] == rest[i]);
            }
        }
    }
}

/// Every feature id is at most the largest one.
pub proof fn lemma_max_feature_id_bounds(features: Seq<FeatureRequest>)
    ensures
        forall|i: int| 0 <= i < features.len() ==> features[i].id <= max_feature_id(features),
        features.len() == 0 ==> max_feature_id(features) == 0,
        features.len() > 0 ==> exists|i: int|
            0 <= i < features.len() && features[i].id == max_feature_id(features),
        max_feature_id(features) <= u32::MAX,
    decreases features.len(),
{
    if features.len() > 0 {
        lemma_max_feature_id_bounds(features.drop_last());
        let rest = features.drop_last();
        if features.last().id <= max_feature_id(rest) && rest.len() > 0 {
            let k = choose|k: int| 0 <= k < rest.len() && rest[k].id == max_feature_id(rest);
            assert(features[k] == rest[k]);
        }
        assert forall|i: int| 0 <= i < features.len() implies features[i].id <= max_feature_id(
            features,
        ) by {
            if i < features.len() - 1 {
                assert(features[i] == rest[i]);
            }
        }
    }
}

/// What became of writing a store to its file.
pub enum SaveOutcome {
    /// The store was written.
    Written,
    /// The store could not be serialised; the serialiser's message.
    SerializeFailed(String),
    /// The file could not be written; the system's message.
    WriteFailed(String),
}

/// The result of saving a store, from what became of the writing: the
/// failures carry a message that says which step failed.
pub open spec fn save_result(outcome: SaveOutcome) -> Result<(), Seq<char>> {
    match outcome {
        SaveOutcome::Written => Ok(()),
        SaveOutcome::SerializeFailed(e) => Err("Erreur sérialisation: "@ + e@),
        SaveOutcome::WriteFailed(e) => Err("Erreur écriture: "@ + e@),
    }
}

/// The result of saving a store (see `save_result`).
fn save_message(outcome: SaveOutcome) -> (r: Result<(), String>)
    ensures
        match (r, save_result(outcome)) {
            (Ok(()), Ok(())) => true,
            (Err(m), Err(e)) => m@ == e,
            _ => false,
        },
{
    match outcome {
        SaveOutcome::Written => Ok(()),
        SaveOutcome::SerializeFailed(e) => {
            let mut m = String::new();
            crate::text::push_str(&mut m, "Erreur sérialisation: ");
            crate::text::push_str(&mut m, e.as_str());
            Err(m)
        },
        SaveOutcome::WriteFailed(e) => {
            let mut m = String::new();
            crate::text::push_str(&mut m, "Erreur écriture: ");
            crate::text::push_str(&mut m, e.as_str());
            Err(m)
        },
    }
}

/// The file of the bug store under the phases directory.
pub fn bug_store_path(phases_dir: &str) -> (r: String)
    ensures
        r@ == crate::credentials::joined_path(phases_dir@, "bugs.yml"@),
{
    crate::credentials::path_join(phases_dir, "bugs.yml")
}

/// The file of the feature store under the phases directory.
pub fn feature_store_path(phases_dir: &str) -> (r: String)
    ensures
        r@ == crate::credentials::joined_path(phases_dir@, "features.yml"@),
{
    crate::credentials::path_join(phases_dir, "features.yml")
}

impl BugStore {
    /// The store that a load yields: what was read and parsed, or an empty
    /// store when the file is missing, unreadable or not a valid store.
    pub fn load(parsed: Option<BugStore>) -> (r: BugStore)
        ensures
            parsed matches Some(s) ==> r == s,
            parsed is None ==> r.bugs@.len() == 0,
    {
        match parsed {
            Some(s) => s,
            None => BugStore { bugs: Vec::new() },
        }
    }

    /// The id for the next bug: one more than the largest id in the store.
    pub fn next_id(&self) -> (r: u32)
        requires
            max_bug_id(self.bugs@) < u32::MAX,
        ensures
            r == max_bug_id(self.bugs@) + 1,
            forall|i: int| 0 <= i < self.bugs@.len() ==> self.bugs@[i].id < r,
    {
        let mut m: u32 = 0;
        let mut i: usize = 0;
        while i < self.bugs.len()
            invariant
                i <= self.bugs@.len(),
                m == max_bug_id(self.bugs@.take(i as int)),
            decreases self.bugs@.len() - i,
        {
            assert(self.bugs@.take(i + 1).drop_last() == self.bugs@.take(i as int));
            if self.bugs[i].id > m {
                m = self.bugs[i].id;
            }
            i = i + 1;
        }
        assert(self.bugs@.take(i as int) == self.bugs@);
        proof {
            lemma_max_bug_id_bounds(self.bugs@);
        }
        m + 1
    }

    /// The result of saving the store to `.phases/bugs.yml` (see
    /// `bug_store_path`), from what became of the writing.
    pub fn save(&self, outcome: SaveOutcome) -> (r: Result<(), String>)
        ensures
            match (r, save_result(outcome)) {
                (Ok(()), Ok(())) => true,
                (Err(m), Err(e)) => m@ == e,
                _ => false,
            },
    {
        save_message(outcome)
    }
}

impl FeatureStore {
    /// The store that a load yields: what was read and parsed, or an empty
    /// store when the file is missing, unreadable or not a valid store.
    pub fn load(parsed: Option<FeatureStore>) -> (r: FeatureStore)
        ensures
            parsed matches Some(s) ==> r == s,
            parsed is None ==> r.features@.len() == 0,
    {
        match parsed {
            Some(s) => s,
            None => FeatureStore { features: Vec::new() },
        }
    }

    /// The id for the next feature request: one more than the largest id in the store.
    pub fn next_id(&self) -> (r: u32)
        requires
            max_feature_id(self.features@) < u32::MAX,
        ensures
            r == max_feature_id(self.features@) + 1,
            forall|i: int| 0 <= i < self.features@.len() ==> self.features@[i].id < r,
    {
        let mut m: u32 = 0;
        let mut i: usize = 0;
        while i < self.features.len()
            invariant
                i <= self.features@.len(),
                m == max_feature_id(self.features@.take(i as int)),
            decreases self.features@.len() - i,
        {
            assert(self.features@.take(i + 1).drop_last() == self.features@.take(i as int));
            if self.features[i].id > m {
                m = self.features[i].id;
            }
            i = i + 1;
        }
        assert(self.features@.take(i as int) == self.features@);
        proof {
            lemma_max_feature_id_bounds(self.features@);
        }
        m + 1
    }

    /// The result of saving the store to `.phases/features.yml` (see
    /// `feature_store_path`), from what became of the writing.
    pub fn save(&self, outcome: SaveOutcome) -> (r: Result<(), String>)
        ensures
            match (r, save_result(outcome)) {
                (Ok(()), Ok(())) => true,
                (Err(m), Err(e)) => m@ == e,
                _ => false,
            },
    {
        save_message(outcome)
    }
}

} // verus!
