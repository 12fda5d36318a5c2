//! Bugs and feature requests (`roadmap bug ...`, `roadmap feature ...`):
//! adding, listing, resolving and updating the entries of the two stores.

use vstd::prelude::*;
use crate::model::{Phase, Bug, BugStore, FeatureRequest, FeatureStore, max_bug_id, max_feature_id};
use crate::doctor::{valid_severity, valid_bug_status};
use crate::text::{str_eq, push_str};

verus! {

/// The priorities a feature request may have.
pub open spec fn valid_feature_priority(s: Seq<char>) -> bool {
    s == "critical"@ || s == "high"@ || s == "medium"@ || s == "low"@
}

/// The statuses a feature request may have.
pub open spec fn valid_feature_status(s: Seq<char>) -> bool {
    s == "proposed"@ || s == "accepted"@ || s == "in_progress"@ || s == "implemented"@ || s
        == "rejected"@
}

/// Whether a bug severity is one of `blocking`, `major`, `minor`.
pub fn is_valid_severity(s: &str) -> (r: bool)
    ensures
        r == valid_severity(s@),
{
    str_eq(s, "blocking") || str_eq(s, "major") || str_eq(s, "minor")
}

/// Whether a bug status is one of `open`, `in_progress`, `resolved`, `wontfix`.
pub fn is_valid_bug_status(s: &str) -> (r: bool)
    ensures
        r == valid_bug_status(s@),
{
    str_eq(s, "open") || str_eq(s, "in_progress") || str_eq(s, "resolved") || str_eq(s, "wontfix")
}

/// Whether a feature priority is one of `critical`, `high`, `medium`, `low`.
pub fn is_valid_feature_priority(s: &str) -> (r: bool)
    ensures
        r == valid_feature_priority(s@),
{
    str_eq(s, "critical") || str_eq(s, "high") || str_eq(s, "medium") || str_eq(s, "low")
}

/// Whether a feature status is one of the five known ones.
pub fn is_valid_feature_status(s: &str) -> (r: bool)
    ensures
        r == valid_feature_status(s@),
{
    str_eq(s, "proposed") || str_eq(s, "accepted") || str_eq(s, "in_progress") || str_eq(
        s,
        "implemented",
    ) || str_eq(s, "rejected")
}

/// The icon of a bug severity.
pub fn severity_icon(severity: &str) -> (r: &'static str)
    ensures
        r@ == (if severity@ == "blocking"@ {
            "🔴"@
        } else if severity@ == "major"@ {
            "🟠"@
        } else if severity@ == "minor"@ {
            "🟡"@
        } else {
            "⚪"@
        }),
{
    if str_eq(severity, "blocking") {
        "🔴"
    } else if str_eq(severity, "major") {
        "🟠"
    } else if str_eq(severity, "minor") {
        "🟡"
    } else {
        "⚪"
    }
}

/// The icon of a bug status.
pub fn bug_status_icon(status: &str) -> (r: &'static str)
    ensures
        r@ == (if status@ == "open"@ {
            "⬜"@
        } else if status@ == "in_progress"@ {
            "🔄"@
        } else if status@ == "resolved"@ {
            "✅"@
        } else if status@ == "wontfix"@ {
            "⏭️"@
        } else {
            "⬜"@
        }),
{
    if str_eq(status, "open") {
        "⬜"
    } else if str_eq(status, "in_progress") {
        "🔄"
    } else if str_eq(status, "resolved") {
        "✅"
    } else if str_eq(status, "wontfix") {
        "⏭️"
    } else {
        "⬜"
    }
}

/// The icon of a feature priority.
pub fn priority_icon(priority: &str) -> (r: &'static str)
    ensures
        r@ == (if priority@ == "critical"@ {
            "🔴"@
        } else if priority@ == "high"@ {
            "🟠"@
        } else if priority@ == "medium"@ {
            "🟡"@
        } else if priority@ == "low"@ {
            "🟢"@
        } else {
            "⚪"@
        }),
{
    if str_eq(priority, "critical") {
        "🔴"
    } else if str_eq(priority, "high") {
        "🟠"
    } else if str_eq(priority, "medium") {
        "🟡"
    } else if str_eq(priority, "low") {
        "🟢"
    } else {
        "⚪"
    }
}

/// The icon of a feature status.
pub fn feature_status_icon(status: &str) -> (r: &'static str)
    ensures
        r@ == (if status@ == "proposed"@ {
            "💡"@
        } else if status@ == "accepted"@ {
            "👍"@
        } else if status@ == "in_progress"@ {
            "🔄"@
        } else if status@ == "implemented"@ {
            "✅"@
        } else if status@ == "rejected"@ {
            "❌"@
        } else {
            "⬜"@
        }),
{
    if str_eq(status, "proposed") {
        "💡"
    } else if str_eq(status, "accepted") {
        "👍"
    } else if str_eq(status, "in_progress") {
        "🔄"
    } else if str_eq(status, "implemented") {
        "✅"
    } else if str_eq(status, "rejected") {
        "❌"
    } else {
        "⬜"
    }
}

/// Why a bug or feature request could not be added, resolved or updated.
pub enum TrackerError {
    /// The severity is not one of the known ones.
    InvalidSeverity,
    /// The priority is not one of the known ones.
    InvalidPriority,
    /// The status is not one of the known ones.
    InvalidStatus,
    /// The phase named does not exist in the local roadmap.
    PhaseNotFound,
    /// No entry has this id.
    NotFound,
}

/// Some phase of the roadmap has this id.
pub open spec fn phase_exists(phases: Seq<Phase>, id: Seq<char>) -> bool {
    exists|i: int| 0 <= i < phases.len() && (#[trigger] phases[i]).id@ == id
}

fn phase_exists_exec(phases: &Vec<Phase>, id: &String) -> (r: bool)
    ensures
        r == phase_exists(phases@, id@),
{
    let mut i: usize = 0;
    while i < phases.len()
        invariant
            i <= phases@.len(),
            forall|k: int| 0 <= k < i ==> (#[trigger] phases@[k]).id@ != id@,
        decreases phases@.len() - i,
    {
        if phases[i].id == *id {
            return true;
        }
        i = i + 1;
    }
    false
}

/// The phase named for a new entry is refused: a local roadmap is loaded and
/// has no phase with that id.
pub open spec fn phase_refused(phase: Option<String>, local: Option<Seq<Phase>>) -> bool {
    match (phase, local) {
        (Some(q), Some(ps)) => !phase_exists(ps, q@),
        _ => false,
    }
}

fn phase_refused_exec(phase: &Option<String>, local: Option<&Vec<Phase>>) -> (r: bool)
    ensures
        r == phase_refused(*phase, match local {
            Some(v) => Some(v@),
            None => None,
        }),
{
    match (phase, local) {
        (Some(q), Some(ps)) => !phase_exists_exec(ps, q),
        _ => false,
    }
}

/// The details of a new bug.
pub struct NewBug {
    pub title: String,
    pub severity: String,
    pub phase: Option<String>,
    pub description: Option<String>,
    pub assignee: Option<String>,
    pub reported_by: Option<String>,
}

impl BugStore {
    /// Adds a bug, open and dated `today`, with the next id. The severity must
    /// be a known one, and a phase it names must exist in `local` (the local
    /// roadmap, when the bug is filed there and it could be loaded).
    pub fn add(&mut self, new: NewBug, local: Option<&Vec<Phase>>, today: String) -> (r: Result<
        u32,
        TrackerError,
    >)
        requires
            valid_severity(new.severity@) && !phase_refused(new.phase, match local {
                Some(v) => Some(v@),
                None => None,
            }) ==> max_bug_id(old(self).bugs@) < u32::MAX,
        ensures
            !valid_severity(new.severity@) ==> r matches Err(TrackerError::InvalidSeverity),
            valid_severity(new.severity@) && phase_refused(new.phase, match local {
                Some(v) => Some(v@),
                None => None,
            }) ==> r matches Err(TrackerError::PhaseNotFound),
            r is Err ==> final(self).bugs@ == old(self).bugs@,
            r matches Ok(id) ==> {
                &&& id == max_bug_id(old(self).bugs@) + 1
                &&& final(self).bugs@ == old(self).bugs@.push(
                    Bug {
                        id: id,
                        title: new.title,
                        severity: new.severity,
                        status: final(self).bugs@.last().status,
                        phase: new.phase,
                        description: new.description,
                        assignee: new.assignee,
                        reported_by: new.reported_by,
                        resolution: None,
                        created_at: today,
                        resolved_at: None,
                    },
                )
                &&& final(self).bugs@.last().status@ == "open"@
            },
            valid_severity(new.severity@) && !phase_refused(new.phase, match local {
                Some(v) => Some(v@),
                None => None,
            }) ==> r is Ok,
    {
        if !is_valid_severity(new.severity.as_str()) {
            return Err(TrackerError::InvalidSeverity);
        }
        if phase_refused_exec(&new.phase, local) {
            return Err(TrackerError::PhaseNotFound);
        }
        let id = self.next_id();
        self.bugs.push(
            Bug {
                id,
                title: new.title,
                severity: new.severity,
                status: String::from_str("open"),
                phase: new.phase,
                description: new.description,
                assignee: new.assignee,
                reported_by: new.reported_by,
                resolution: None,
                created_at: today,
                resolved_at: None,
            },
        );
        Ok(id)
    }
}

/// The details of a new feature request.
pub struct NewFeature {
    pub title: String,
    pub priority: String,
    pub phase: Option<String>,
    pub description: Option<String>,
    pub assignee: Option<String>,
    pub requested_by: Option<String>,
}

impl FeatureStore {
    /// Adds a feature request, proposed and dated `today`, with the next id.
    /// The priority must be a known one, and a phase it names must exist in
    /// `local` (the local roadmap, when it is filed there and could be loaded).
    pub fn add(&mut self, new: NewFeature, local: Option<&Vec<Phase>>, today: String) -> (r:
        Result<u32, TrackerError>)
        requires
            valid_feature_priority(new.priority@) && !phase_refused(new.phase, match local {
                Some(v) => Some(v@),
                None => None,
            }) ==> max_feature_id(old(self).features@) < u32::MAX,
        ensures
            !valid_feature_priority(new.priority@) ==> r matches Err(TrackerError::InvalidPriority),
            valid_feature_priority(new.priority@) && phase_refused(new.phase, match local {
                Some(v) => Some(v@),
                None => None,
            }) ==> r matches Err(TrackerError::PhaseNotFound),
            r is Err ==> final(self).features@ == old(self).features@,
            r matches Ok(id) ==> {
                &&& id == max_feature_id(old(self).features@) + 1
                &&& final(self).features@ == old(self).features@.push(
                    FeatureRequest {
                        id: id,
                        title: new.title,
                        priority: new.priority,
                        status: final(self).features@.last().status,
                        phase: new.phase,
                        description: new.description,
                        assignee: new.assignee,
                        requested_by: new.requested_by,
                        implementation: None,
                        created_at: today,
                        implemented_at: None,
                    },
                )
                &&& final(self).features@.last().status@ == "proposed"@
            },
            valid_feature_priority(new.priority@) && !phase_refused(new.phase, match local {
                Some(v) => Some(v@),
                None => None,
            }) ==> r is Ok,
    {
        if !is_valid_feature_priority(new.priority.as_str()) {
            return Err(TrackerError::InvalidPriority);
        }
        if phase_refused_exec(&new.phase, local) {
            return Err(TrackerError::PhaseNotFound);
        }
        let id = self.next_id();
        self.features.push(
            FeatureRequest {
                id,
                title: new.title,
                priority: new.priority,
                status: String::from_str("proposed"),
                phase: new.phase,
                description: new.description,
                assignee: new.assignee,
                requested_by: new.requested_by,
                implementation: None,
                created_at: today,
                implemented_at: None,
            },
        );
        Ok(id)
    }
}

/// The filter of a listing holds: no value asked, or the value asked.
pub open spec fn matches_filter(filter: Option<String>, value: Seq<char>) -> bool {
    match filter {
        Some(f) => f@ == value,
        None => true,
    }
}

fn matches_filter_exec(filter: &Option<String>, value: &String) -> (r: bool)
    ensures
        r == matches_filter(*filter, value@),
{
    match filter {
        Some(f) => *f == *value,
        None => true,
    }
}

/// The positions, among the first `n` bugs, of those that pass both filters.
pub open spec fn bugs_listed(bugs: Seq<Bug>, severity: Option<String>, status: Option<String>, n: int) -> Seq<usize>
    decreases n,
{
    if n <= 0 {
        Seq::empty()
    } else if matches_filter(severity, bugs[n - 1].severity@) && matches_filter(status, bugs[n - 1].status@) {
        bugs_listed(bugs, severity, status, n - 1).push((n - 1) as usize)
    } else {
        bugs_listed(bugs, severity, status, n - 1)
    }
}

/// The positions of the bugs with the severity and the status asked, in store order.
pub fn list_bugs(bugs: &Vec<Bug>, severity: &Option<String>, status: &Option<String>) -> (r: Vec<usize>)
    ensures
        r@ == bugs_listed(bugs@, *severity, *status, bugs@.len() as int),
{
    let mut out: Vec<usize> = Vec::new();
    let mut i: usize = 0;
    while i < bugs.len()
        invariant
            i <= bugs@.len(),
            out@ == bugs_listed(bugs@, *severity, *status, i as int),
        decreases bugs@.len() - i,
    {
        if matches_filter_exec(severity, &bugs[i].severity) && matches_filter_exec(status, &bugs[i].status) {
            out.push(i);
        }
        i = i + 1;
    }
    out
}

/// The number of listed bugs that are still open (status `open` or `in_progress`).
pub open spec fn listed_open(bugs: Seq<Bug>, at: Seq<usize>) -> nat
    decreases at.len(),
{
    if at.len() == 0 {
        0
    } else {
        let b = bugs[at.last() as int];
        listed_open(bugs, at.drop_last()) + if b.status@ == "open"@ || b.status@ == "in_progress"@ {
            1nat
        } else {
            0nat
        }
    }
}

/// The number of listed bugs that are blocking and neither resolved nor dropped.
pub open spec fn listed_blocking(bugs: Seq<Bug>, at: Seq<usize>) -> nat
    decreases at.len(),
{
    if at.len() == 0 {
        0
    } else {
        let b = bugs[at.last() as int];
        listed_blocking(bugs, at.drop_last()) + if b.severity@ == "blocking"@ && b.status@ != "resolved"@
            && b.status@ != "wontfix"@ {
            1nat
        } else {
            0nat
        }
    }
}

/// How many of the listed bugs are open, and how many are blocking.
pub fn bug_list_counts(bugs: &Vec<Bug>, at: &Vec<usize>) -> (r: (usize, usize))
    requires
        forall|k: int| 0 <= k < at@.len() ==> at@[k] < bugs@.len(),
    ensures
        r.0 == listed_open(bugs@, at@),
        r.1 == listed_blocking(bugs@, at@),
{
    let mut open: usize = 0;
    let mut blocking: usize = 0;
    let mut k: usize = 0;
    while k < at.len()
        invariant
            k <= at@.len(),
            forall|kk: int| 0 <= kk < at@.len() ==> at@[kk] < bugs@.len(),
            open == listed_open(bugs@, at@.take(k as int)),
            blocking == listed_blocking(bugs@, at@.take(k as int)),
            open <= k,
            blocking <= k,
        decreases at@.len() - k,
    {
        assert(at@.take(k + 1).drop_last() == at@.take(k as int));
        let b = &bugs[at[k]];
        if str_eq(b.status.as_str(), "open") || str_eq(b.status.as_str(), "in_progress") {
            open = open + 1;
        }
        if str_eq(b.severity.as_str(), "blocking") && !str_eq(b.status.as_str(), "resolved") && !str_eq(
            b.status.as_str(),
            "wontfix",
        ) {
            blocking = blocking + 1;
        }
        k = k + 1;
    }
    assert(at@.take(k as int) == at@);
    (open, blocking)
}

/// The positions, among the first `n` feature requests, of those that pass both filters.
pub open spec fn features_listed(
    features: Seq<FeatureRequest>,
    priority: Option<String>,
    status: Option<String>,
    n: int,
) -> Seq<usize>
    decreases n,
{
    if n <= 0 {
        Seq::empty()
    } else if matches_filter(priority, features[n - 1].priority@) && matches_filter(
        status,
        features[n - 1].status@,
    ) {
        features_listed(features, priority, status, n - 1).push((n - 1) as usize)
    } else {
        features_listed(features, priority, status, n - 1)
    }
}

/// The positions of the feature requests with the priority and the status asked.
pub fn list_features(
    features: &Vec<FeatureRequest>,
    priority: &Option<String>,
    status: &Option<String>,
) -> (r: Vec<usize>)
    ensures
        r@ == features_listed(features@, *priority, *status, features@.len() as int),
{
    let mut out: Vec<usize> = Vec::new();
    let mut i: usize = 0;
    while i < features.len()
        invariant
            i <= features@.len(),
            out@ == features_listed(features@, *priority, *status, i as int),
        decreases features@.len() - i,
    {
        if matches_filter_exec(priority, &features[i].priority) && matches_filter_exec(
            status,
            &features[i].status,
        ) {
            out.push(i);
        }
        i = i + 1;
    }
    out
}

/// The number of listed feature requests still waiting: neither implemented nor rejected.
pub open spec fn listed_waiting(features: Seq<FeatureRequest>, at: Seq<usize>) -> nat
    decreases at.len(),
{
    if at.len() == 0 {
        0
    } else {
        let f = features[at.last() as int];
        listed_waiting(features, at.drop_last()) + if f.status@ != "implemented"@ && f.status@
            != "rejected"@ {
            1nat
        } else {
            0nat
        }
    }
}

/// How many of the listed feature requests are still waiting.
pub fn feature_list_waiting(features: &Vec<FeatureRequest>, at: &Vec<usize>) -> (r: usize)
    requires
        forall|k: int| 0 <= k < at@.len() ==> at@[k] < features@.len(),
    ensures
        r == listed_waiting(features@, at@),
{
    let mut n: usize = 0;
    let mut k: usize = 0;
    while k < at.len()
        invariant
            k <= at@.len(),
            forall|kk: int| 0 <= kk < at@.len() ==> at@[kk] < features@.len(),
            n == listed_waiting(features@, at@.take(k as int)),
            n <= k,
        decreases at@.len() - k,
    {
        assert(at@.take(k + 1).drop_last() == at@.take(k as int));
        let f = &features[at[k]];
        if !str_eq(f.status.as_str(), "implemented") && !str_eq(f.status.as_str(), "rejected") {
            n = n + 1;
        }
        k = k + 1;
    }
    assert(at@.take(k as int) == at@);
    n
}

/// The position of the first bug with this id, if any.
pub fn find_bug(bugs: &Vec<Bug>, id: u32) -> (r: Option<usize>)
    ensures
        r matches Some(i) ==> i < bugs@.len() && bugs@[i as int].id == id && forall|j: int|
            0 <= j < i ==> bugs@[j].id != id,
        r is None ==> forall|j: int| 0 <= j < bugs@.len() ==> bugs@[j].id != id,
{
    let mut i: usize = 0;
    while i < bugs.len()
        invariant
            i <= bugs@.len(),
            forall|j: int| 0 <= j < i ==> bugs@[j].id != id,
        decreases bugs@.len() - i,
    {
        if bugs[i].id == id {
            return Some(i);
        }
        i = i + 1;
    }
    None
}

/// The position of the first feature request with this id, if any.
pub fn find_feature(features: &Vec<FeatureRequest>, id: u32) -> (r: Option<usize>)
    ensures
        r matches Some(i) ==> i < features@.len() && features@[i as int].id == id && forall|j: int|
            0 <= j < i ==> features@[j].id != id,
        r is None ==> forall|j: int| 0 <= j < features@.len() ==> features@[j].id != id,
{
    let mut i: usize = 0;
    while i < features.len()
        invariant
            i <= features@.len(),
            forall|j: int| 0 <= j < i ==> features@[j].id != id,
        decreases features@.len() - i,
    {
        if features[i].id == id {
            return Some(i);
        }
        i = i + 1;
    }
    None
}

/// The note of a resolution: the description, and `commit <c>` when a commit
/// is named, joined by ` — `; nothing when neither is given.
pub open spec fn closing_note(description: Option<String>, commit: Option<String>) -> Option<
    Seq<char>,
> {
    match (description, commit) {
        (Some(d), Some(c)) => Some(d@ + " — "@ + "commit "@ + c@),
        (Some(d), None) => Some(d@),
        (None, Some(c)) => Some("commit "@ + c@),
        (None, None) => None,
    }
}

/// Builds the note of a resolution.
pub fn make_closing_note(description: Option<String>, commit: Option<String>) -> (r: Option<String>)
    ensures
        match r {
            Some(s) => closing_note(description, commit) == Some(s@),
            None => closing_note(description, commit) is None,
        },
{
    match (description, commit) {
        (Some(d), Some(c)) => {
            let mut s = d;
            push_str(&mut s, " — ");
            push_str(&mut s, "commit ");
            push_str(&mut s, c.as_str());
            Some(s)
        },
        (Some(d), None) => Some(d),
        (None, Some(c)) => {
            let mut s = String::new();
            push_str(&mut s, "commit ");
            push_str(&mut s, c.as_str());
            Some(s)
        },
        (None, None) => None,
    }
}

impl BugStore {
    /// Marks the first bug with this id resolved on `today`, with the
    /// resolution note when one is given; returns its title.
    pub fn resolve(&mut self, id: u32, description: Option<String>, commit: Option<String>, today: String) -> (r: Result<String, TrackerError>)
        ensures
            (forall|j: int| 0 <= j < old(self).bugs@.len() ==> old(self).bugs@[j].id != id) <==> r is Err,
            r is Err ==> final(self).bugs@ == old(self).bugs@,
            r matches Ok(title) ==> exists|i: int| {
                &&& 0 <= i < old(self).bugs@.len()
                &&& old(self).bugs@[i].id == id
                &&& forall|j: int| 0 <= j < i ==> old(self).bugs@[j].id != id
                &&& title == old(self).bugs@[i].title
                &&& final(self).bugs@.len() == old(self).bugs@.len()
                &&& forall|j: int| 0 <= j < old(self).bugs@.len() && j != i ==> final(self).bugs@[j] == old(self).bugs@[j]
                &&& resolved_bug(old(self).bugs@[i], final(self).bugs@[i], description, commit, today)
            },
    {
        match find_bug(&self.bugs, id) {
            None => Err(TrackerError::NotFound),
            Some(i) => {
                let mut b = self.bugs.remove(i);
                b.status = String::from_str("resolved");
                b.resolved_at = Some(today);
                let note = make_closing_note(description, commit);
                match note {
                    Some(n) => {
                        b.resolution = Some(n);
                    },
                    None => {},
                }
                let title = b.title.clone();
                self.bugs.insert(i, b);
                Ok(title)
            },
        }
    }
}

/// `new` is `old` resolved on `today` with the given note parts: every field
/// kept but the status, the resolution date and (when a note is given) the resolution.
pub open spec fn resolved_bug(old: Bug, new: Bug, description: Option<String>, commit: Option<String>, today: String) -> bool {
    &&& new.id == old.id
    &&& new.title == old.title
    &&& new.severity == old.severity
    &&& new.status@ == "resolved"@
    &&& new.phase == old.phase
    &&& new.description == old.description
    &&& new.assignee == old.assignee
    &&& new.reported_by == old.reported_by
    &&& new.created_at == old.created_at
    &&& new.resolved_at == Some(today)
    &&& match closing_note(description, commit) {
        Some(n) => new.resolution matches Some(s) && s@ == n,
        None => new.resolution == old.resolution,
    }
}

/// `new` is `old` implemented on `today` with the given note parts.
pub open spec fn implemented_feature(old: FeatureRequest, new: FeatureRequest, description: Option<String>, commit: Option<String>, today: String) -> bool {
    &&& new.id == old.id
    &&& new.title == old.title
    &&& new.priority == old.priority
    &&& new.status@ == "implemented"@
    &&& new.phase == old.phase
    &&& new.description == old.description
    &&& new.assignee == old.assignee
    &&& new.requested_by == old.requested_by
    &&& new.created_at == old.created_at
    &&& new.implemented_at == Some(today)
    &&& match closing_note(description, commit) {
        Some(n) => new.implementation matches Some(s) && s@ == n,
        None => new.implementation == old.implementation,
    }
}

impl FeatureStore {
    /// Marks the first feature request with this id implemented on `today`,
    /// with the implementation note when one is given; returns its title.
    pub fn implement(&mut self, id: u32, description: Option<String>, commit: Option<String>, today: String) -> (r: Result<String, TrackerError>)
        ensures
            (forall|j: int| 0 <= j < old(self).features@.len() ==> old(self).features@[j].id != id) <==> r is Err,
            r is Err ==> final(self).features@ == old(self).features@,
            r matches Ok(title) ==> exists|i: int| {
                &&& 0 <= i < old(self).features@.len()
                &&& old(self).features@[i].id == id
                &&& forall|j: int| 0 <= j < i ==> old(self).features@[j].id != id
                &&& title == old(self).features@[i].title
                &&& final(self).features@.len() == old(self).features@.len()
                &&& forall|j: int| 0 <= j < old(self).features@.len() && j != i ==> final(self).features@[j] == old(self).features@[j]
                &&& implemented_feature(old(self).features@[i], final(self).features@[i], description, commit, today)
            },
    {
        match find_feature(&self.features, id) {
            None => Err(TrackerError::NotFound),
            Some(i) => {
                let mut f = self.features.remove(i);
                f.status = String::from_str("implemented");
                f.implemented_at = Some(today);
                let note = make_closing_note(description, commit);
                match note {
                    Some(n) => {
                        f.implementation = Some(n);
                    },
                    None => {},
                }
                let title = f.title.clone();
                self.features.insert(i, f);
                Ok(title)
            },
        }
    }
}

/// A value given for a field is a known one (kinds: 0 bug status, 1 bug
/// severity, 2 feature status, 3 feature priority); no value is always fine.
pub open spec fn opt_ok(v: Option<String>, kind: int) -> bool {
    match v {
        Some(x) => if kind == 0 {
            valid_bug_status(x@)
        } else if kind == 1 {
            valid_severity(x@)
        } else if kind == 2 {
            valid_feature_status(x@)
        } else {
            valid_feature_priority(x@)
        },
        None => true,
    }
}

/// The changes asked of a bug; each field given replaces the bug's.
pub struct BugUpdate {
    pub status: Option<String>,
    pub severity: Option<String>,
    pub assignee: Option<String>,
    pub title: Option<String>,
    pub description: Option<String>,
    pub phase: Option<String>,
}

/// The changes asked of a feature request; each field given replaces its own.
pub struct FeatureUpdate {
    pub status: Option<String>,
    pub priority: Option<String>,
    pub assignee: Option<String>,
    pub title: Option<String>,
    pub description: Option<String>,
    pub phase: Option<String>,
}

/// The value a field keeps: the new one when given, else the old one.
pub open spec fn or_old(new: Option<String>, old: String) -> String {
    match new {
        Some(v) => v,
        None => old,
    }
}

/// The value an optional field keeps: the new one when given, else the old one.
pub open spec fn or_old_opt(new: Option<String>, old: Option<String>) -> Option<String> {
    match new {
        Some(v) => Some(v),
        None => old,
    }
}

/// `label` followed by the value, when a value is given.
pub open spec fn change_line(label: Seq<char>, v: Option<String>) -> Seq<Seq<char>> {
    match v {
        Some(x) => seq![label + x@],
        None => Seq::empty(),
    }
}

/// The summary of the changes, in the order they are applied.
pub open spec fn update_changes(
    title: Option<String>,
    description: Option<String>,
    phase: Option<String>,
    status: Option<String>,
    second: Seq<char>,
    second_value: Option<String>,
    assignee: Option<String>,
) -> Seq<Seq<char>> {
    change_line("title: "@, title) + (if description is Some {
        seq!["description"@]
    } else {
        Seq::empty()
    }) + change_line("phase: "@, phase) + change_line("status: "@, status) + change_line(
        second,
        second_value,
    ) + change_line("assignee: "@, assignee)
}

/// `new` is `old` with the changes of `u` applied.
pub open spec fn updated_bug(old: Bug, new: Bug, u: BugUpdate) -> bool {
    new == Bug {
        title: or_old(u.title, old.title),
        description: or_old_opt(u.description, old.description),
        phase: or_old_opt(u.phase, old.phase),
        status: or_old(u.status, old.status),
        severity: or_old(u.severity, old.severity),
        assignee: or_old_opt(u.assignee, old.assignee),
        ..old
    }
}

/// `new` is `old` with the changes of `u` applied.
pub open spec fn updated_feature(old: FeatureRequest, new: FeatureRequest, u: FeatureUpdate) -> bool {
    new == FeatureRequest {
        title: or_old(u.title, old.title),
        description: or_old_opt(u.description, old.description),
        phase: or_old_opt(u.phase, old.phase),
        status: or_old(u.status, old.status),
        priority: or_old(u.priority, old.priority),
        assignee: or_old_opt(u.assignee, old.assignee),
        ..old
    }
}

fn push_change(out: &mut Vec<String>, label: &str, v: &Option<String>)
    ensures
        final(out)@.map_values(|s: String| s@) == old(out)@.map_values(|s: String| s@) + change_line(label@, *v),
{
    let ghost before = out@.map_values(|s: String| s@);
    match v {
        Some(x) => {
            let mut line = String::new();
            push_str(&mut line, label);
            push_str(&mut line, x.as_str());
            out.push(line);
            assert(out@.map_values(|s: String| s@) == before.push(label@ + x@));
        },
        None => {
            assert(before + Seq::<Seq<char>>::empty() == before);
        },
    }
}

fn build_changes(
    title: &Option<String>,
    description: &Option<String>,
    phase: &Option<String>,
    status: &Option<String>,
    second: &str,
    second_value: &Option<String>,
    assignee: &Option<String>,
) -> (r: Vec<String>)
    ensures
        r@.map_values(|s: String| s@) == update_changes(*title, *description, *phase, *status, second@, *second_value, *assignee),
{
    let mut out: Vec<String> = Vec::new();
    assert(out@.map_values(|s: String| s@) == Seq::<Seq<char>>::empty());
    push_change(&mut out, "title: ", title);
    let ghost c1 = out@.map_values(|s: String| s@);
    if description.is_some() {
        out.push(String::from_str("description"));
        assert(out@.map_values(|s: String| s@) == c1 + seq!["description"@]);
    } else {
        assert(c1 + Seq::<Seq<char>>::empty() == c1);
    }
    push_change(&mut out, "phase: ", phase);
    push_change(&mut out, "status: ", status);
    push_change(&mut out, second, second_value);
    push_change(&mut out, "assignee: ", assignee);
    out
}

fn optional_valid_bug_status(s: &Option<String>) -> (r: bool)
    ensures
        r == opt_ok(*s, 0),
{
    match s {
        Some(v) => is_valid_bug_status(v.as_str()),
        None => true,
    }
}

fn optional_valid_severity(s: &Option<String>) -> (r: bool)
    ensures
        r == opt_ok(*s, 1),
{
    match s {
        Some(v) => is_valid_severity(v.as_str()),
        None => true,
    }
}

fn optional_valid_feature_status(s: &Option<String>) -> (r: bool)
    ensures
        r == opt_ok(*s, 2),
{
    match s {
        Some(v) => is_valid_feature_status(v.as_str()),
        None => true,
    }
}

fn optional_valid_feature_priority(s: &Option<String>) -> (r: bool)
    ensures
        r == opt_ok(*s, 3),
{
    match s {
        Some(v) => is_valid_feature_priority(v.as_str()),
        None => true,
    }
}

fn or_keep(new: Option<String>, old: String) -> (r: String)
    ensures
        r == or_old(new, old),
{
    match new {
        Some(v) => v,
        None => old,
    }
}

fn or_keep_opt(new: Option<String>, old: Option<String>) -> (r: Option<String>)
    ensures
        r == or_old_opt(new, old),
{
    match new {
        Some(v) => Some(v),
        None => old,
    }
}

impl BugStore {
    /// Applies the changes to the first bug with this id and returns their
    /// summary (empty when nothing was asked). A status or severity that is not
    /// a known one refuses the whole update, the status being checked first.
    pub fn update(&mut self, id: u32, u: BugUpdate) -> (r: Result<Vec<String>, TrackerError>)
        ensures
            (forall|j: int| 0 <= j < old(self).bugs@.len() ==> old(self).bugs@[j].id != id) ==> r matches Err(TrackerError::NotFound),
            (exists|j: int| 0 <= j < old(self).bugs@.len() && old(self).bugs@[j].id == id) && !opt_ok(u.status, 0) ==> r matches Err(TrackerError::InvalidStatus),
            (exists|j: int| 0 <= j < old(self).bugs@.len() && old(self).bugs@[j].id == id) && opt_ok(u.status, 0) && !opt_ok(u.severity, 1) ==> r matches Err(TrackerError::InvalidSeverity),
            (exists|j: int| 0 <= j < old(self).bugs@.len() && old(self).bugs@[j].id == id) && opt_ok(u.status, 0) && opt_ok(u.severity, 1) ==> r is Ok,
            r is Err ==> final(self).bugs@ == old(self).bugs@,
            r matches Ok(changes) ==> {
                &&& changes@.map_values(|s: String| s@) == update_changes(u.title, u.description, u.phase, u.status, "severity: "@, u.severity, u.assignee)
                &&& exists|i: int| {
                    &&& 0 <= i < old(self).bugs@.len()
                    &&& old(self).bugs@[i].id == id
                    &&& forall|j: int| 0 <= j < i ==> old(self).bugs@[j].id != id
                    &&& final(self).bugs@ == old(self).bugs@.update(i, final(self).bugs@[i])
                    &&& updated_bug(old(self).bugs@[i], final(self).bugs@[i], u)
                }
            },
    {
        let i = match find_bug(&self.bugs, id) {
            None => {
                return Err(TrackerError::NotFound);
            },
            Some(i) => i,
        };
        if !optional_valid_bug_status(&u.status) {
            return Err(TrackerError::InvalidStatus);
        }
        if !optional_valid_severity(&u.severity) {
            return Err(TrackerError::InvalidSeverity);
        }
        let changes = build_changes(&u.title, &u.description, &u.phase, &u.status, "severity: ", &u.severity, &u.assignee);
        let ghost old_bugs = self.bugs@;
        let ghost uu = u;
        let b = self.bugs.remove(i);
        let nb = Bug {
            title: or_keep(u.title, b.title),
            description: or_keep_opt(u.description, b.description),
            phase: or_keep_opt(u.phase, b.phase),
            status: or_keep(u.status, b.status),
            severity: or_keep(u.severity, b.severity),
            assignee: or_keep_opt(u.assignee, b.assignee),
            ..b
        };
        assert(updated_bug(old_bugs[i as int], nb, uu));
        self.bugs.insert(i, nb);
        assert(self.bugs@ == old_bugs.update(i as int, nb));
        Ok(changes)
    }
}

impl FeatureStore {
    /// Applies the changes to the first feature request with this id and
    /// returns their summary (empty when nothing was asked). A status or
    /// priority that is not a known one refuses the whole update, the status
    /// being checked first.
    pub fn update(&mut self, id: u32, u: FeatureUpdate) -> (r: Result<Vec<String>, TrackerError>)
        ensures
            (forall|j: int| 0 <= j < old(self).features@.len() ==> old(self).features@[j].id != id) ==> r matches Err(TrackerError::NotFound),
            (exists|j: int| 0 <= j < old(self).features@.len() && old(self).features@[j].id == id) && !opt_ok(u.status, 2) ==> r matches Err(TrackerError::InvalidStatus),
            (exists|j: int| 0 <= j < old(self).features@.len() && old(self).features@[j].id == id) && opt_ok(u.status, 2) && !opt_ok(u.priority, 3) ==> r matches Err(TrackerError::InvalidPriority),
            (exists|j: int| 0 <= j < old(self).features@.len() && old(self).features@[j].id == id) && opt_ok(u.status, 2) && opt_ok(u.priority, 3) ==> r is Ok,
            r is Err ==> final(self).features@ == old(self).features@,
            r matches Ok(changes) ==> {
                &&& changes@.map_values(|s: String| s@) == update_changes(u.title, u.description, u.phase, u.status, "priority: "@, u.priority, u.assignee)
                &&& exists|i: int| {
                    &&& 0 <= i < old(self).features@.len()
                    &&& old(self).features@[i].id == id
                    &&& forall|j: int| 0 <= j < i ==> old(self).features@[j].id != id
                    &&& final(self).features@ == old(self).features@.update(i, final(self).features@[i])
                    &&& updated_feature(old(self).features@[i], final(self).features@[i], u)
                }
            },
    {
        let i = match find_feature(&self.features, id) {
            None => {
                return Err(TrackerError::NotFound);
            },
            Some(i) => i,
        };
        if !optional_valid_feature_status(&u.status) {
            return Err(TrackerError::InvalidStatus);
        }
        if !optional_valid_feature_priority(&u.priority) {
            return Err(TrackerError::InvalidPriority);
        }
        let changes = build_changes(&u.title, &u.description, &u.phase, &u.status, "priority: ", &u.priority, &u.assignee);
        let ghost old_features = self.features@;
        let ghost uu = u;
        let f = self.features.remove(i);
        let nf = FeatureRequest {
            title: or_keep(u.title, f.title),
            description: or_keep_opt(u.description, f.description),
            phase: or_keep_opt(u.phase, f.phase),
            status: or_keep(u.status, f.status),
            priority: or_keep(u.priority, f.priority),
            assignee: or_keep_opt(u.assignee, f.assignee),
            ..f
        };
        assert(updated_feature(old_features[i as int], nf, uu));
        self.features.insert(i, nf);
        assert(self.features@ == old_features.update(i as int, nf));
        Ok(changes)
    }
}

} // verus!
