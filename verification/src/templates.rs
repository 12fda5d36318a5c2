//! Phase templates (`roadmap template`): predefined phases with their tasks.

use vstd::prelude::*;
use crate::model::{Phase, Task};
use crate::text::{str_eq, push_str, push_decimal, decimal};

verus! {

/// A predefined phase: its id, name, description and task names.
pub struct TemplateDef {
    pub id: &'static str,
    pub name: &'static str,
    pub description: &'static str,
    pub tasks: Vec<&'static str>,
}

/// The number of predefined templates.
pub open spec fn template_count() -> int {
    6
}

/// The id of the `k`-th template.
pub open spec fn template_id(k: int) -> Seq<char> {
    if k == 0 {
        "feature"@
    } else if k == 1 {
        "bug"@
    } else if k == 2 {
        "api"@
    } else if k == 3 {
        "infra"@
    } else if k == 4 {
        "release"@
    } else {
        "onboarding"@
    }
}

/// The name of the `k`-th template.
pub open spec fn template_name(k: int) -> Seq<char> {
    if k == 0 {
        "Nouvelle fonctionnalité"@
    } else if k == 1 {
        "Correction de bug"@
    } else if k == 2 {
        "Endpoint API"@
    } else if k == 3 {
        "Infrastructure"@
    } else if k == 4 {
        "Release"@
    } else {
        "Onboarding développeur"@
    }
}

/// The description of the `k`-th template.
pub open spec fn template_description(k: int) -> Seq<char> {
    if k == 0 {
        "Développement d'une nouvelle fonctionnalité"@
    } else if k == 1 {
        "Investigation et correction d'un bug"@
    } else if k == 2 {
        "Création d'un nouvel endpoint API"@
    } else if k == 3 {
        "Mise en place ou modification d'infrastructure"@
    } else if k == 4 {
        "Préparation et publication d'une release"@
    } else {
        "Parcours d'intégration d'un nouveau développeur"@
    }
}

/// The task names of the `k`-th template.
pub open spec fn template_tasks(k: int) -> Seq<Seq<char>> {
    if k == 0 {
        seq!["Analyse et spécifications"@, "Conception technique"@, "Implémentation"@, "Tests unitaires"@, "Tests d'intégration"@, "Documentation"@, "Code review"@, "Déploiement"@]
    } else if k == 1 {
        seq!["Reproduction du bug"@, "Investigation root cause"@, "Fix"@, "Tests de non-régression"@, "Code review"@, "Déploiement"@]
    } else if k == 2 {
        seq!["Spécification OpenAPI"@, "Implémentation route"@, "Validation & erreurs"@, "Tests unitaires"@, "Tests d'intégration"@, "Documentation API"@, "Rate limiting"@]
    } else if k == 3 {
        seq!["Audit de l'existant"@, "Architecture cible"@, "Setup environnement"@, "Configuration"@, "Monitoring & alertes"@, "Documentation runbook"@, "Tests de charge"@]
    } else if k == 4 {
        seq!["Feature freeze"@, "Tests de régression"@, "Changelog"@, "Bump version"@, "Build & artefacts"@, "Déploiement staging"@, "Validation QA"@, "Déploiement production"@, "Communication"@]
    } else {
        seq!["Setup poste de travail"@, "Accès repos & outils"@, "Lecture documentation"@, "Premier build local"@, "Premier ticket simple"@, "Présentation architecture"@, "Premier code review"@]
    }
}

/// The template holds the `k`-th predefined template.
pub open spec fn is_template(t: TemplateDef, k: int) -> bool {
    &&& t.id@ == template_id(k)
    &&& t.name@ == template_name(k)
    &&& t.description@ == template_description(k)
    &&& t.tasks@.map_values(|s: &'static str| s@) == template_tasks(k)
}

/// All predefined templates, in order.
pub fn get_all_templates() -> (r: Vec<TemplateDef>)
    ensures
        r@.len() == template_count(),
        forall|k: int| 0 <= k < template_count() ==> is_template(#[trigger] r@[k], k),
{
    let mut r: Vec<TemplateDef> = Vec::new();
    let mut tasks: Vec<&'static str> = Vec::new();
    tasks.push("Analyse et spécifications");
    tasks.push("Conception technique");
    tasks.push("Implémentation");
    tasks.push("Tests unitaires");
    tasks.push("Tests d'intégration");
    tasks.push("Documentation");
    tasks.push("Code review");
    tasks.push("Déploiement");
    proof {
        reveal_strlit("Analyse et spécifications");
        reveal_strlit("Conception technique");
        reveal_strlit("Implémentation");
        reveal_strlit("Tests unitaires");
        reveal_strlit("Tests d'intégration");
        reveal_strlit("Documentation");
        reveal_strlit("Code review");
        reveal_strlit("Déploiement");
        reveal_strlit("feature");
        reveal_strlit("Nouvelle fonctionnalité");
        reveal_strlit("Développement d'une nouvelle fonctionnalité");
    }
    assert(tasks@.map_values(|s: &'static str| s@) == template_tasks(0));
    r.push(TemplateDef { id: "feature", name: "Nouvelle fonctionnalité", description: "Développement d'une nouvelle fonctionnalité", tasks });
    assert(is_template(r@[0], 0));
    let mut tasks: Vec<&'static str> = Vec::new();
    tasks.push("Reproduction du bug");
    tasks.push("Investigation root cause");
    tasks.push("Fix");
    tasks.push("Tests de non-régression");
    tasks.push("Code review");
    tasks.push("Déploiement");
    proof {
        reveal_strlit("Reproduction du bug");
        reveal_strlit("Investigation root cause");
        reveal_strlit("Fix");
        reveal_strlit("Tests de non-régression");
        reveal_strlit("Code review");
        reveal_strlit("Déploiement");
        reveal_strlit("bug");
        reveal_strlit("Correction de bug");
        reveal_strlit("Investigation et correction d'un bug");
    }
    assert(tasks@.map_values(|s: &'static str| s@) == template_tasks(1));
    r.push(TemplateDef { id: "bug", name: "Correction de bug", description: "Investigation et correction d'un bug", tasks });
    assert(is_template(r@[1], 1));
    let mut tasks: Vec<&'static str> = Vec::new();
    tasks.push("Spécification OpenAPI");
    tasks.push("Implémentation route");
    tasks.push("Validation & erreurs");
    tasks.push("Tests unitaires");
    tasks.push("Tests d'intégration");
    tasks.push("Documentation API");
    tasks.push("Rate limiting");
    proof {
        reveal_strlit("Spécification OpenAPI");
        reveal_strlit("Implémentation route");
        reveal_strlit("Validation & erreurs");
        reveal_strlit("Tests unitaires");
        reveal_strlit("Tests d'intégration");
        reveal_strlit("Documentation API");
        reveal_strlit("Rate limiting");
        reveal_strlit("api");
        reveal_strlit("Endpoint API");
        reveal_strlit("Création d'un nouvel endpoint API");
    }
    assert(tasks@.map_values(|s: &'static str| s@) == template_tasks(2));
    r.push(TemplateDef { id: "api", name: "Endpoint API", description: "Création d'un nouvel endpoint API", tasks });
    assert(is_template(r@[2], 2));
    let mut tasks: Vec<&'static str> = Vec::new();
    tasks.push("Audit de l'existant");
    tasks.push("Architecture cible");
    tasks.push("Setup environnement");
    tasks.push("Configuration");
    tasks.push("Monitoring & alertes");
    tasks.push("Documentation runbook");
    tasks.push("Tests de charge");
    proof {
        reveal_strlit("Audit de l'existant");
        reveal_strlit("Architecture cible");
        reveal_strlit("Setup environnement");
        reveal_strlit("Configuration");
        reveal_strlit("Monitoring & alertes");
        reveal_strlit("Documentation runbook");
        reveal_strlit("Tests de charge");
        reveal_strlit("infra");
        reveal_strlit("Infrastructure");
        reveal_strlit("Mise en place ou modification d'infrastructure");
    }
    assert(tasks@.map_values(|s: &'static str| s@) == template_tasks(3));
    r.push(TemplateDef { id: "infra", name: "Infrastructure", description: "Mise en place ou modification d'infrastructure", tasks });
    assert(is_template(r@[3], 3));
    let mut tasks: Vec<&'static str> = Vec::new();
    tasks.push("Feature freeze");
    tasks.push("Tests de régression");
    tasks.push("Changelog");
    tasks.push("Bump version");
    tasks.push("Build & artefacts");
    tasks.push("Déploiement staging");
    tasks.push("Validation QA");
    tasks.push("Déploiement production");
    tasks.push("Communication");
    proof {
        reveal_strlit("Feature freeze");
        reveal_strlit("Tests de régression");
        reveal_strlit("Changelog");
        reveal_strlit("Bump version");
        reveal_strlit("Build & artefacts");
        reveal_strlit("Déploiement staging");
        reveal_strlit("Validation QA");
        reveal_strlit("Déploiement production");
        reveal_strlit("Communication");
        reveal_strlit("release");
        reveal_strlit("Release");
        reveal_strlit("Préparation et publication d'une release");
    }
    assert(tasks@.map_values(|s: &'static str| s@) == template_tasks(4));
    r.push(TemplateDef { id: "release", name: "Release", description: "Préparation et publication d'une release", tasks });
    assert(is_template(r@[4], 4));
    let mut tasks: Vec<&'static str> = Vec::new();
    tasks.push("Setup poste de travail");
    tasks.push("Accès repos & outils");
    tasks.push("Lecture documentation");
    tasks.push("Premier build local");
    tasks.push("Premier ticket simple");
    tasks.push("Présentation architecture");
    tasks.push("Premier code review");
    proof {
        reveal_strlit("Setup poste de travail");
        reveal_strlit("Accès repos & outils");
        reveal_strlit("Lecture documentation");
        reveal_strlit("Premier build local");
        reveal_strlit("Premier ticket simple");
        reveal_strlit("Présentation architecture");
        reveal_strlit("Premier code review");
        reveal_strlit("onboarding");
        reveal_strlit("Onboarding développeur");
        reveal_strlit("Parcours d'intégration d'un nouveau développeur");
    }
    assert(tasks@.map_values(|s: &'static str| s@) == template_tasks(5));
    r.push(TemplateDef { id: "onboarding", name: "Onboarding développeur", description: "Parcours d'intégration d'un nouveau développeur", tasks });
    assert(is_template(r@[5], 5));
    r
}

/// The template with this id, if there is one.
pub fn get_template(name: &str) -> (r: Option<TemplateDef>)
    ensures
        r matches Some(t) ==> exists|k: int| 0 <= k < template_count() && template_id(k) == name@ && is_template(t, k),
        r is None ==> forall|k: int| 0 <= k < template_count() ==> template_id(k) != name@,
{
    let all = get_all_templates();
    let ghost whole = all@;
    let mut found: Option<TemplateDef> = None;
    for t in iter: all.into_iter()
        invariant
            iter.seq() == whole,
            whole.len() == template_count(),
            forall|k: int| 0 <= k < template_count() ==> is_template(#[trigger] whole[k], k),
            found matches Some(f) ==> exists|k: int| 0 <= k < template_count() && template_id(k) == name@ && is_template(f, k),
            found is None ==> forall|k: int| 0 <= k < iter.index() ==> template_id(k) != name@,
    {
        if found.is_none() && str_eq(t.id, name) {
            assert(is_template(whole[iter.index()], iter.index()));
            found = Some(t);
        }
    }
    found
}

impl Task {
    /// A new pending task with this id and name, and nothing else set.
    pub fn fresh(id: String, name: String) -> (r: Task)
        ensures
            r.id == id,
            r.name == name,
            r.description is None,
            r.status@ == "pending"@,
            r.parent is None,
            r.workflow_stage is None,
            !r.optional,
            r.completed_at is None,
            r.blocks@.len() == 0,
            r.blocked_by@.len() == 0,
            r.files@.len() == 0,
            r.tags@.len() == 0,
            r.assignee is None,
            r.due is None,
    {
        Task {
            id,
            name,
            description: None,
            status: String::from_str("pending"),
            parent: None,
            workflow_stage: None,
            optional: false,
            completed_at: None,
            blocks: Vec::new(),
            blocked_by: Vec::new(),
            files: Vec::new(),
            tags: Vec::new(),
            assignee: None,
            due: None,
        }
    }
}

/// The id of the `n`-th task (from 1) of a phase: `<phase>.<n>`.
pub open spec fn task_id_of(phase_id: Seq<char>, n: nat) -> Seq<char> {
    phase_id + "."@ + decimal(n)
}

/// The id of the `n`-th task (from 1) of a phase.
pub fn make_task_id(phase_id: &str, n: u64) -> (r: String)
    ensures
        r@ == task_id_of(phase_id@, n as nat),
{
    let mut s = String::new();
    push_str(&mut s, phase_id);
    push_str(&mut s, ".");
    push_decimal(&mut s, n);
    s
}

/// The phase a template gives: named and described after it, created on
/// `date`, with one pending task per task name, numbered from 1.
pub fn phase_from_template(t: &TemplateDef, phase_id: String, date: String) -> (r: Phase)
    requires
        t.tasks@.len() < u64::MAX,
    ensures
        r.id == phase_id,
        r.name@ == t.name@,
        r.description@ == t.description@,
        r.priority == 10,
        r.status@ == "pending"@,
        r.parent is None,
        r.created_at == date,
        r.updated_at == date,
        r.workflow is None,
        r.depends_on@.len() == 0,
        r.notes@.len() == 0,
        r.tasks@.len() == t.tasks@.len(),
        forall|i: int| 0 <= i < t.tasks@.len() ==> {
            let task = #[trigger] r.tasks@[i];
            &&& task.id@ == task_id_of(phase_id@, (i + 1) as nat)
            &&& task.name@ == t.tasks@[i]@
            &&& task.description is None
            &&& task.status@ == "pending"@
            &&& task.parent is None
            &&& task.workflow_stage is None
            &&& !task.optional
            &&& task.completed_at is None
            &&& task.blocks@.len() == 0
            &&& task.blocked_by@.len() == 0
            &&& task.files@.len() == 0
            &&& task.tags@.len() == 0
            &&& task.assignee is None
            &&& task.due is None
        },
{
    let pid = phase_id.clone();
    let mut p = Phase::new_on(phase_id, crate::text::owned(t.name), date);
    p.description = crate::text::owned(t.description);
    let mut i: usize = 0;
    while i < t.tasks.len()
        invariant
            i <= t.tasks@.len(),
            t.tasks@.len() < u64::MAX,
            pid == p.id,
            p.name@ == t.name@,
            p.description@ == t.description@,
            p.priority == 10,
            p.status@ == "pending"@,
            p.parent is None,
            p.created_at == date,
            p.updated_at == date,
            p.workflow is None,
            p.depends_on@.len() == 0,
            p.notes@.len() == 0,
            p.tasks@.len() == i,
            forall|k: int| 0 <= k < i ==> {
                let task = #[trigger] p.tasks@[k];
                &&& task.id@ == task_id_of(pid@, (k + 1) as nat)
                &&& task.name@ == t.tasks@[k]@
                &&& task.description is None
                &&& task.status@ == "pending"@
                &&& task.parent is None
                &&& task.workflow_stage is None
                &&& !task.optional
                &&& task.completed_at is None
                &&& task.blocks@.len() == 0
                &&& task.blocked_by@.len() == 0
                &&& task.files@.len() == 0
                &&& task.tags@.len() == 0
                &&& task.assignee is None
                &&& task.due is None
            },
        decreases t.tasks@.len() - i,
    {
        let id = make_task_id(pid.as_str(), (i + 1) as u64);
        let name = crate::text::owned(t.tasks[i]);
        p.tasks.push(Task::fresh(id, name));
        i = i + 1;
    }
    p
}

/// A task as a template makes it: pending, required, at the top level,
/// with nothing else set but its id and name.
pub open spec fn fresh_task(task: Task) -> bool {
    &&& task.description is None
    &&& task.status@ == "pending"@
    &&& task.parent is None
    &&& task.workflow_stage is None
    &&& !task.optional
    &&& task.completed_at is None
    &&& task.blocks@.len() == 0
    &&& task.blocked_by@.len() == 0
    &&& task.files@.len() == 0
    &&& task.tags@.len() == 0
    &&& task.assignee is None
    &&& task.due is None
}

/// Why a template cannot be applied.
pub enum TemplateError {
    /// No template has this id.
    Unknown,
    /// A phase with this id exists already.
    AlreadyExists,
}

/// `roadmap template <name> <phase-id>`: the phase made from the template, or
/// why not; the template is looked up first, then the phase id checked free.
pub fn cmd_template(name: &str, phase_id: String, phase_exists: bool, date: String) -> (r: Result<Phase, TemplateError>)
    ensures
        (forall|k: int| 0 <= k < template_count() ==> template_id(k) != name@) ==> r matches Err(TemplateError::Unknown),
        (exists|k: int| 0 <= k < template_count() && template_id(k) == name@) && phase_exists ==> r matches Err(TemplateError::AlreadyExists),
        (exists|k: int| 0 <= k < template_count() && template_id(k) == name@) && !phase_exists ==> r is Ok,
        r matches Ok(p) ==> exists|k: int| {
            &&& 0 <= k < template_count()
            &&& template_id(k) == name@
            &&& p.id == phase_id
            &&& p.name@ == template_name(k)
            &&& p.description@ == template_description(k)
            &&& p.priority == 10
            &&& p.status@ == "pending"@
            &&& p.parent is None
            &&& p.created_at == date
            &&& p.updated_at == date
            &&& p.workflow is None
            &&& p.depends_on@.len() == 0
            &&& p.notes@.len() == 0
            &&& p.tasks@.map_values(|t: Task| t.name@) == template_tasks(k)
            &&& forall|i: int| 0 <= i < p.tasks@.len() ==> (#[trigger] p.tasks@[i]).id@ == task_id_of(phase_id@, (i + 1) as nat)
                && fresh_task(p.tasks@[i])
        },
{
    let t = match get_template(name) {
        Some(t) => t,
        None => {
            return Err(TemplateError::Unknown);
        },
    };
    if phase_exists {
        return Err(TemplateError::AlreadyExists);
    }
    proof {
        let k = choose|k: int| 0 <= k < template_count() && template_id(k) == name@ && is_template(t, k);
        assert(t.tasks@.len() == template_tasks(k).len());
        assert(template_tasks(k).len() < 10);
    }
    let pid = phase_id.clone();
    let p = phase_from_template(&t, phase_id, date);
    proof {
        let k = choose|k: int| 0 <= k < template_count() && template_id(k) == name@ && is_template(t, k);
        assert(p.tasks@.map_values(|tk: Task| tk.name@) =~= t.tasks@.map_values(|s: &'static str| s@));
    }
    Ok(p)
}

} // verus!
