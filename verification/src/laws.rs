//! Properties that hold across the operations of the library.

use vstd::prelude::*;
use crate::hooks::{hook_marker, installed_content, lemma_uninstall_after_install, no_cr, uninstall_spec, UninstallOutcome};
use crate::text::{contains_seq, trim_seq};
use crate::model::{Bug, FeatureRequest, max_bug_id, max_feature_id, lemma_max_bug_id_bounds, lemma_max_feature_id_bounds, Phase};
use crate::next::{next_tasks_spec, picks, picks_in, picked, pending_picks, first_ready, blocked, ready};
use crate::auth::{DeviceRequest, DeviceStatus, PollResult, first_device, first_user, poll_answer, expired_at, opened_in};
use crate::report::{Report, report_spec, tasks_in, tasks_of_phase_in, task_in_category};
use crate::search::{SearchHit, search_hits, task_hits, note_hits, task_hit};
use crate::text::spec_lowercase;
use crate::log::{LogEvent, all_events, phases_events, phase_event, phase_date, latest_completion, required_done, bugs_events};
use crate::text::{lex_le, lemma_lex_refl, lemma_lex_total, lemma_lex_trans};
use crate::coverage::{EndpointView, endpoint_key, has_key, uncovered, keep_last, last_of_key, gaps};
use crate::doctor::{Diagnostic, DoctorFile, DoctorReport, Loaded, doctor_spec, task_known, phase_of, ref_errors, tasks_ref_errors, dep_errors, cross_errors, files_errors, file_errors, phase_errors, tasks_errors, task_errors, bugs_errors, bug_errors};
use crate::model::Task;

verus! {

/// No two bugs have the same id.
pub open spec fn bug_ids_distinct(bugs: Seq<Bug>) -> bool {
    forall|i: int, j: int| 0 <= i < j < bugs.len() ==> (#[trigger] bugs[i]).id != (#[trigger] bugs[j]).id
}

/// No two feature requests have the same id.
pub open spec fn feature_ids_distinct(features: Seq<FeatureRequest>) -> bool {
    forall|i: int, j: int|
        0 <= i < j < features.len() ==> (#[trigger] features[i]).id != (#[trigger] features[j]).id
}

/// A bug added under the next id (one more than the largest) keeps the ids
/// of the store distinct.
pub proof fn lemma_bug_ids_stay_distinct(bugs: Seq<Bug>, b: Bug)
    requires
        bug_ids_distinct(bugs),
        b.id == max_bug_id(bugs) + 1,
    ensures
        bug_ids_distinct(bugs.push(b)),
{
    lemma_max_bug_id_bounds(bugs);
    let s = bugs.push(b);
    assert forall|i: int, j: int| 0 <= i < j < s.len() implies (#[trigger] s[i]).id != (#[trigger] s[j]).id by {
        if j == bugs.len() {
            assert(s[i] == bugs[i]);
        } else {
            assert(s[i] == bugs[i] && s[j] == bugs[j]);
        }
    }
}

/// A feature request added under the next id keeps the ids of the store
/// distinct.
pub proof fn lemma_feature_ids_stay_distinct(features: Seq<FeatureRequest>, f: FeatureRequest)
    requires
        feature_ids_distinct(features),
        f.id == max_feature_id(features) + 1,
    ensures
        feature_ids_distinct(features.push(f)),
{
    lemma_max_feature_id_bounds(features);
    let s = features.push(f);
    assert forall|i: int, j: int| 0 <= i < j < s.len() implies (#[trigger] s[i]).id != (#[trigger] s[j]).id by {
        if j == features.len() {
            assert(s[i] == features[i]);
        } else {
            assert(s[i] == features[i] && s[j] == features[j]);
        }
    }
}

/// The task at a (phase, task) position, where it exists, is in progress,
/// or pending and not optional; and every task it is blocked by is a task of
/// the roadmap that is done.
pub open spec fn workable_at(phases: Seq<Phase>, at: (usize, usize)) -> bool {
    let i = at.0 as int;
    let j = at.1 as int;
    let t = phases[i].tasks@[j];
    &&& 0 <= i < phases.len()
    &&& 0 <= j < phases[i].tasks@.len()
    &&& forall|k: int| 0 <= k < t.blocked_by@.len() ==> has_done_task(phases, (#[trigger] t.blocked_by@[k])@)
    &&& (t.status@ == "in_progress"@ || (t.status@ == "pending"@ && !t.optional))
}

/// Some task of the roadmap with this id is done.
pub open spec fn has_done_task(phases: Seq<Phase>, id: Seq<char>) -> bool {
    exists|a: int, b: int|
        #![trigger phases[a].tasks@[b]]
        0 <= a < phases.len() && 0 <= b < phases[a].tasks@.len() && phases[a].tasks@[b].status@ == "done"@
            && phases[a].tasks@[b].id@ == id
}

/// A task that nothing blocks has every task it is blocked by done.
proof fn lemma_unblocked(phases: Seq<Phase>, t: crate::model::Task)
    requires
        !blocked(phases, t),
    ensures
        forall|k: int| 0 <= k < t.blocked_by@.len() ==> has_done_task(phases, (#[trigger] t.blocked_by@[k])@),
{
    assert forall|k: int| 0 <= k < t.blocked_by@.len() implies has_done_task(phases, (#[trigger] t.blocked_by@[k])@) by {
        assert(crate::next::done_task(phases, t.blocked_by@[k]@));
    }
}

proof fn lemma_picks_in_workable(phases: Seq<Phase>, tier: int, i: int, n: int)
    requires
        0 <= i < phases.len(),
        n <= phases[i].tasks@.len(),
        i <= usize::MAX,
        phases[i].tasks@.len() <= usize::MAX,
    ensures
        forall|k: int| 0 <= k < picks_in(phases, tier, i, n).len() ==> workable_at(phases, #[trigger] picks_in(phases, tier, i, n)[k]),
    decreases n,
{
    if n > 0 {
        lemma_picks_in_workable(phases, tier, i, n - 1);
        let a = picks_in(phases, tier, i, n - 1);
        if picked(phases, tier, i, n - 1) {
            let e = (i as usize, (n - 1) as usize);
            lemma_unblocked(phases, phases[i].tasks@[n - 1]);
            let s = a.push(e);
            assert(picks_in(phases, tier, i, n) == s);
            assert(e.0 as int == i && e.1 as int == n - 1);
            assert forall|k: int| 0 <= k < s.len() implies workable_at(phases, #[trigger] s[k]) by {
                if k < a.len() {
                    assert(s[k] == a[k]);
                } else {
                    assert(s[k] == e);
                }
            }
        }
    }
}

proof fn lemma_picks_workable(phases: Seq<Phase>, tier: int, n: int)
    requires
        n <= phases.len(),
        phases.len() <= usize::MAX,
        forall|i: int| 0 <= i < phases.len() ==> (#[trigger] phases[i]).tasks@.len() <= usize::MAX,
    ensures
        forall|k: int| 0 <= k < picks(phases, tier, n).len() ==> workable_at(phases, #[trigger] picks(phases, tier, n)[k]),
    decreases n,
{
    if n > 0 {
        lemma_picks_workable(phases, tier, n - 1);
        lemma_picks_in_workable(phases, tier, n - 1, phases[n - 1].tasks@.len() as int);
        let a = picks(phases, tier, n - 1);
        let b = picks_in(phases, tier, n - 1, phases[n - 1].tasks@.len() as int);
        assert forall|k: int| 0 <= k < (a + b).len() implies workable_at(phases, #[trigger] (a + b)[k]) by {
            if k < a.len() {
                assert((a + b)[k] == a[k]);
            } else {
                assert((a + b)[k] == b[k - a.len()]);
            }
        }
    }
}

proof fn lemma_first_ready_is_ready(phases: Seq<Phase>, p: Phase, n: int)
    requires
        n <= p.tasks@.len(),
    ensures
        first_ready(phases, p, n) matches Some(j) ==> 0 <= j < n && ready(phases, p.tasks@[j]),
    decreases n,
{
    if n > 0 {
        lemma_first_ready_is_ready(phases, p, n - 1);
    }
}

proof fn lemma_pending_picks_workable(phases: Seq<Phase>, n: int)
    requires
        n <= phases.len(),
        phases.len() <= usize::MAX,
        forall|i: int| 0 <= i < phases.len() ==> (#[trigger] phases[i]).tasks@.len() <= usize::MAX,
    ensures
        forall|k: int| 0 <= k < pending_picks(phases, n).len() ==> workable_at(phases, #[trigger] pending_picks(phases, n)[k]),
    decreases n,
{
    if n > 0 {
        lemma_pending_picks_workable(phases, n - 1);
        let p = phases[n - 1];
        lemma_first_ready_is_ready(phases, p, p.tasks@.len() as int);
        let rest = pending_picks(phases, n - 1);
        if p.status@ == "pending"@ {
            match first_ready(phases, p, p.tasks@.len() as int) {
                Some(j) => {
                    lemma_unblocked(phases, p.tasks@[j]);
                    let s = rest.push(((n - 1) as usize, j as usize));
                    assert forall|k: int| 0 <= k < s.len() implies workable_at(phases, #[trigger] s[k]) by {
                        if k < rest.len() {
                            assert(s[k] == rest[k]);
                        }
                    }
                },
                None => {},
            }
        }
    }
}

/// `roadmap next` proposes only tasks that exist, are in progress or are
/// pending and required (never an optional pending task), and that nothing
/// blocks: every task they are blocked by is done.
pub proof fn lemma_next_never_blocked(phases: Seq<Phase>)
    requires
        phases.len() <= usize::MAX,
        forall|i: int| 0 <= i < phases.len() ==> (#[trigger] phases[i]).tasks@.len() <= usize::MAX,
    ensures
        forall|k: int|
            0 <= k < next_tasks_spec(phases).len() ==> workable_at(phases, #[trigger] next_tasks_spec(phases)[k]),
{
    let n = phases.len() as int;
    lemma_picks_workable(phases, 1, n);
    lemma_picks_workable(phases, 2, n);
    lemma_pending_picks_workable(phases, n);
    let a = picks(phases, 1, n);
    let b = picks(phases, 2, n);
    let c = pending_picks(phases, n);
    assert forall|k: int| 0 <= k < (a + b + c).len() implies workable_at(phases, #[trigger] (a + b + c)[k]) by {
        if k < a.len() {
            assert((a + b + c)[k] == a[k]);
        } else if k < a.len() + b.len() {
            assert((a + b + c)[k] == b[k - a.len()]);
        } else {
            assert((a + b + c)[k] == c[k - a.len() - b.len()]);
        }
    }
}

/// What `approve` makes of a request.
pub open spec fn approved(e: DeviceRequest, access_token: String, refresh_token: String, user_email: String, user_name: String) -> DeviceRequest {
    DeviceRequest {
        status: DeviceStatus::Approved,
        access_token: Some(access_token),
        refresh_token: Some(refresh_token),
        user_email: Some(user_email),
        user_name: Some(user_name),
        ..e
    }
}

/// Once a request is approved, polling it before it expires gives the
/// tokens and the user that the approval gave.
pub proof fn lemma_poll_after_approve(
    s: Seq<DeviceRequest>,
    i: int,
    code: Seq<char>,
    access_token: String,
    refresh_token: String,
    user_email: String,
    user_name: String,
    now: i64,
    r: PollResult,
)
    requires
        first_device(s, code, i),
        !expired_at(s[i].created_at, now),
        poll_answer(r, approved(s[i], access_token, refresh_token, user_email, user_name), now),
    ensures
        first_device(s.update(i, approved(s[i], access_token, refresh_token, user_email, user_name)), code, i),
        r == (PollResult::Approved {
            access_token: Some(access_token),
            refresh_token: Some(refresh_token),
            user_email: Some(user_email),
            user_name: Some(user_name),
        }),
{
}

/// The log-in flow: a request is opened under a device code and a user
/// code that no other request has; the web application approves that user
/// code; the command line polling with its device code within five minutes
/// gets the tokens and the user of the approval.
pub proof fn lemma_login_flow(
    before: Seq<DeviceRequest>,
    opened: Seq<DeviceRequest>,
    approved_store: Seq<DeviceRequest>,
    device_code: Seq<char>,
    user_code: Seq<char>,
    opened_at: i64,
    access_token: String,
    refresh_token: String,
    user_email: String,
    user_name: String,
    now: i64,
    r: PollResult,
)
    requires
        forall|j: int| 0 <= j < before.len() && (#[trigger] before[j]).user_code@ == user_code ==> before[j].device_code@ == device_code,
        opened_in(before, opened, device_code, user_code, opened_at),
        forall|a: int, b: int|
            0 <= a < b < opened.len() ==> (#[trigger] opened[a]).device_code@ != (#[trigger] opened[b]).device_code@,
        exists|i: int|
            first_user(opened, user_code, i) && approved_store == opened.update(
                i,
                approved(opened[i], access_token, refresh_token, user_email, user_name),
            ),
        now - opened_at < 301_000_000_000,
        forall|k: int| first_device(approved_store, device_code, k) ==> poll_answer(r, #[trigger] approved_store[k], now),
    ensures
        r == (PollResult::Approved {
            access_token: Some(access_token),
            refresh_token: Some(refresh_token),
            user_email: Some(user_email),
            user_name: Some(user_name),
        }),
{
    let i = choose|i: int|
        first_user(opened, user_code, i) && approved_store == opened.update(
            i,
            approved(opened[i], access_token, refresh_token, user_email, user_name),
        );
    if opened[i].device_code@ != device_code {
        assert(before.contains(opened[i]));
        let j = choose|j: int| 0 <= j < before.len() && before[j] == opened[i];
        assert(before[j].user_code@ == user_code);
    }
    assert forall|j: int| 0 <= j < i implies opened[j].device_code@ != device_code by {
        assert(opened[j].device_code@ != opened[i].device_code@);
    }
    assert(first_device(opened, device_code, i));
    assert(first_device(approved_store, device_code, i));
    assert(poll_answer(r, approved_store[i], now));
}

/// A request just opened is pending when polled within five minutes.
pub proof fn lemma_poll_after_open(e: DeviceRequest, opened: i64, now: i64, r: PollResult)
    requires
        e.status is Pending,
        e.created_at == opened,
        now - opened < 301_000_000_000,
        poll_answer(r, e, now),
    ensures
        r is Pending,
{
}

/// Once a request is refused, polling it before it expires says so; after
/// five minutes, any request is expired.
pub proof fn lemma_poll_after_deny(s: Seq<DeviceRequest>, i: int, code: Seq<char>, now: i64, r: PollResult)
    requires
        first_device(s, code, i),
        poll_answer(r, DeviceRequest { status: DeviceStatus::Denied, ..s[i] }, now),
    ensures
        first_device(s.update(i, DeviceRequest { status: DeviceStatus::Denied, ..s[i] }), code, i),
        !expired_at(s[i].created_at, now) ==> r is Denied,
        expired_at(s[i].created_at, now) ==> r is Expired,
{
}

/// The gaps of a layer are targets whose key no source has.
proof fn lemma_uncovered_sound(t: Seq<EndpointView>, s: Seq<EndpointView>, n: int)
    requires
        0 <= n <= t.len(),
    ensures
        forall|k: int| 0 <= k < uncovered(t, s, n).len() ==> !has_key(s, endpoint_key(#[trigger] uncovered(t, s, n)[k])),
        forall|i: int| 0 <= i < n && !has_key(s, endpoint_key(t[i])) ==> has_key(uncovered(t, s, n), endpoint_key(#[trigger] t[i])),
    decreases n,
{
    if n > 0 {
        lemma_uncovered_sound(t, s, n - 1);
        let a = uncovered(t, s, n - 1);
        let u = uncovered(t, s, n);
        assert forall|k: int| 0 <= k < u.len() implies !has_key(s, endpoint_key(#[trigger] u[k])) by {
            if k < a.len() {
                assert(u[k] == a[k]);
            }
        }
        assert forall|i: int| 0 <= i < n && !has_key(s, endpoint_key(t[i])) implies has_key(u, endpoint_key(#[trigger] t[i])) by {
            if i < n - 1 {
                let k = choose|k: int| 0 <= k < a.len() && endpoint_key(#[trigger] a[k]) == endpoint_key(t[i]);
                assert(u[k] == a[k]);
            } else {
                assert(u[a.len() as int] == t[i]);
            }
        }
    }
}

/// `e` is one of the first `n` endpoints of `s`, the last of its key.
pub open spec fn kept_from(s: Seq<EndpointView>, n: int, e: EndpointView) -> bool {
    exists|i: int| 0 <= i < n && last_of_key(s, i) && e == s[i]
}

/// Keeping the last endpoint of each key keeps every key, each once.
proof fn lemma_keep_last_keys(s: Seq<EndpointView>, n: int)
    requires
        0 <= n <= s.len(),
    ensures
        forall|k: int| 0 <= k < keep_last(s, n).len() ==> has_key(s, endpoint_key(#[trigger] keep_last(s, n)[k])),
        forall|a: int, b: int|
            0 <= a < b < keep_last(s, n).len() ==> endpoint_key(#[trigger] keep_last(s, n)[a]) != endpoint_key(
                #[trigger] keep_last(s, n)[b],
            ),
        forall|i: int| 0 <= i < n && last_of_key(s, i) ==> has_key(keep_last(s, n), endpoint_key(#[trigger] s[i])),
        forall|k: int| 0 <= k < keep_last(s, n).len() ==> kept_from(s, n, #[trigger] keep_last(s, n)[k]),
    decreases n,
{
    if n > 0 {
        lemma_keep_last_keys(s, n - 1);
        let a = keep_last(s, n - 1);
        let u = keep_last(s, n);
        if last_of_key(s, n - 1) {
            assert(u == a.push(s[n - 1]));
            assert forall|k: int| 0 <= k < u.len() implies has_key(s, endpoint_key(#[trigger] u[k])) by {
                if k < a.len() {
                    assert(u[k] == a[k]);
                } else {
                    assert(u[k] == s[n - 1]);
                }
            }
            assert forall|x: int, y: int| 0 <= x < y < u.len() implies endpoint_key(#[trigger] u[x]) != endpoint_key(
                #[trigger] u[y],
            ) by {
                if y < a.len() {
                    assert(u[x] == a[x] && u[y] == a[y]);
                } else {
                    assert(u[x] == a[x]);
                    assert(kept_from(s, n - 1, a[x]));
                    let i = choose|i: int| 0 <= i < n - 1 && last_of_key(s, i) && a[x] == s[i];
                    assert(endpoint_key(s[n - 1]) != endpoint_key(s[i]));
                }
            }
            assert forall|i: int| 0 <= i < n && last_of_key(s, i) implies has_key(u, endpoint_key(#[trigger] s[i])) by {
                if i < n - 1 {
                    let k = choose|k: int| 0 <= k < a.len() && endpoint_key(#[trigger] a[k]) == endpoint_key(s[i]);
                    assert(u[k] == a[k]);
                } else {
                    assert(u[a.len() as int] == s[i]);
                }
            }
            assert forall|k: int| 0 <= k < u.len() implies kept_from(s, n, #[trigger] u[k]) by {
                if k < a.len() {
                    assert(u[k] == a[k]);
                    assert(kept_from(s, n - 1, a[k]));
                    let i = choose|i: int| 0 <= i < n - 1 && last_of_key(s, i) && a[k] == s[i];
                    assert(u[k] == s[i]);
                } else {
                    assert(u[k] == s[n - 1]);
                }
            }
        } else {
            assert(u =~= a);
            assert forall|k: int| 0 <= k < u.len() implies kept_from(s, n, #[trigger] u[k]) by {
                assert(u[k] == a[k]);
                assert(kept_from(s, n - 1, a[k]));
                let i = choose|i: int| 0 <= i < n - 1 && last_of_key(s, i) && a[k] == s[i];
                assert(u[k] == s[i]);
            }
        }
    }
}

/// The routes reported unused are exactly the routes whose `METHOD path`
/// no call has, each key once: every one reported lacks a call, every route
/// without a call is reported under its key, and no key is reported twice.
/// The same holds of the calls reported missing, with the roles swapped.
pub proof fn lemma_gaps_exact(targets: Seq<EndpointView>, sources: Seq<EndpointView>)
    ensures
        forall|k: int|
            0 <= k < gaps(targets, sources).len() ==> !has_key(sources, endpoint_key(#[trigger] gaps(targets, sources)[k])),
        forall|k: int|
            0 <= k < gaps(targets, sources).len() ==> has_key(targets, endpoint_key(#[trigger] gaps(targets, sources)[k])),
        forall|i: int|
            0 <= i < targets.len() && !has_key(sources, endpoint_key(targets[i])) ==> has_key(
                gaps(targets, sources),
                endpoint_key(#[trigger] targets[i]),
            ),
        forall|a: int, b: int|
            0 <= a < b < gaps(targets, sources).len() ==> endpoint_key(#[trigger] gaps(targets, sources)[a]) != endpoint_key(
                #[trigger] gaps(targets, sources)[b],
            ),
{
    let n = targets.len() as int;
    lemma_uncovered_sound(targets, sources, n);
    let u = uncovered(targets, sources, n);
    lemma_keep_last_keys(u, u.len() as int);
    let g = gaps(targets, sources);
    assert(g == keep_last(u, u.len() as int));
    assert forall|k: int| 0 <= k < g.len() implies !has_key(sources, endpoint_key(#[trigger] g[k])) && has_key(
        targets,
        endpoint_key(g[k]),
    ) by {
        assert(kept_from(u, u.len() as int, g[k]));
        let i = choose|i: int| 0 <= i < u.len() && last_of_key(u, i) && g[k] == u[i];
        assert(!has_key(sources, endpoint_key(u[i])));
        lemma_uncovered_in_targets(targets, sources, n, i);
    }
    assert forall|i: int| 0 <= i < targets.len() && !has_key(sources, endpoint_key(targets[i])) implies has_key(
        g,
        endpoint_key(#[trigger] targets[i]),
    ) by {
        let k = choose|k: int| 0 <= k < u.len() && endpoint_key(#[trigger] u[k]) == endpoint_key(targets[i]);
        let m = last_with_key(u, k);
        assert(has_key(g, endpoint_key(u[m])));
    }
}

/// The last endpoint with the key of the one at `k`.
proof fn last_with_key(s: Seq<EndpointView>, k: int) -> (m: int)
    requires
        0 <= k < s.len(),
    ensures
        k <= m < s.len(),
        last_of_key(s, m),
        endpoint_key(s[m]) == endpoint_key(s[k]),
    decreases s.len() - k,
{
    if last_of_key(s, k) {
        k
    } else {
        let j = choose|j: int| k < j < s.len() && endpoint_key(#[trigger] s[j]) == endpoint_key(s[k]);
        last_with_key(s, j)
    }
}

/// An uncovered endpoint is one of the targets.
proof fn lemma_uncovered_in_targets(t: Seq<EndpointView>, s: Seq<EndpointView>, n: int, k: int)
    requires
        0 <= n <= t.len(),
        0 <= k < uncovered(t, s, n).len(),
    ensures
        has_key(t, endpoint_key(uncovered(t, s, n)[k])),
    decreases n,
{
    if n > 0 {
        let a = uncovered(t, s, n - 1);
        if k < a.len() {
            assert(uncovered(t, s, n)[k] == a[k]);
            lemma_uncovered_in_targets(t, s, n - 1, k);
        } else {
            assert(uncovered(t, s, n)[k] == t[n - 1]);
        }
    }
}


/// Installing the git hook, then uninstalling it, gives back the hook as it
/// was before: a hook without carriage returns and without this tool's
/// section (`None` where there was no hook file, which installing reads as
/// empty) is removed where there was none, or where it was, trimmed, empty
/// or only the shebang; otherwise it is written back trimmed, with a final
/// line feed.
pub proof fn lemma_install_then_uninstall(existing: Option<Seq<char>>, installed: Seq<char>, r: UninstallOutcome)
    requires
        ({
            let c = match existing {
                Some(e) => e,
                None => Seq::empty(),
            };
            &&& no_cr(c)
            &&& !contains_seq(c, hook_marker())
            &&& installed == installed_content(c)
        }),
        uninstall_spec(Some(installed), r),
    ensures
        ({
            let c = match existing {
                Some(e) => e,
                None => Seq::empty(),
            };
            &&& (existing is None || trim_seq(c).len() == 0 || trim_seq(c) == "#!/bin/sh"@) ==> r is Remove
            &&& !(existing is None || trim_seq(c).len() == 0 || trim_seq(c) == "#!/bin/sh"@) ==> (r matches UninstallOutcome::Write(w)
                && w@ == trim_seq(c) + "\n"@)
        }),
{
    let c = match existing {
        Some(e) => e,
        None => Seq::empty(),
    };
    lemma_uninstall_after_install(c);
    if c.len() == 0 {
        assert(trim_seq(c).len() == 0);
    }
}


/// The tasks of phase `i` that a category of the report lists, among its
/// first `n`: exactly those of the category.
proof fn lemma_tasks_of_phase_members(phases: Seq<Phase>, c: int, i: int, n: int)
    requires
        0 <= i < phases.len(),
        0 <= n <= phases[i].tasks@.len(),
        i <= usize::MAX,
        phases[i].tasks@.len() <= usize::MAX,
    ensures
        forall|x: (usize, usize)| #[trigger] tasks_of_phase_in(phases, c, i, n).contains(x) <==> (x.0 == i && x.1 < n
            && task_in_category(phases[i].tasks@[x.1 as int], c)),
    decreases n,
{
    if n > 0 {
        lemma_tasks_of_phase_members(phases, c, i, n - 1);
        let a = tasks_of_phase_in(phases, c, i, n - 1);
        if task_in_category(phases[i].tasks@[n - 1], c) {
            let e = (i as usize, (n - 1) as usize);
            assert forall|x: (usize, usize)| #[trigger] a.push(e).contains(x) <==> (a.contains(x) || x == e) by {
                if a.push(e).contains(x) {
                    let k = choose|k: int| 0 <= k < a.push(e).len() && a.push(e)[k] == x;
                    if k < a.len() {
                        assert(a[k] == x);
                    }
                }
                if a.contains(x) {
                    let k = choose|k: int| 0 <= k < a.len() && a[k] == x;
                    assert(a.push(e)[k] == x);
                }
                if x == e {
                    assert(a.push(e)[a.len() as int] == x);
                }
            }
        }
    }
}

/// The tasks that a category of the report lists, among the first `n`
/// phases: exactly those of the category.
proof fn lemma_tasks_in_members(phases: Seq<Phase>, c: int, n: int)
    requires
        0 <= n <= phases.len(),
        phases.len() <= usize::MAX,
        forall|i: int| 0 <= i < phases.len() ==> (#[trigger] phases[i]).tasks@.len() <= usize::MAX,
    ensures
        forall|x: (usize, usize)| #[trigger] tasks_in(phases, c, n).contains(x) <==> (x.0 < n && x.1
            < phases[x.0 as int].tasks@.len() && task_in_category(phases[x.0 as int].tasks@[x.1 as int], c)),
    decreases n,
{
    if n > 0 {
        lemma_tasks_in_members(phases, c, n - 1);
        let m = phases[n - 1].tasks@.len() as int;
        lemma_tasks_of_phase_members(phases, c, n - 1, m);
        let a = tasks_in(phases, c, n - 1);
        let b = tasks_of_phase_in(phases, c, n - 1, m);
        assert forall|x: (usize, usize)| #[trigger] (a + b).contains(x) <==> (a.contains(x) || b.contains(x)) by {
            if (a + b).contains(x) {
                let k = choose|k: int| 0 <= k < (a + b).len() && (a + b)[k] == x;
                if k < a.len() {
                    assert(a[k] == x);
                } else {
                    assert(b[k - a.len()] == x);
                }
            }
            if a.contains(x) {
                let k = choose|k: int| 0 <= k < a.len() && a[k] == x;
                assert((a + b)[k] == x);
            }
            if b.contains(x) {
                let k = choose|k: int| 0 <= k < b.len() && b[k] == x;
                assert((a + b)[k + a.len()] == x);
            }
        }
    }
}

/// The report lists as pending exactly the tasks that are pending and not
/// optional; as optional, the optional tasks that are not done. So no task
/// is both pending and optional in the report, and an optional task never
/// counts among the required ones.
pub proof fn lemma_report_pending_is_required(phases: Seq<Phase>, r: Report)
    requires
        report_spec(phases, r),
        phases.len() <= usize::MAX,
        forall|i: int| 0 <= i < phases.len() ==> (#[trigger] phases[i]).tasks@.len() <= usize::MAX,
    ensures
        forall|x: (usize, usize)| #[trigger] r.tasks_pending@.contains(x) <==> (x.0 < phases.len() && x.1
            < phases[x.0 as int].tasks@.len() && phases[x.0 as int].tasks@[x.1 as int].status@ == "pending"@
            && !phases[x.0 as int].tasks@[x.1 as int].optional),
        forall|x: (usize, usize)| #[trigger] r.tasks_optional@.contains(x) <==> (x.0 < phases.len() && x.1
            < phases[x.0 as int].tasks@.len() && phases[x.0 as int].tasks@[x.1 as int].optional
            && phases[x.0 as int].tasks@[x.1 as int].status@ != "done"@),
        forall|x: (usize, usize)| r.tasks_pending@.contains(x) ==> !r.tasks_optional@.contains(x),
{
    lemma_tasks_in_members(phases, 2, phases.len() as int);
    lemma_tasks_in_members(phases, 3, phases.len() as int);
}


/// A task matches a query (already lower-cased): its name, its description
/// or one of its tags holds it, ignoring case.
pub open spec fn task_matches(t: crate::model::Task, q: Seq<char>) -> bool {
    ||| contains_seq(spec_lowercase(t.name@), q)
    ||| (t.description matches Some(d) && contains_seq(spec_lowercase(d@), q))
    ||| exists|k: int| 0 <= k < t.tags@.len() && contains_seq(spec_lowercase((#[trigger] t.tags@[k])@), q)
}

/// The task hits of phase `i` among its first `n` tasks: exactly the
/// matching ones.
proof fn lemma_task_hits_members(phases: Seq<Phase>, q: Seq<char>, i: int, n: int)
    requires
        0 <= i < phases.len(),
        0 <= n <= phases[i].tasks@.len(),
        i <= usize::MAX,
        phases[i].tasks@.len() <= usize::MAX,
    ensures
        forall|h: SearchHit| #[trigger] task_hits(phases, q, i, n).contains(h) <==> (h matches SearchHit::Task(a, b) && a
            == i && b < n && task_matches(phases[i].tasks@[b as int], q)),
    decreases n,
{
    if n > 0 {
        lemma_task_hits_members(phases, q, i, n - 1);
        let a = task_hits(phases, q, i, n - 1);
        let t = phases[i].tasks@[n - 1];
        assert(task_hit(t, q) == task_matches(t, q));
        if task_hit(t, q) {
            let e = SearchHit::Task(i as usize, (n - 1) as usize);
            assert forall|h: SearchHit| #[trigger] a.push(e).contains(h) <==> (a.contains(h) || h == e) by {
                if a.push(e).contains(h) {
                    let k = choose|k: int| 0 <= k < a.push(e).len() && a.push(e)[k] == h;
                    if k < a.len() {
                        assert(a[k] == h);
                    }
                }
                if a.contains(h) {
                    let k = choose|k: int| 0 <= k < a.len() && a[k] == h;
                    assert(a.push(e)[k] == h);
                }
                if h == e {
                    assert(a.push(e)[a.len() as int] == h);
                }
            }
        }
    }
}

/// Note hits are never task hits.
proof fn lemma_note_hits_notes(phases: Seq<Phase>, q: Seq<char>, i: int, n: int)
    ensures
        forall|h: SearchHit| #[trigger] note_hits(phases, q, i, n).contains(h) ==> h is Note,
    decreases n,
{
    if n > 0 {
        lemma_note_hits_notes(phases, q, i, n - 1);
        let a = note_hits(phases, q, i, n - 1);
        assert forall|h: SearchHit| #[trigger] note_hits(phases, q, i, n).contains(h) implies h is Note by {
            let s = note_hits(phases, q, i, n);
            let k = choose|k: int| 0 <= k < s.len() && s[k] == h;
            if crate::search::hit(phases[i].notes@[n - 1].content@, q) {
                let e = SearchHit::Note(i as usize, (n - 1) as usize);
                assert(s == a.push(e));
                if k < a.len() {
                    assert(a[k] == h);
                    assert(a.contains(h));
                } else {
                    assert(s[k] == e);
                }
            } else {
                assert(s == a);
                assert(a[k] == h);
                assert(a.contains(h));
            }
        }
    }
}

/// The task hits among the first `n` phases: exactly the matching tasks.
proof fn lemma_search_task_members(phases: Seq<Phase>, q: Seq<char>, n: int)
    requires
        0 <= n <= phases.len(),
        phases.len() <= usize::MAX,
        forall|i: int| 0 <= i < phases.len() ==> (#[trigger] phases[i]).tasks@.len() <= usize::MAX,
    ensures
        forall|a: usize, b: usize| #[trigger] search_hits(phases, q, n).contains(SearchHit::Task(a, b)) <==> (a < n
            && b < phases[a as int].tasks@.len() && task_matches(phases[a as int].tasks@[b as int], q)),
    decreases n,
{
    if n > 0 {
        lemma_search_task_members(phases, q, n - 1);
        let i = n - 1;
        let p = phases[i];
        lemma_task_hits_members(phases, q, i, p.tasks@.len() as int);
        lemma_note_hits_notes(phases, q, i, p.notes@.len() as int);
        let a = search_hits(phases, q, n - 1);
        let ph: Seq<SearchHit> = if crate::search::phase_hit(p, q) {
            seq![SearchHit::Phase(i as usize)]
        } else {
            Seq::empty()
        };
        let th = task_hits(phases, q, i, p.tasks@.len() as int);
        let nh = note_hits(phases, q, i, p.notes@.len() as int);
        assert(search_hits(phases, q, n) == a + ph + th + nh);
        assert forall|x: usize, y: usize| #[trigger] (a + ph + th + nh).contains(SearchHit::Task(x, y)) <==> (a.contains(
            SearchHit::Task(x, y),
        ) || th.contains(SearchHit::Task(x, y))) by {
            let h = SearchHit::Task(x, y);
            let s = a + ph + th + nh;
            if s.contains(h) {
                let k = choose|k: int| 0 <= k < s.len() && s[k] == h;
                if k < a.len() {
                    assert(a[k] == h);
                } else if k < a.len() + ph.len() {
                    assert(ph[k - a.len()] == h);
                } else if k < a.len() + ph.len() + th.len() {
                    assert(th[k - a.len() - ph.len()] == h);
                } else {
                    assert(nh[k - a.len() - ph.len() - th.len()] == h);
                    assert(nh.contains(h));
                }
            }
            if a.contains(h) {
                let k = choose|k: int| 0 <= k < a.len() && a[k] == h;
                assert(s[k] == h);
            }
            if th.contains(h) {
                let k = choose|k: int| 0 <= k < th.len() && th[k] == h;
                assert(s[k + a.len() + ph.len()] == h);
            }
        }
    }
}

/// `roadmap search` lists a task exactly when its name, its description or
/// one of its tags holds the query, ignoring case.
pub proof fn lemma_search_finds_tasks(phases: Seq<Phase>, query: Seq<char>)
    requires
        phases.len() <= usize::MAX,
        forall|i: int| 0 <= i < phases.len() ==> (#[trigger] phases[i]).tasks@.len() <= usize::MAX,
    ensures
        forall|a: usize, b: usize|
            #[trigger] search_hits(phases, spec_lowercase(query), phases.len() as int).contains(SearchHit::Task(a, b))
                <==> (a < phases.len() && b < phases[a as int].tasks@.len() && task_matches(
                phases[a as int].tasks@[b as int],
                spec_lowercase(query),
            )),
{
    lemma_search_task_members(phases, spec_lowercase(query), phases.len() as int);
}


/// The date under which a phase's completion is logged: the latest (in the
/// order of strings) of its tasks' completion dates, where one has any; its
/// last update otherwise.
pub open spec fn completion_date_of(p: Phase, d: String) -> bool {
    if exists|j: int| 0 <= j < p.tasks@.len() && (#[trigger] p.tasks@[j]).completed_at is Some {
        &&& exists|j: int| 0 <= j < p.tasks@.len() && (#[trigger] p.tasks@[j]).completed_at == Some(d)
        &&& forall|j: int|
            0 <= j < p.tasks@.len() && (#[trigger] p.tasks@[j]).completed_at is Some ==> lex_le(
                p.tasks@[j].completed_at->0@,
                d@,
            )
    } else {
        d == p.updated_at
    }
}

proof fn lemma_latest_completion(tasks: Seq<crate::model::Task>, n: int)
    requires
        0 <= n <= tasks.len(),
    ensures
        latest_completion(tasks, n) is None <==> forall|j: int| 0 <= j < n ==> (#[trigger] tasks[j]).completed_at is None,
        latest_completion(tasks, n) matches Some(d) ==> {
            &&& exists|j: int| 0 <= j < n && (#[trigger] tasks[j]).completed_at == Some(d)
            &&& forall|j: int| 0 <= j < n && (#[trigger] tasks[j]).completed_at is Some ==> lex_le(
                tasks[j].completed_at->0@,
                d@,
            )
        },
    decreases n,
{
    if n > 0 {
        lemma_latest_completion(tasks, n - 1);
        let rest = latest_completion(tasks, n - 1);
        match tasks[n - 1].completed_at {
            None => {},
            Some(c) => {
                lemma_lex_refl(c@);
                match rest {
                    None => {},
                    Some(m) => {
                        lemma_lex_refl(m@);
                        lemma_lex_total(c@, m@);
                        if !lex_le(c@, m@) {
                            assert forall|j: int| 0 <= j < n && (#[trigger] tasks[j]).completed_at is Some implies lex_le(
                                tasks[j].completed_at->0@,
                                c@,
                            ) by {
                                if j < n - 1 {
                                    lemma_lex_trans(tasks[j].completed_at->0@, m@, c@);
                                }
                            }
                        }
                    },
                }
            },
        }
    }
}

/// The events of the first `n` phases hold the completion event of each.
proof fn lemma_phase_events_within(phases: Seq<Phase>, n: int, i: int)
    requires
        0 <= i < n <= phases.len(),
    ensures
        forall|e: LogEvent| #[trigger] phase_event(phases[i]).contains(e) ==> phases_events(phases, n).contains(e),
    decreases n,
{
    let p = phases[n - 1];
    let a = phases_events(phases, n - 1);
    let b = phase_event(p);
    let c = crate::log::task_events(p, p.tasks@.len() as int);
    let d = crate::log::note_events(p, p.notes@.len() as int);
    assert(phases_events(phases, n) == a + b + c + d);
    if i < n - 1 {
        lemma_phase_events_within(phases, n - 1, i);
        assert forall|e: LogEvent| #[trigger] phase_event(phases[i]).contains(e) implies phases_events(phases, n).contains(e) by {
            let k = choose|k: int| 0 <= k < a.len() && a[k] == e;
            assert((a + b + c + d)[k] == e);
        }
    } else {
        assert forall|e: LogEvent| #[trigger] phase_event(phases[i]).contains(e) implies phases_events(phases, n).contains(e) by {
            let k = choose|k: int| 0 <= k < b.len() && b[k] == e;
            assert((a + b + c + d)[k + a.len()] == e);
        }
    }
}

/// `roadmap log` logs each phase done under the latest completion date of
/// its tasks (in the order of strings), or its last update where none has
/// one; the same date for a phase whose required tasks are all done.
pub proof fn lemma_phase_completion_dated_latest(phases: Seq<Phase>, bugs: Seq<Bug>, i: int)
    requires
        0 <= i < phases.len(),
    ensures
        phases[i].status@ == "done"@ ==> exists|d: String|
            completion_date_of(phases[i], d) && #[trigger] all_events(phases, bugs).contains(
                LogEvent::PhaseDone { date: d, phase_id: phases[i].id, phase_name: phases[i].name },
            ),
        phases[i].status@ != "done"@ && phases[i].tasks@.len() > 0 && (forall|j: int|
            0 <= j < phases[i].tasks@.len() ==> (#[trigger] phases[i].tasks@[j]).optional
                || phases[i].tasks@[j].status@ == "done"@) ==> exists|d: String|
            completion_date_of(phases[i], d) && #[trigger] all_events(phases, bugs).contains(
                LogEvent::PhaseAllTasksDone { date: d, phase_id: phases[i].id, phase_name: phases[i].name },
            ),
{
    let p = phases[i];
    let d = phase_date(p);
    lemma_latest_completion(p.tasks@, p.tasks@.len() as int);
    assert(completion_date_of(p, d));
    lemma_phase_events_within(phases, phases.len() as int, i);
    let pe = phases_events(phases, phases.len() as int);
    let be = bugs_events(bugs, bugs.len() as int);
    assert(all_events(phases, bugs) == pe + be);
    if p.status@ == "done"@ {
        let e = LogEvent::PhaseDone { date: d, phase_id: p.id, phase_name: p.name };
        assert(phase_event(p)[0] == e);
        assert(phase_event(p).contains(e));
        let k = choose|k: int| 0 <= k < pe.len() && pe[k] == e;
        assert((pe + be)[k] == e);
        assert(all_events(phases, bugs).contains(e));
    } else if p.tasks@.len() > 0 && (forall|j: int|
        0 <= j < p.tasks@.len() ==> (#[trigger] p.tasks@[j]).optional || p.tasks@[j].status@ == "done"@) {
        assert(required_done(p.tasks@, p.tasks@.len() as int));
        let e = LogEvent::PhaseAllTasksDone { date: d, phase_id: p.id, phase_name: p.name };
        assert(phase_event(p)[0] == e);
        assert(phase_event(p).contains(e));
        let k = choose|k: int| 0 <= k < pe.len() && pe[k] == e;
        assert((pe + be)[k] == e);
        assert(all_events(phases, bugs).contains(e));
    }
}

/// Some phase file of the directory holds a task with this id.
pub open spec fn names_a_task(files: Seq<DoctorFile>, id: Seq<char>) -> bool {
    exists|k: int, u: int|
        0 <= k < files.len() && files[k].content is Parsed && 0 <= u
            < files[k].content->Parsed_0.tasks@.len() && (#[trigger] files[k].content->Parsed_0.tasks@[
            u]).id@ == id
}

/// The ids a task blocks (`blocks`), or the ids blocking it.
pub open spec fn refs_of(t: Task, blocks: bool) -> Seq<String> {
    if blocks {
        t.blocks@
    } else {
        t.blocked_by@
    }
}

/// Some task of a phase file has the id `task_id` and lists `target` among
/// the ids it blocks (`blocks`) or among those blocking it.
pub open spec fn listed_ref(files: Seq<DoctorFile>, task_id: String, target: String, blocks: bool) -> bool {
    exists|k: int, u: int, j: int|
        0 <= k < files.len() && files[k].content is Parsed && 0 <= u
            < files[k].content->Parsed_0.tasks@.len() && 0 <= j < refs_of(
            files[k].content->Parsed_0.tasks@[u],
            blocks,
        ).len() && #[trigger] refs_of(files[k].content->Parsed_0.tasks@[u], blocks)[j] == target
            && files[k].content->Parsed_0.tasks@[u].id == task_id
}

/// The finding that reports `target` as unknown in a reference of `task`.
pub open spec fn ref_finding(task: Task, target: String, blocks: bool) -> Diagnostic {
    if blocks {
        Diagnostic::UnknownBlockedTask { task_id: task.id, target: target }
    } else {
        Diagnostic::UnknownBlockingTask { task_id: task.id, target: target }
    }
}

/// A finding on a reference between tasks names a reference that some task
/// makes, to an id that no task has; other findings are not concerned.
pub open spec fn ref_finding_sound(files: Seq<DoctorFile>, d: Diagnostic) -> bool {
    match d {
        Diagnostic::UnknownBlockedTask { task_id, target } => !names_a_task(files, target@)
            && listed_ref(files, task_id, target, true),
        Diagnostic::UnknownBlockingTask { task_id, target } => !names_a_task(files, target@)
            && listed_ref(files, task_id, target, false),
        _ => true,
    }
}

/// The finding is not about a reference between tasks.
pub open spec fn not_ref_finding(d: Diagnostic) -> bool {
    !(d is UnknownBlockedTask) && !(d is UnknownBlockingTask)
}

proof fn lemma_task_known_raw(files: Seq<DoctorFile>, id: Seq<char>)
    ensures
        task_known(files, id) == names_a_task(files, id),
{
    if task_known(files, id) {
        let (k, u) = choose|k: int, u: int|
            #![trigger phase_of(files, k).tasks@[u]]
            ((0 <= k < files.len() as int) || (k == files.len() as int && u < 0)) && 0 <= k
                < files.len() && crate::doctor::parsed(files, k) && 0 <= u < phase_of(files, k).tasks@.len()
                && phase_of(files, k).tasks@[u].id@ == id;
        assert(files[k].content->Parsed_0.tasks@[u].id@ == id);
    }
    if names_a_task(files, id) {
        let (k, u) = choose|k: int, u: int|
            0 <= k < files.len() && files[k].content is Parsed && 0 <= u
                < files[k].content->Parsed_0.tasks@.len() && (#[trigger] files[k].content->Parsed_0.tasks@[
                u]).id@ == id;
        assert(phase_of(files, k).tasks@[u].id@ == id);
    }
}

proof fn lemma_ref_errors_exact(files: Seq<DoctorFile>, f: int, t: int, blocks: bool, n: int)
    requires
        0 <= f < files.len(),
        files[f].content is Parsed,
        0 <= t < files[f].content->Parsed_0.tasks@.len(),
        0 <= n <= refs_of(files[f].content->Parsed_0.tasks@[t], blocks).len(),
    ensures
        forall|i: int|
            0 <= i < ref_errors(
                files,
                files[f].content->Parsed_0.tasks@[t],
                refs_of(files[f].content->Parsed_0.tasks@[t], blocks),
                blocks,
                n,
            ).len() ==> ref_finding_sound(
                files,
                #[trigger] ref_errors(
                    files,
                    files[f].content->Parsed_0.tasks@[t],
                    refs_of(files[f].content->Parsed_0.tasks@[t], blocks),
                    blocks,
                    n,
                )[i],
            ),
        forall|j: int|
            0 <= j < n && !names_a_task(
                files,
                (#[trigger] refs_of(files[f].content->Parsed_0.tasks@[t], blocks)[j])@,
            ) ==> ref_errors(
                files,
                files[f].content->Parsed_0.tasks@[t],
                refs_of(files[f].content->Parsed_0.tasks@[t], blocks),
                blocks,
                n,
            ).contains(
                ref_finding(
                    files[f].content->Parsed_0.tasks@[t],
                    refs_of(files[f].content->Parsed_0.tasks@[t], blocks)[j],
                    blocks,
                ),
            ),
    decreases n,
{
    let task = files[f].content->Parsed_0.tasks@[t];
    let refs = refs_of(task, blocks);
    let e = ref_errors(files, task, refs, blocks, n);
    if n > 0 {
        lemma_ref_errors_exact(files, f, t, blocks, n - 1);
        let prev = ref_errors(files, task, refs, blocks, n - 1);
        let d = ref_finding(task, refs[n - 1], blocks);
        lemma_task_known_raw(files, refs[n - 1]@);
        assert(e == prev + crate::doctor::when(!task_known(files, refs[n - 1]@), d));
        if !task_known(files, refs[n - 1]@) {
            assert(refs_of(files[f].content->Parsed_0.tasks@[t], blocks)[n - 1] == refs[n - 1]);
            assert(listed_ref(files, task.id, refs[n - 1], blocks));
            assert(ref_finding_sound(files, d));
        }
        assert forall|i: int| 0 <= i < e.len() implies ref_finding_sound(files, #[trigger] e[i]) by {
            if i < prev.len() {
                assert(e[i] == prev[i]);
            } else {
                assert(e[i] == d);
            }
        }
        assert forall|j: int|
            0 <= j < n && !names_a_task(files, (#[trigger] refs[j])@) implies e.contains(
            ref_finding(task, refs[j], blocks),
        ) by {
            let x = ref_finding(task, refs[j], blocks);
            if j < n - 1 {
                assert(prev.contains(x));
                let idx = choose|idx: int| 0 <= idx < prev.len() && prev[idx] == x;
                assert(e[idx] == x);
            } else {
                assert(e[prev.len() as int] == x);
            }
        }
    }
}

proof fn lemma_tasks_ref_errors_exact(files: Seq<DoctorFile>, f: int, n: int)
    requires
        0 <= f < files.len(),
        files[f].content is Parsed,
        0 <= n <= files[f].content->Parsed_0.tasks@.len(),
    ensures
        forall|i: int|
            0 <= i < tasks_ref_errors(files, files[f].content->Parsed_0, n).len() ==> ref_finding_sound(
                files,
                #[trigger] tasks_ref_errors(files, files[f].content->Parsed_0, n)[i],
            ),
        forall|u: int, j: int, blocks: bool|
            0 <= u < n && 0 <= j < refs_of(files[f].content->Parsed_0.tasks@[u], blocks).len()
                && !names_a_task(
                files,
                (#[trigger] refs_of(files[f].content->Parsed_0.tasks@[u], blocks)[j])@,
            ) ==> tasks_ref_errors(files, files[f].content->Parsed_0, n).contains(
                ref_finding(
                    files[f].content->Parsed_0.tasks@[u],
                    refs_of(files[f].content->Parsed_0.tasks@[u], blocks)[j],
                    blocks,
                ),
            ),
    decreases n,
{
    let p = files[f].content->Parsed_0;
    let e = tasks_ref_errors(files, p, n);
    if n > 0 {
        lemma_tasks_ref_errors_exact(files, f, n - 1);
        let task = p.tasks@[n - 1];
        lemma_ref_errors_exact(files, f, n - 1, true, task.blocks@.len() as int);
        lemma_ref_errors_exact(files, f, n - 1, false, task.blocked_by@.len() as int);
        let prev = tasks_ref_errors(files, p, n - 1);
        let a = ref_errors(files, task, task.blocks@, true, task.blocks@.len() as int);
        let b = ref_errors(files, task, task.blocked_by@, false, task.blocked_by@.len() as int);
        assert(refs_of(task, true) == task.blocks@);
        assert(refs_of(task, false) == task.blocked_by@);
        assert(e == prev + a + b);
        assert forall|i: int| 0 <= i < e.len() implies ref_finding_sound(files, #[trigger] e[i]) by {
            if i < prev.len() {
                assert(e[i] == prev[i]);
            } else if i < prev.len() + a.len() {
                assert(e[i] == a[i - prev.len()]);
            } else {
                assert(e[i] == b[i - prev.len() - a.len()]);
            }
        }
        assert forall|u: int, j: int, blocks: bool|
            0 <= u < n && 0 <= j < refs_of(p.tasks@[u], blocks).len() && !names_a_task(
                files,
                (#[trigger] refs_of(p.tasks@[u], blocks)[j])@,
            ) implies e.contains(ref_finding(p.tasks@[u], refs_of(p.tasks@[u], blocks)[j], blocks)) by {
            let x = ref_finding(p.tasks@[u], refs_of(p.tasks@[u], blocks)[j], blocks);
            if u < n - 1 {
                assert(prev.contains(x));
                let idx = choose|idx: int| 0 <= idx < prev.len() && prev[idx] == x;
                assert(e[idx] == x);
            } else if blocks {
                assert(a.contains(x));
                let idx = choose|idx: int| 0 <= idx < a.len() && a[idx] == x;
                assert(e[prev.len() + idx] == x);
            } else {
                assert(b.contains(x));
                let idx = choose|idx: int| 0 <= idx < b.len() && b[idx] == x;
                assert(e[prev.len() + a.len() + idx] == x);
            }
        }
    }
}

proof fn lemma_dep_errors_not_refs(files: Seq<DoctorFile>, p: Phase, n: int)
    ensures
        forall|i: int|
            0 <= i < dep_errors(files, p, n).len() ==> not_ref_finding(
                #[trigger] dep_errors(files, p, n)[i],
            ),
    decreases n,
{
    if n > 0 {
        lemma_dep_errors_not_refs(files, p, n - 1);
        let prev = dep_errors(files, p, n - 1);
        let e = dep_errors(files, p, n);
        assert forall|i: int| 0 <= i < e.len() implies not_ref_finding(#[trigger] e[i]) by {
            if i < prev.len() {
                assert(e[i] == prev[i]);
            }
        }
    }
}

proof fn lemma_cross_errors_exact(files: Seq<DoctorFile>, n: int)
    requires
        0 <= n <= files.len(),
    ensures
        forall|i: int|
            0 <= i < cross_errors(files, n).len() ==> ref_finding_sound(
                files,
                #[trigger] cross_errors(files, n)[i],
            ),
        forall|k: int, u: int, j: int, blocks: bool|
            0 <= k < n && files[k].content is Parsed && 0 <= u
                < files[k].content->Parsed_0.tasks@.len() && 0 <= j < refs_of(
                files[k].content->Parsed_0.tasks@[u],
                blocks,
            ).len() && !names_a_task(
                files,
                (#[trigger] refs_of(files[k].content->Parsed_0.tasks@[u], blocks)[j])@,
            ) ==> cross_errors(files, n).contains(
                ref_finding(
                    files[k].content->Parsed_0.tasks@[u],
                    refs_of(files[k].content->Parsed_0.tasks@[u], blocks)[j],
                    blocks,
                ),
            ),
    decreases n,
{
    let e = cross_errors(files, n);
    if n > 0 {
        lemma_cross_errors_exact(files, n - 1);
        let prev = cross_errors(files, n - 1);
        match files[n - 1].content {
            Loaded::Parsed(p) => {
                lemma_tasks_ref_errors_exact(files, n - 1, p.tasks@.len() as int);
                lemma_dep_errors_not_refs(files, p, p.depends_on@.len() as int);
                let a = tasks_ref_errors(files, p, p.tasks@.len() as int);
                let b = dep_errors(files, p, p.depends_on@.len() as int);
                assert(e == prev + a + b);
                assert forall|i: int| 0 <= i < e.len() implies ref_finding_sound(files, #[trigger] e[i]) by {
                    if i < prev.len() {
                        assert(e[i] == prev[i]);
                    } else if i < prev.len() + a.len() {
                        assert(e[i] == a[i - prev.len()]);
                    } else {
                        assert(e[i] == b[i - prev.len() - a.len()]);
                        assert(not_ref_finding(b[i - prev.len() - a.len()]));
                    }
                }
                assert forall|k: int, u: int, j: int, blocks: bool|
                    0 <= k < n && files[k].content is Parsed && 0 <= u
                        < files[k].content->Parsed_0.tasks@.len() && 0 <= j < refs_of(
                        files[k].content->Parsed_0.tasks@[u],
                        blocks,
                    ).len() && !names_a_task(
                        files,
                        (#[trigger] refs_of(files[k].content->Parsed_0.tasks@[u], blocks)[j])@,
                    ) implies e.contains(
                    ref_finding(
                        files[k].content->Parsed_0.tasks@[u],
                        refs_of(files[k].content->Parsed_0.tasks@[u], blocks)[j],
                        blocks,
                    ),
                ) by {
                    let x = ref_finding(
                        files[k].content->Parsed_0.tasks@[u],
                        refs_of(files[k].content->Parsed_0.tasks@[u], blocks)[j],
                        blocks,
                    );
                    if k < n - 1 {
                        assert(prev.contains(x));
                        let idx = choose|idx: int| 0 <= idx < prev.len() && prev[idx] == x;
                        assert(e[idx] == x);
                    } else {
                        assert(a.contains(x));
                        let idx = choose|idx: int| 0 <= idx < a.len() && a[idx] == x;
                        assert(e[prev.len() + idx] == x);
                    }
                }
            },
            _ => {
                assert(e == prev + Seq::<Diagnostic>::empty());
                assert(e == prev);
            },
        }
    }
}

proof fn lemma_tasks_errors_not_refs(files: Seq<DoctorFile>, f: int, n: int)
    ensures
        forall|i: int|
            0 <= i < tasks_errors(files, f, n).len() ==> not_ref_finding(
                #[trigger] tasks_errors(files, f, n)[i],
            ),
    decreases n,
{
    if n > 0 {
        lemma_tasks_errors_not_refs(files, f, n - 1);
        let prev = tasks_errors(files, f, n - 1);
        let a = task_errors(files, f, n - 1);
        let e = tasks_errors(files, f, n);
        assert forall|i: int| 0 <= i < a.len() implies not_ref_finding(#[trigger] a[i]) by {}
        assert forall|i: int| 0 <= i < e.len() implies not_ref_finding(#[trigger] e[i]) by {
            if i < prev.len() {
                assert(e[i] == prev[i]);
            } else {
                assert(e[i] == a[i - prev.len()]);
            }
        }
    }
}

proof fn lemma_files_errors_not_refs(files: Seq<DoctorFile>, names: Seq<String>, n: int)
    ensures
        forall|i: int|
            0 <= i < files_errors(files, names, n).len() ==> not_ref_finding(
                #[trigger] files_errors(files, names, n)[i],
            ),
    decreases n,
{
    if n > 0 {
        lemma_files_errors_not_refs(files, names, n - 1);
        let prev = files_errors(files, names, n - 1);
        let a = file_errors(files, names, n - 1);
        let e = files_errors(files, names, n);
        match files[n - 1].content {
            Loaded::Parsed(p) => {
                lemma_tasks_errors_not_refs(files, n - 1, p.tasks@.len() as int);
                let x = phase_errors(files, names, n - 1);
                let y = tasks_errors(files, n - 1, p.tasks@.len() as int);
                assert forall|i: int| 0 <= i < x.len() implies not_ref_finding(#[trigger] x[i]) by {}
                assert forall|i: int| 0 <= i < a.len() implies not_ref_finding(#[trigger] a[i]) by {
                    if i < x.len() {
                        assert(a[i] == x[i]);
                    } else {
                        assert(a[i] == y[i - x.len()]);
                    }
                }
            },
            _ => {},
        }
        assert forall|i: int| 0 <= i < e.len() implies not_ref_finding(#[trigger] e[i]) by {
            if i < prev.len() {
                assert(e[i] == prev[i]);
            } else {
                assert(e[i] == a[i - prev.len()]);
            }
        }
    }
}

proof fn lemma_bugs_errors_not_refs(files: Seq<DoctorFile>, bugs: Seq<Bug>, n: int)
    ensures
        forall|i: int|
            0 <= i < bugs_errors(files, bugs, n).len() ==> not_ref_finding(
                #[trigger] bugs_errors(files, bugs, n)[i],
            ),
    decreases n,
{
    if n > 0 {
        lemma_bugs_errors_not_refs(files, bugs, n - 1);
        let prev = bugs_errors(files, bugs, n - 1);
        let a = bug_errors(files, bugs[n - 1]);
        let e = bugs_errors(files, bugs, n);
        assert forall|i: int| 0 <= i < a.len() implies not_ref_finding(#[trigger] a[i]) by {}
        assert forall|i: int| 0 <= i < e.len() implies not_ref_finding(#[trigger] e[i]) by {
            if i < prev.len() {
                assert(e[i] == prev[i]);
            } else {
                assert(e[i] == a[i - prev.len()]);
            }
        }
    }
}

/// The integrity check reports a reference between tasks (an id that a task
/// blocks, or one blocking it) exactly when that id is the id of no task of any
/// phase file that parsed: every such reference is reported, and every report
/// of that kind names a reference that some task makes to an id no task has.
pub proof fn lemma_doctor_reports_unknown_refs(
    files: Seq<DoctorFile>,
    names: Seq<String>,
    bugs: Seq<Bug>,
    r: DoctorReport,
)
    requires
        doctor_spec(files, names, bugs, r),
    ensures
        forall|i: int| 0 <= i < r.errors@.len() ==> ref_finding_sound(files, #[trigger] r.errors@[i]),
        forall|k: int, u: int, j: int, blocks: bool|
            0 <= k < files.len() && files[k].content is Parsed && 0 <= u
                < files[k].content->Parsed_0.tasks@.len() && 0 <= j < refs_of(
                files[k].content->Parsed_0.tasks@[u],
                blocks,
            ).len() && !names_a_task(
                files,
                (#[trigger] refs_of(files[k].content->Parsed_0.tasks@[u], blocks)[j])@,
            ) ==> r.errors@.contains(
                ref_finding(
                    files[k].content->Parsed_0.tasks@[u],
                    refs_of(files[k].content->Parsed_0.tasks@[u], blocks)[j],
                    blocks,
                ),
            ),
{
    let n = files.len() as int;
    let fe = files_errors(files, names, n);
    let ce = cross_errors(files, n);
    let be = bugs_errors(files, bugs, bugs.len() as int);
    lemma_files_errors_not_refs(files, names, n);
    lemma_cross_errors_exact(files, n);
    lemma_bugs_errors_not_refs(files, bugs, bugs.len() as int);
    let e = r.errors@;
    assert(e == fe + ce + be);
    assert forall|i: int| 0 <= i < e.len() implies ref_finding_sound(files, #[trigger] e[i]) by {
        if i < fe.len() {
            assert(e[i] == fe[i]);
            assert(not_ref_finding(fe[i]));
        } else if i < fe.len() + ce.len() {
            assert(e[i] == ce[i - fe.len()]);
        } else {
            assert(e[i] == be[i - fe.len() - ce.len()]);
            assert(not_ref_finding(be[i - fe.len() - ce.len()]));
        }
    }
    assert forall|k: int, u: int, j: int, blocks: bool|
        0 <= k < files.len() && files[k].content is Parsed && 0 <= u
            < files[k].content->Parsed_0.tasks@.len() && 0 <= j < refs_of(
            files[k].content->Parsed_0.tasks@[u],
            blocks,
        ).len() && !names_a_task(
            files,
            (#[trigger] refs_of(files[k].content->Parsed_0.tasks@[u], blocks)[j])@,
        ) implies e.contains(
        ref_finding(
            files[k].content->Parsed_0.tasks@[u],
            refs_of(files[k].content->Parsed_0.tasks@[u], blocks)[j],
            blocks,
        ),
    ) by {
        let x = ref_finding(
            files[k].content->Parsed_0.tasks@[u],
            refs_of(files[k].content->Parsed_0.tasks@[u], blocks)[j],
            blocks,
        );
        assert(ce.contains(x));
        let idx = choose|idx: int| 0 <= idx < ce.len() && ce[idx] == x;
        assert(e[fe.len() + idx] == x);
    }
}

} // verus!
