//! When a job may start that depends on others, and which dependencies go in circles.

use vstd::prelude::*;
use crate::laws::displays::{lemma_shows, shows};
use crate::model::crd::{DependencyType, DependencyView, JobDependency};
use crate::model::error::BuboError;
use crate::model::types::JobState;
use crate::scheduler::dependencies::{
    law_status, DependencyResolver, DependencyStatus, ResolverView,
};

verus! {

/// Whether `job` is known to be in the state `state`.
pub open spec fn known_in(v: ResolverView, job: Seq<char>, state: JobState) -> bool {
    v.states.dom().contains(job) && v.states[job] == state
}

/// Whether `job` is known to have ended without success.
pub open spec fn known_unsuccessful(v: ResolverView, job: Seq<char>) -> bool {
    known_in(v, job, JobState::Failed) || known_in(v, job, JobState::Cancelled) || known_in(
        v,
        job,
        JobState::WalltimeExceeded,
    )
}

/// Whether `job` is known to have ended.
pub open spec fn known_ended(v: ResolverView, job: Seq<char>) -> bool {
    known_in(v, job, JobState::Succeeded) || known_unsuccessful(v, job)
}

/// Whether what is known of the other job allows the dependent one to start: after
/// success, after any end, or after an end without success.
pub open spec fn allows_start(v: ResolverView, dep: DependencyView) -> bool {
    (dep.dep_type == DependencyType::AfterOk && known_in(v, dep.job, JobState::Succeeded)) || (
    dep.dep_type == DependencyType::AfterAny && known_ended(v, dep.job)) || (dep.dep_type
        == DependencyType::AfterNotOk && known_unsuccessful(v, dep.job))
}

/// A job may start exactly when each job that it depends on has ended as it asks. It can
/// never start exactly when one of them has ended otherwise. It waits exactly while all
/// that have ended did so as asked and one has not ended; it then waits for those that
/// have not ended, and for no other. After any end means just that: the end decides.
pub proof fn law_start_follows_ends(
    resolver: &DependencyResolver,
    job_name: &str,
    r: DependencyStatus,
)
    requires
        call_ensures(DependencyResolver::check_dependencies, (resolver, job_name), r),
        resolver@.dependencies.dom().contains(job_name@),
    ensures
        ({
            let v = resolver@;
            let deps = v.dependencies[job_name@];
            &&& r is Satisfied <==> forall|i: int|
                0 <= i < deps.len() ==> allows_start(v, #[trigger] deps[i])
            &&& r is Failed <==> exists|i: int|
                0 <= i < deps.len() && known_ended(v, (#[trigger] deps[i]).job) && !allows_start(
                    v,
                    deps[i],
                )
            &&& r is Waiting ==> forall|job: Seq<char>| #[trigger]
                r->pending_deps.deep_view().contains(job) <==> (!known_ended(v, job) && mentions(
                    deps,
                    job,
                ))
        }),
{
    let v = resolver@;
    let deps = v.dependencies[job_name@];
    assert(deps == v.declared(job_name@));
    law_status(v, job_name@);
    assert forall|i: int| 0 <= i < deps.len() implies crate::scheduler::dependencies::meets(
        (#[trigger] deps[i]).dep_type,
        v.state(deps[i].job),
    ) == allows_start(v, deps[i]) by {}
    assert forall|i: int| 0 <= i < deps.len() implies crate::scheduler::dependencies::blocks(
        (#[trigger] deps[i]).dep_type,
        v.state(deps[i].job),
    ) == (known_ended(v, deps[i].job) && !allows_start(v, deps[i])) by {}
    if r is Waiting {
        assert(r@ == v.status(job_name@));
        lemma_awaited(v, deps);
    }
}

/// Whether one of `deps` is on `job`.
pub open spec fn mentions(deps: Seq<DependencyView>, job: Seq<char>) -> bool {
    exists|i: int| 0 <= i < deps.len() && (#[trigger] deps[i]).job == job
}

proof fn lemma_awaited(v: ResolverView, deps: Seq<DependencyView>)
    ensures
        forall|job: Seq<char>| #[trigger]
            v.open_jobs(deps).contains(job) <==> (!known_ended(v, job) && mentions(deps, job)),
    decreases deps.len(),
{
    if deps.len() > 0 {
        let rest = deps.drop_last();
        let last = deps.len() - 1;
        lemma_awaited(v, rest);
        let before = v.open_jobs(rest);
        let all = v.open_jobs(deps);
        assert forall|job: Seq<char>| #[trigger]
            all.contains(job) <==> (!known_ended(v, job) && mentions(deps, job)) by {
            assert(before.contains(job) <==> (!known_ended(v, job) && mentions(rest, job)));
            assert(mentions(rest, job) ==> mentions(deps, job)) by {
                if mentions(rest, job) {
                    let i = choose|i: int| 0 <= i < rest.len() && (#[trigger] rest[i]).job == job;
                    assert(deps[i].job == job);
                }
            }
            assert(mentions(deps, job) ==> mentions(rest, job) || deps[last].job == job) by {
                if mentions(deps, job) && deps[last].job != job {
                    let i = choose|i: int| 0 <= i < deps.len() && (#[trigger] deps[i]).job == job;
                    assert(rest[i].job == job);
                }
            }
            assert(deps[last].job == job ==> mentions(deps, job));
            if all.contains(job) {
                let k = all.index_of(job);
                if k < before.len() {
                    assert(before.contains(before[k]));
                }
            }
            if before.contains(job) {
                assert(all[before.index_of(job)] == job);
            }
            if all.len() > before.len() && deps[last].job == job {
                assert(all[before.len() as int] == job);
            }
        }
    }
}

/// A job that depends on nothing may start, and so may one of which nothing is known.
pub proof fn law_free_jobs_may_start(
    resolver: &DependencyResolver,
    job_name: &str,
    r: DependencyStatus,
)
    requires
        call_ensures(DependencyResolver::check_dependencies, (resolver, job_name), r),
        !resolver@.dependencies.dom().contains(job_name@)
            || resolver@.dependencies[job_name@].len() == 0,
    ensures
        r is Satisfied,
{
    law_status(resolver@, job_name@);
}

/// A dependency on a job that has ended is decided: nobody waits for a job that has
/// ended, in whatever way it has.
pub proof fn law_ended_jobs_are_not_awaited(
    resolver: &DependencyResolver,
    job_name: &str,
    other: Seq<char>,
    state: JobState,
    r: DependencyStatus,
)
    requires
        call_ensures(DependencyResolver::check_dependencies, (resolver, job_name), r),
        resolver@.states.dom().contains(other),
        resolver@.states[other] == state,
        state == JobState::Succeeded || state == JobState::Failed || state == JobState::Cancelled
            || state == JobState::WalltimeExceeded,
    ensures
        r is Waiting ==> !r->pending_deps.deep_view().contains(other),
{
    if r is Waiting {
        if resolver@.dependencies.dom().contains(job_name@) {
            law_start_follows_ends(resolver, job_name, r);
            assert(known_ended(resolver@, other));
        } else {
            law_free_jobs_may_start(resolver, job_name, r);
        }
    }
}

/// The jobs that are ready are exactly the registered ones that may start, each once.
pub proof fn law_ready_jobs_may_start(
    resolver: &DependencyResolver,
    job_name: &str,
    ready: Vec<String>,
    status: DependencyStatus,
)
    requires
        call_ensures(DependencyResolver::ready_jobs, (resolver,), ready),
        call_ensures(DependencyResolver::check_dependencies, (resolver, job_name), status),
    ensures
        ready.deep_view().contains(job_name@) <==> resolver@.dependencies.dom().contains(job_name@)
            && status is Satisfied,
        ready.deep_view().no_duplicates(),
{
    assert(status@ is Satisfied <==> status is Satisfied);
}

/// Whether each job of `walk` but the last has a registered dependency on the next.
pub open spec fn leads_on(v: ResolverView, walk: Seq<Seq<char>>) -> bool {
    forall|i: int|
        0 <= i < walk.len() - 1 ==> v.dependencies.dom().contains(#[trigger] walk[i]) && mentions(
            v.dependencies[walk[i]],
            walk[i + 1],
        )
}

/// Dependencies are refused exactly where following them leads from some job back to it:
/// through however many jobs, or at once where a job depends on itself.
pub proof fn law_circles_are_refused(
    resolver: &DependencyResolver,
    walk: Seq<Seq<char>>,
    r: Result<(), BuboError>,
)
    requires
        call_ensures(DependencyResolver::validate_no_cycles, (resolver,), r),
    ensures
        walk.len() >= 2 && walk[0] == walk.last() && leads_on(resolver@, walk) ==> r is Err,
        r is Err ==> r->Err_0 is ValidationError && exists|circle: Seq<Seq<char>>|
            circle.len() >= 2 && circle[0] == circle.last() && #[trigger] leads_on(
                resolver@,
                circle,
            ),
{
    let v = resolver@;
    if walk.len() >= 2 && walk[0] == walk.last() && leads_on(v, walk) {
        assert forall|i: int| 0 <= i < walk.len() - 1 implies v.depends_on(
            #[trigger] walk[i],
            walk[i + 1],
        ) by {
            let deps = v.dependencies[walk[i]];
            let k = choose|k: int| 0 <= k < deps.len() && (#[trigger] deps[k]).job == walk[i + 1];
            assert(v.declared(walk[i])[k].job == walk[i + 1]);
        }
        assert(v.is_walk(walk));
    }
    if r is Err {
        let circle = choose|circle: Seq<Seq<char>>|
            circle.len() >= 2 && circle[0] == circle.last() && #[trigger] v.is_walk(circle);
        assert forall|i: int| 0 <= i < circle.len() - 1 implies v.dependencies.dom().contains(
            #[trigger] circle[i],
        ) && mentions(v.dependencies[circle[i]], circle[i + 1]) by {
            assert(v.depends_on(circle[i], circle[i + 1]));
            let k = choose|k: int|
                0 <= k < v.declared(circle[i]).len() && (#[trigger] v.declared(circle[i])[k]).job
                    == circle[i + 1];
            assert(v.dependencies[circle[i]][k].job == circle[i + 1]);
        }
        assert(leads_on(v, circle));
    }
}

/// Registering a job makes its dependencies known and changes nothing of other jobs; a
/// state that is known of it stays, and else it is pending.
pub proof fn law_registration_is_remembered(
    resolver: &mut DependencyResolver,
    job_name: &str,
    deps: Vec<JobDependency>,
    other: Seq<char>,
)
    requires
        call_ensures(DependencyResolver::register_job, (resolver, job_name, deps), ()),
    ensures
        final(resolver)@.dependencies.dom().contains(job_name@),
        final(resolver)@.dependencies[job_name@] == deps.deep_view(),
        final(resolver)@.states.dom().contains(job_name@),
        old(resolver)@.states.dom().contains(job_name@) ==> final(resolver)@.states[job_name@]
            == old(resolver)@.states[job_name@],
        !old(resolver)@.states.dom().contains(job_name@) ==> final(resolver)@.states[job_name@]
            == JobState::Pending,
        other != job_name@ ==> {
            &&& final(resolver)@.dependencies.dom().contains(other)
                == old(resolver)@.dependencies.dom().contains(other)
            &&& final(resolver)@.dependencies[other] == old(resolver)@.dependencies[other]
            &&& final(resolver)@.states.dom().contains(other) == old(
                resolver,
            )@.states.dom().contains(other)
            &&& final(resolver)@.states[other] == old(resolver)@.states[other]
        },
{
}

/// A state that is reported of a job is known of it afterwards, in place of any other, and
/// nothing else changes.
pub proof fn law_states_are_remembered(
    resolver: &mut DependencyResolver,
    job_name: &str,
    state: JobState,
    other: Seq<char>,
)
    requires
        call_ensures(DependencyResolver::update_job_state, (resolver, job_name, state), ()),
    ensures
        known_in(final(resolver)@, job_name@, state),
        final(resolver)@.dependencies == old(resolver)@.dependencies,
        other != job_name@ ==> forall|s: JobState|
            known_in(final(resolver)@, other, s) == #[trigger] known_in(old(resolver)@, other, s),
{
}

/// A removed job is forgotten, and no other is.
pub proof fn law_removed_jobs_are_forgotten(
    resolver: &mut DependencyResolver,
    job_name: &str,
    other: Seq<char>,
)
    requires
        call_ensures(DependencyResolver::remove_job, (resolver, job_name), ()),
    ensures
        !final(resolver)@.dependencies.dom().contains(job_name@),
        !final(resolver)@.states.dom().contains(job_name@),
        other != job_name@ ==> {
            &&& final(resolver)@.dependencies.dom().contains(other)
                == old(resolver)@.dependencies.dom().contains(other)
            &&& final(resolver)@.dependencies[other] == old(resolver)@.dependencies[other]
            &&& final(resolver)@.states.dom().contains(other) == old(
                resolver,
            )@.states.dom().contains(other)
            &&& final(resolver)@.states[other] == old(resolver)@.states[other]
        },
{
}

/// A job that can never start says of the first dependency that keeps it why it does.
pub proof fn law_first_obstacle_is_named(
    resolver: &DependencyResolver,
    job_name: &str,
    i: int,
    r: DependencyStatus,
)
    requires
        call_ensures(DependencyResolver::check_dependencies, (resolver, job_name), r),
        resolver@.dependencies.dom().contains(job_name@),
        ({
            let v = resolver@;
            let deps = v.dependencies[job_name@];
            &&& 0 <= i < deps.len()
            &&& known_ended(v, deps[i].job) && !allows_start(v, deps[i])
            &&& forall|k: int|
                0 <= k < i ==> !known_ended(v, (#[trigger] deps[k]).job) || allows_start(v, deps[k])
        }),
    ensures
        r is Failed,
        shows((r->reason)@, resolver@.dependencies[job_name@][i].job),
        resolver@.dependencies[job_name@][i].dep_type == DependencyType::AfterOk ==> shows(
            (r->reason)@,
            "afterOk"@,
        ),
        resolver@.dependencies[job_name@][i].dep_type == DependencyType::AfterNotOk ==> shows(
            (r->reason)@,
            "afterNotOk"@,
        ),
{
    let v = resolver@;
    let deps = v.dependencies[job_name@];
    law_start_follows_ends(resolver, job_name, r);
    assert(known_ended(v, deps[i].job) && !allows_start(v, deps[i]));
    lemma_first_obstacle(v, deps, i);
    lemma_shows();
    let state = v.states[deps[i].job];
    reveal_strlit("' (afterOk) ended with state '");
    reveal_strlit("' (afterNotOk) succeeded, which cannot satisfy the condition");
    reveal_strlit("afterOk");
    reveal_strlit("afterNotOk");
    let a = "' (afterOk) ended with state '"@;
    let b = "' (afterNotOk) succeeded, which cannot satisfy the condition"@;
    assert(a =~= a.take(3) + "afterOk"@ + a.skip(10));
    assert(b =~= b.take(3) + "afterNotOk"@ + b.skip(13));
    assert(shows(a, "afterOk"@));
    assert(shows(b, "afterNotOk"@));
}

proof fn lemma_first_obstacle(v: ResolverView, deps: Seq<DependencyView>, i: int)
    requires
        0 <= i < deps.len(),
        known_ended(v, deps[i].job) && !allows_start(v, deps[i]),
        forall|k: int|
            0 <= k < i ==> !known_ended(v, (#[trigger] deps[k]).job) || allows_start(v, deps[k]),
    ensures
        v.first_block(deps) == Some(
            crate::scheduler::dependencies::block_reason(deps[i], v.states[deps[i].job]),
        ),
    decreases deps.len(),
{
    if i > 0 {
        assert(!known_ended(v, deps[0].job) || allows_start(v, deps[0]));
        let rest = deps.drop_first();
        assert forall|k: int| 0 <= k < i - 1 implies !known_ended(v, (#[trigger] rest[k]).job)
            || allows_start(v, rest[k]) by {
            assert(rest[k] == deps[k + 1]);
        }
        assert(rest[i - 1] == deps[i]);
        lemma_first_obstacle(v, rest, i - 1);
    }
}

/// The jobs that a job waits for are named in the order in which it declares them: one more
/// dependency adds its job at the end, if that has not ended.
pub proof fn law_awaited_jobs_are_named_in_order(
    resolver: &DependencyResolver,
    job: &str,
    longer: &str,
    dep: DependencyView,
    r: DependencyStatus,
    s: DependencyStatus,
)
    requires
        call_ensures(DependencyResolver::check_dependencies, (resolver, job), r),
        call_ensures(DependencyResolver::check_dependencies, (resolver, longer), s),
        resolver@.dependencies.dom().contains(job@),
        resolver@.dependencies.dom().contains(longer@),
        resolver@.dependencies[longer@] == resolver@.dependencies[job@].push(dep),
        s is Waiting,
    ensures
        !(r is Failed),
        ({
            let before = if r is Waiting {
                r->pending_deps.deep_view()
            } else {
                Seq::empty()
            };
            s->pending_deps.deep_view() == (if known_ended(resolver@, dep.job) {
                before
            } else {
                before.push(dep.job)
            })
        }),
{
    let v = resolver@;
    let deps = v.dependencies[job@];
    let more = v.dependencies[longer@];
    law_start_follows_ends(resolver, job, r);
    law_start_follows_ends(resolver, longer, s);
    assert(more.drop_last() =~= deps);
    if r is Failed {
        let i = choose|i: int|
            0 <= i < deps.len() && known_ended(v, (#[trigger] deps[i]).job) && !allows_start(
                v,
                deps[i],
            );
        assert(more[i] == deps[i]);
    }
    assert(r@ == v.status(job@));
    assert(s@ == v.status(longer@));
    if r is Satisfied {
        assert(v.open_jobs(deps) =~= Seq::<Seq<char>>::empty());
    }
    if known_ended(v, dep.job) && !allows_start(v, dep) {
        assert(more[deps.len() as int] == dep);
    }
}

/// Dependencies that go in circles are refused by naming every job that leads into one.
pub proof fn law_jobs_in_circles_are_named(
    resolver: &DependencyResolver,
    walk: Seq<Seq<char>>,
    r: Result<(), BuboError>,
)
    requires
        call_ensures(DependencyResolver::validate_no_cycles, (resolver,), r),
        walk.len() >= 2,
        walk[0] == walk.last(),
        leads_on(resolver@, walk),
    ensures
        r is Err,
        shows((r->Err_0->ValidationError_reason)@, walk[0]),
{
    law_circles_are_refused(resolver, walk, r);
    let v = resolver@;
    assert forall|i: int| 0 <= i < walk.len() - 1 implies v.depends_on(
        #[trigger] walk[i],
        walk[i + 1],
    ) by {
        let deps = v.dependencies[walk[i]];
        let k = choose|k: int| 0 <= k < deps.len() && (#[trigger] deps[k]).job == walk[i + 1];
        assert(v.declared(walk[i])[k].job == walk[i + 1]);
    }
    assert(v.is_walk(walk));
    assert(crate::scheduler::dependencies::is_position(0));
    assert(v.reaches_cycle(walk[0]));
    let e = r->Err_0;
    let jobs = choose|jobs: Seq<Seq<char>>|
        jobs.no_duplicates() && (forall|x: Seq<char>| #[trigger]
            jobs.contains(x) <==> v.reaches_cycle(x)) && e@ == (
        crate::model::error::ErrorView::ValidationError {
            reason: #[trigger] crate::scheduler::dependencies::cycle_message(jobs),
        });
    assert(jobs.contains(walk[0]));
    lemma_joined_shows(jobs, ", "@, jobs.index_of(walk[0]));
    lemma_shows();
}

proof fn lemma_joined_shows(parts: Seq<Seq<char>>, sep: Seq<char>, i: int)
    requires
        0 <= i < parts.len(),
    ensures
        shows(crate::text::joined(parts, sep), parts[i]),
    decreases parts.len(),
{
    lemma_shows();
    if parts.len() > 1 && i < parts.len() - 1 {
        lemma_joined_shows(parts.drop_last(), sep, i);
    }
}

} // verus!
