//! Admission of jobs and queues: what is checked before they are accepted.

use vstd::prelude::*;
use vstd::string::*;
use crate::controller::launch::{concat, push_word};
use crate::model::crd::{DependencyView, JobDependency};
use crate::model::types::ExecutionBackendType;
use crate::model::walltime::{walltime_fits, walltime_seconds, WalltimeDuration};
use crate::text::{dec, decimal, join, joined, signed_dec, signed_decimal, trim, trimmed};
use crate::wren::crd::{ReaperSpec, WrenJobSpec, WrenQueueSpec};

verus! {

/// A request to admit an object.
pub struct AdmissionReview<T> {
    pub api_version: String,
    pub kind: String,
    pub request: AdmissionRequest<T>,
}

/// The object to admit, and the identifier to answer with.
pub struct AdmissionRequest<T> {
    pub uid: String,
    pub object: T,
}

/// The answer to an [`AdmissionReview`].
#[derive(Clone, Debug, PartialEq, Eq)]
pub struct AdmissionResponse {
    pub api_version: String,
    pub kind: String,
    pub response: AdmissionResponseBody,
}

/// Whether the object is admitted, and else why not.
#[derive(Clone, Debug, PartialEq, Eq)]
pub struct AdmissionResponseBody {
    pub uid: String,
    pub allowed: bool,
    pub status: Option<AdmissionStatus>,
}

/// Why an object is not admitted.
#[derive(Clone, Debug, PartialEq, Eq)]
pub struct AdmissionStatus {
    pub code: u16,
    pub message: String,
}

/// A message where something is wrong, and else none.
pub open spec fn when(wrong: bool, message: Seq<char>) -> Seq<Seq<char>> {
    if wrong {
        seq![message]
    } else {
        Seq::empty()
    }
}

/// Whether a text has nothing but white space.
pub open spec fn blank(text: Seq<char>) -> bool {
    trimmed(text).len() == 0
}

/// Whether a walltime is stated that denotes no duration.
pub open spec fn bad_walltime(walltime: Option<Seq<char>>) -> bool {
    walltime is Some && walltime_seconds(walltime->0) is None
}

/// What is said of a walltime that denotes no duration.
pub open spec fn walltime_advice(field: Seq<char>, walltime: Seq<char>) -> Seq<char> {
    field + " '"@ + walltime + "' is invalid; use formats like '4h', '30m', '1d', '2h30m'"@
}

/// Whether a priority lies outside the range of priorities.
pub open spec fn bad_priority(priority: i32) -> bool {
    priority < -10000 || priority > 10000
}

/// What is said of a priority outside the range of priorities.
pub open spec fn priority_advice(field: Seq<char>, priority: i32) -> Seq<char> {
    field + " "@ + signed_dec(priority as int)
        + " is out of range; must be between -10000 and 10000"@
}

/// What is wrong with the container of a job that runs in one.
pub open spec fn container_errors(spec: WrenJobSpec) -> Seq<Seq<char>> {
    match spec.container {
        None => seq!["backend 'container' requires a container spec to be provided"@],
        Some(c) => when(blank(c.image@), "container.image must not be empty"@),
    }
}

/// Whether there is no script, or one of nothing but white space.
pub open spec fn lacks_script(reaper: ReaperSpec) -> bool {
    match reaper.script {
        Some(script) => blank(script@),
        None => true,
    }
}

/// What is wrong with the script of a job that runs on bare metal.
pub open spec fn reaper_errors(spec: WrenJobSpec) -> Seq<Seq<char>> {
    match spec.reaper {
        None => seq!["backend 'reaper' requires a reaper spec to be provided"@],
        Some(reaper) => when(lacks_script(reaper), "reaper.script must not be empty"@),
    }
}

/// What is wrong with what the backend of a job needs.
pub open spec fn backend_errors(spec: WrenJobSpec) -> Seq<Seq<char>> {
    match spec.backend {
        ExecutionBackendType::Container => container_errors(spec),
        ExecutionBackendType::Reaper => reaper_errors(spec),
    }
}

/// What is wrong with dependencies: those that name no job, by their positions.
pub open spec fn dependency_errors(deps: Seq<DependencyView>) -> Seq<Seq<char>>
    decreases deps.len(),
{
    if deps.len() == 0 {
        Seq::empty()
    } else {
        dependency_errors(deps.drop_last()) + when(
            blank(deps.last().job),
            "dependencies["@ + dec((deps.len() - 1) as nat) + "].job must not be empty"@,
        )
    }
}

/// Everything that is wrong with a job, in the order of the rules.
pub open spec fn job_errors(spec: WrenJobSpec) -> Seq<Seq<char>> {
    when(spec.nodes == 0, "nodes must be greater than 0"@) + when(
        spec.tasks_per_node == 0,
        "tasksPerNode must be greater than 0"@,
    ) + when(
        bad_walltime(spec.walltime.deep_view()),
        walltime_advice("walltime"@, spec.walltime->0@),
    ) + backend_errors(spec) + when(
        bad_priority(spec.priority),
        priority_advice("priority"@, spec.priority),
    ) + when(blank(spec.queue@), "queue must not be empty"@) + dependency_errors(
        spec.dependencies.deep_view(),
    )
}

/// Everything that is wrong with a queue, in the order of the rules.
pub open spec fn queue_errors(spec: WrenQueueSpec) -> Seq<Seq<char>> {
    when(spec.max_nodes == 0, "maxNodes must be greater than 0"@) + when(
        bad_walltime(spec.max_walltime.deep_view()),
        walltime_advice("maxWalltime"@, spec.max_walltime->0@),
    ) + when(
        bad_priority(spec.default_priority),
        priority_advice("defaultPriority"@, spec.default_priority),
    ) + when(
        spec.max_jobs_per_user == Some(0u32),
        "maxJobsPerUser must be greater than 0 if set"@,
    )
}

fn push_when(errors: &mut Vec<String>, wrong: bool, message: &str)
    ensures
        final(errors).deep_view() == old(errors).deep_view() + when(wrong, message@),
{
    let ghost before = errors.deep_view();
    if wrong {
        push_word(errors, message);
    }
    proof {
        assert(errors.deep_view() =~= before + when(wrong, message@));
    }
}

fn is_blank(text: &str) -> (r: bool)
    ensures
        r == blank(text@),
{
    trim(text).unicode_len() == 0
}

fn push_walltime_advice(errors: &mut Vec<String>, field: &str, walltime: &Option<String>)
    requires
        walltime is Some ==> walltime_fits(walltime->0@),
    ensures
        final(errors).deep_view() == old(errors).deep_view() + when(
            bad_walltime(walltime.deep_view()),
            walltime_advice(field@, walltime->0@),
        ),
{
    let ghost before = errors.deep_view();
    match walltime {
        Some(text) => {
            let wrong = WalltimeDuration::parse(text.as_str()).is_err();
            let mut message = concat(field, " '");
            message.append(text.as_str());
            message.append("' is invalid; use formats like '4h', '30m', '1d', '2h30m'");
            push_when(errors, wrong, message.as_str());
        },
        None => {
            proof {
                assert(before + when(false, walltime_advice(field@, walltime->0@)) =~= before);
            }
        },
    }
}

fn push_priority_advice(errors: &mut Vec<String>, field: &str, priority: i32)
    ensures
        final(errors).deep_view() == old(errors).deep_view() + when(
            bad_priority(priority),
            priority_advice(field@, priority),
        ),
{
    let mut message = concat(field, " ");
    message.append(signed_decimal(priority as i64).as_str());
    message.append(" is out of range; must be between -10000 and 10000");
    push_when(errors, priority < -10000 || priority > 10000, message.as_str());
}

fn push_backend_errors(errors: &mut Vec<String>, spec: &WrenJobSpec)
    ensures
        final(errors).deep_view() == old(errors).deep_view() + backend_errors(*spec),
{
    match spec.backend {
        ExecutionBackendType::Container => match &spec.container {
            None => push_when(
                errors,
                true,
                "backend 'container' requires a container spec to be provided",
            ),
            Some(c) => push_when(
                errors,
                is_blank(c.image.as_str()),
                "container.image must not be empty",
            ),
        },
        ExecutionBackendType::Reaper => match &spec.reaper {
            None => push_when(
                errors,
                true,
                "backend 'reaper' requires a reaper spec to be provided",
            ),
            Some(reaper) => {
                let wrong = match &reaper.script {
                    Some(script) => is_blank(script.as_str()),
                    None => true,
                };
                push_when(errors, wrong, "reaper.script must not be empty");
            },
        },
    }
}

fn push_dependency_errors(errors: &mut Vec<String>, deps: &Vec<JobDependency>)
    ensures
        final(errors).deep_view() == old(errors).deep_view() + dependency_errors(
            deps.deep_view(),
        ),
{
    let ghost before = errors.deep_view();
    let ghost all = deps.deep_view();
    let mut i: usize = 0;
    proof {
        assert(before + dependency_errors(all.take(0)) =~= before);
    }
    while i < deps.len()
        invariant
            i <= deps.len(),
            all == deps.deep_view(),
            errors.deep_view() == before + dependency_errors(all.take(i as int)),
        decreases deps.len() - i,
    {
        let mut message = "dependencies[".to_owned();
        message.append(decimal(i as u64).as_str());
        message.append("].job must not be empty");
        push_when(errors, is_blank(deps[i].job.as_str()), message.as_str());
        proof {
            let next = all.take(i + 1);
            assert(next.drop_last() =~= all.take(i as int));
            assert(next.last().job == deps[i as int].job@);
            assert(errors.deep_view() =~= before + dependency_errors(next));
        }
        i += 1;
    }
    proof {
        assert(all.take(all.len() as int) =~= all);
    }
}

/// Checks a job: every rule that it breaks is named.
pub fn validate_wrenjob(spec: &WrenJobSpec) -> (r: Result<(), Vec<String>>)
    requires
        spec.walltime is Some ==> walltime_fits(spec.walltime->0@),
    ensures
        match r {
            Ok(_) => job_errors(*spec).len() == 0,
            Err(errors) => job_errors(*spec).len() > 0 && errors.deep_view() == job_errors(*spec),
        },
{
    let mut errors: Vec<String> = Vec::new();
    push_when(&mut errors, spec.nodes == 0, "nodes must be greater than 0");
    proof {
        assert(errors.deep_view() =~= when(spec.nodes == 0, "nodes must be greater than 0"@));
    }
    push_when(&mut errors, spec.tasks_per_node == 0, "tasksPerNode must be greater than 0");
    push_walltime_advice(&mut errors, "walltime", &spec.walltime);
    push_backend_errors(&mut errors, spec);
    push_priority_advice(&mut errors, "priority", spec.priority);
    push_when(&mut errors, is_blank(spec.queue.as_str()), "queue must not be empty");
    push_dependency_errors(&mut errors, &spec.dependencies);
    proof {
        assert(errors.deep_view() == job_errors(*spec));
        assert(errors@.len() == errors.deep_view().len());
    }
    if errors.is_empty() {
        Ok(())
    } else {
        Err(errors)
    }
}

/// Checks a queue: every rule that it breaks is named.
pub fn validate_wrenqueue(spec: &WrenQueueSpec) -> (r: Result<(), Vec<String>>)
    requires
        spec.max_walltime is Some ==> walltime_fits(spec.max_walltime->0@),
    ensures
        match r {
            Ok(_) => queue_errors(*spec).len() == 0,
            Err(errors) => queue_errors(*spec).len() > 0 && errors.deep_view() == queue_errors(
                *spec,
            ),
        },
{
    let mut errors: Vec<String> = Vec::new();
    push_when(&mut errors, spec.max_nodes == 0, "maxNodes must be greater than 0");
    proof {
        assert(errors.deep_view() =~= when(
            spec.max_nodes == 0,
            "maxNodes must be greater than 0"@,
        ));
    }
    push_walltime_advice(&mut errors, "maxWalltime", &spec.max_walltime);
    push_priority_advice(&mut errors, "defaultPriority", spec.default_priority);
    let no_jobs = match spec.max_jobs_per_user {
        Some(max) => max == 0,
        None => false,
    };
    push_when(&mut errors, no_jobs, "maxJobsPerUser must be greater than 0 if set");
    proof {
        assert(errors.deep_view() == queue_errors(*spec));
        assert(errors@.len() == errors.deep_view().len());
    }
    if errors.is_empty() {
        Ok(())
    } else {
        Err(errors)
    }
}

/// Whether `r` answers the request `uid` about an object that breaks the rules that
/// `errors` name: it is admitted exactly where there are none, and else all of them
/// are given.
pub open spec fn answers(r: AdmissionResponse, uid: Seq<char>, errors: Seq<Seq<char>>) -> bool {
    &&& r.api_version@ == "admission.k8s.io/v1"@
    &&& r.kind@ == "AdmissionReview"@
    &&& r.response.uid@ == uid
    &&& r.response.allowed <==> errors.len() == 0
    &&& match r.response.status {
        Some(status) => errors.len() > 0 && status.code == 422 && status.message@ == joined(
            errors,
            "; "@,
        ),
        None => errors.len() == 0,
    }
}

/// The answer that admits an object.
pub fn admission_allowed(uid: String) -> (r: AdmissionResponse)
    ensures
        answers(r, uid@, Seq::empty()),
{
    AdmissionResponse {
        api_version: "admission.k8s.io/v1".to_owned(),
        kind: "AdmissionReview".to_owned(),
        response: AdmissionResponseBody { uid, allowed: true, status: None },
    }
}

/// The answer that refuses an object.
pub fn admission_denied(uid: String, errors: Vec<String>) -> (r: AdmissionResponse)
    ensures
        r.api_version@ == "admission.k8s.io/v1"@,
        r.kind@ == "AdmissionReview"@,
        r.response.uid@ == uid@,
        !r.response.allowed,
        r.response.status is Some,
        r.response.status->0.code == 422,
        r.response.status->0.message@ == joined(errors.deep_view(), "; "@),
{
    let message = join(&errors, "; ");
    AdmissionResponse {
        api_version: "admission.k8s.io/v1".to_owned(),
        kind: "AdmissionReview".to_owned(),
        response: AdmissionResponseBody {
            uid,
            allowed: false,
            status: Some(AdmissionStatus { code: 422, message }),
        },
    }
}

/// Decides on the admission of a job.
pub fn review_wrenjob(review: &AdmissionReview<WrenJobSpec>) -> (r: AdmissionResponse)
    requires
        review.request.object.walltime is Some ==> walltime_fits(
            review.request.object.walltime->0@,
        ),
    ensures
        answers(r, review.request.uid@, job_errors(review.request.object)),
{
    let uid = review.request.uid.clone();
    match validate_wrenjob(&review.request.object) {
        Ok(_) => {
            proof {
                assert(job_errors(review.request.object) =~= Seq::empty());
            }
            admission_allowed(uid)
        },
        Err(errors) => admission_denied(uid, errors),
    }
}

/// Decides on the admission of a queue.
pub fn review_wrenqueue(review: &AdmissionReview<WrenQueueSpec>) -> (r: AdmissionResponse)
    requires
        review.request.object.max_walltime is Some ==> walltime_fits(
            review.request.object.max_walltime->0@,
        ),
    ensures
        answers(r, review.request.uid@, queue_errors(review.request.object)),
{
    let uid = review.request.uid.clone();
    match validate_wrenqueue(&review.request.object) {
        Ok(_) => {
            proof {
                assert(queue_errors(review.request.object) =~= Seq::empty());
            }
            admission_allowed(uid)
        },
        Err(errors) => admission_denied(uid, errors),
    }
}

proof fn lemma_named_dependencies(deps: Seq<DependencyView>)
    ensures
        dependency_errors(deps).len() == 0 <==> forall|i: int|
            0 <= i < deps.len() ==> !blank((#[trigger] deps[i]).job),
    decreases deps.len(),
{
    if deps.len() > 0 {
        let rest = deps.drop_last();
        lemma_named_dependencies(rest);
        if dependency_errors(deps).len() == 0 {
            assert forall|i: int| 0 <= i < deps.len() implies !blank((#[trigger] deps[i]).job) by {
                if i < rest.len() {
                    assert(rest[i] == deps[i]);
                }
            }
        }
        if forall|i: int| 0 <= i < deps.len() ==> !blank((#[trigger] deps[i]).job) {
            assert forall|i: int| 0 <= i < rest.len() implies !blank((#[trigger] rest[i]).job) by {
                assert(rest[i] == deps[i]);
            }
            assert(!blank(deps[deps.len() - 1].job));
        }
    }
}

/// A job is admitted exactly when it asks for nodes and tasks, states a walltime that
/// makes sense if it states one, has what its backend needs, has a priority in range,
/// and names its queue and the jobs that it depends on.
pub proof fn law_job_is_admitted_by_all_rules(spec: WrenJobSpec)
    ensures
        job_errors(spec).len() == 0 <==> {
            &&& spec.nodes > 0
            &&& spec.tasks_per_node > 0
            &&& spec.walltime is Some ==> walltime_seconds(spec.walltime->0@) is Some
            &&& spec.backend == ExecutionBackendType::Container ==> spec.container is Some && !blank(
                spec.container->0.image@,
            )
            &&& spec.backend == ExecutionBackendType::Reaper ==> spec.reaper is Some
                && spec.reaper->0.script is Some && !blank(spec.reaper->0.script->0@)
            &&& -10000 <= spec.priority <= 10000
            &&& !blank(spec.queue@)
            &&& forall|i: int|
                0 <= i < spec.dependencies@.len() ==> !blank(
                    (#[trigger] spec.dependencies@[i]).job@,
                )
        },
{
    let deps = spec.dependencies.deep_view();
    lemma_named_dependencies(deps);
    assert(forall|i: int| 0 <= i < deps.len() ==> deps[i].job == #[trigger] spec.dependencies@[i].job@);
    if forall|i: int|
        0 <= i < spec.dependencies@.len() ==> !blank((#[trigger] spec.dependencies@[i]).job@) {
        assert forall|i: int| 0 <= i < deps.len() implies !blank((#[trigger] deps[i]).job) by {
            assert(!blank(spec.dependencies@[i].job@));
        }
    }
    if forall|i: int| 0 <= i < deps.len() ==> !blank((#[trigger] deps[i]).job) {
        assert forall|i: int| 0 <= i < spec.dependencies@.len() implies !blank(
            (#[trigger] spec.dependencies@[i]).job@,
        ) by {
            assert(!blank(deps[i].job));
        }
    }
}

/// A queue is admitted exactly when it has nodes, states a maximum walltime that makes
/// sense if it states one, has a default priority in range, and allows its users some
/// job if it limits them.
pub proof fn law_queue_is_admitted_by_all_rules(spec: WrenQueueSpec)
    ensures
        queue_errors(spec).len() == 0 <==> {
            &&& spec.max_nodes > 0
            &&& spec.max_walltime is Some ==> walltime_seconds(spec.max_walltime->0@) is Some
            &&& -10000 <= spec.default_priority <= 10000
            &&& spec.max_jobs_per_user is Some ==> spec.max_jobs_per_user->0 > 0
        },
{
}

} // verus!
