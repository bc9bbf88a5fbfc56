//! Which jobs and queues are admitted.

use vstd::prelude::*;
use crate::model::error::BuboError;
use crate::model::types::ExecutionBackendType;
use crate::model::walltime::WalltimeDuration;
use crate::text::{is_white_space, trimmed, trimmed_end, trimmed_start};
use crate::wren::crd::{WrenJobSpec, WrenQueueSpec};
use crate::wren::webhook::{
    admission_allowed, admission_denied, blank, dependency_errors, review_wrenjob, review_wrenqueue,
    validate_wrenjob, validate_wrenqueue, AdmissionResponse, AdmissionReview,
};

verus! {

/// Whether a text has a visible ASCII character.
pub open spec fn says_something(text: Seq<char>) -> bool {
    exists|i: int| 0 <= i < text.len() && '!' <= #[trigger] text[i] && text[i] <= '~'
}

/// Whether a text is empty, or has nothing but spaces, tabs and line ends.
pub open spec fn says_nothing(text: Seq<char>) -> bool {
    forall|i: int|
        0 <= i < text.len() ==> #[trigger] text[i] == ' ' || text[i] == '\t' || text[i] == '\n'
            || text[i] == '\r'
}

proof fn lemma_blank(text: Seq<char>)
    ensures
        says_nothing(text) ==> blank(text),
        says_something(text) ==> !blank(text),
{
    if says_nothing(text) {
        assert forall|i: int| 0 <= i < text.len() implies is_white_space(#[trigger] text[i]) by {
            assert(text[i] == ' ' || text[i] == '\t' || text[i] == '\n' || text[i] == '\r');
        }
        lemma_all_white(text);
    }
    if says_something(text) {
        let i = choose|i: int| 0 <= i < text.len() && '!' <= #[trigger] text[i] && text[i] <= '~';
        lemma_start_keeps(text, i);
        let rest = trimmed_start(text);
        let k = i - (text.len() - rest.len());
        assert(!is_white_space(text[i]));
        assert(rest[k] == text[i]);
        lemma_end_keeps(rest, k);
    }
}

proof fn lemma_all_white(s: Seq<char>)
    requires
        forall|i: int| 0 <= i < s.len() ==> is_white_space(#[trigger] s[i]),
    ensures
        trimmed_start(s).len() == 0,
        trimmed(s).len() == 0,
    decreases s.len(),
{
    if s.len() > 0 {
        assert(is_white_space(s[0]));
        assert forall|i: int| 0 <= i < s.drop_first().len() implies is_white_space(
            #[trigger] s.drop_first()[i],
        ) by {
            assert(is_white_space(s[i + 1]));
        }
        lemma_all_white(s.drop_first());
    }
}

proof fn lemma_start_keeps(s: Seq<char>, i: int)
    requires
        0 <= i < s.len(),
        !is_white_space(s[i]),
    ensures
        trimmed_start(s).len() <= s.len(),
        s.len() - trimmed_start(s).len() <= i,
        trimmed_start(s) == s.skip(s.len() - trimmed_start(s).len()),
    decreases s.len(),
{
    if is_white_space(s[0]) {
        let rest = s.drop_first();
        assert(rest[i - 1] == s[i]);
        lemma_start_keeps(rest, i - 1);
        let t = trimmed_start(rest);
        assert(rest.skip(rest.len() - t.len()) =~= s.skip(s.len() - t.len()));
    } else {
        assert(s.skip(0) =~= s);
    }
}

proof fn lemma_end_keeps(s: Seq<char>, i: int)
    requires
        0 <= i < s.len(),
        !is_white_space(s[i]),
    ensures
        trimmed_end(s).len() > i,
    decreases s.len(),
{
    if is_white_space(s.last()) {
        assert(i < s.len() - 1);
        assert(s.drop_last()[i] == s[i]);
        lemma_end_keeps(s.drop_last(), i);
    }
}

proof fn lemma_some_dependency(deps: Seq<crate::model::crd::DependencyView>)
    ensures
        dependency_errors(deps).len() == 0 <==> forall|i: int|
            0 <= i < deps.len() ==> !blank((#[trigger] deps[i]).job),
    decreases deps.len(),
{
    if deps.len() > 0 {
        let rest = deps.drop_last();
        lemma_some_dependency(rest);
        let last = deps.len() - 1;
        if forall|i: int| 0 <= i < deps.len() ==> !blank((#[trigger] deps[i]).job) {
            assert forall|i: int| 0 <= i < rest.len() implies !blank((#[trigger] rest[i]).job) by {
                assert(!blank(deps[i].job));
            }
            assert(!blank(deps[last].job));
        }
        if dependency_errors(deps).len() == 0 {
            assert forall|i: int| 0 <= i < deps.len() implies !blank((#[trigger] deps[i]).job) by {
                if i < last {
                    assert(rest[i] == deps[i]);
                }
            }
        }
    }
}

/// A job is not admitted where it breaks a rule: it needs nodes and tasks, a walltime that can
/// be read if it states one, what its backend runs, a priority in range, a queue, and a name
/// for each job that it depends on.
pub proof fn law_jobs_that_break_a_rule_are_refused(
    spec: &WrenJobSpec,
    walltime: &str,
    read: Result<WalltimeDuration, BuboError>,
    i: int,
    r: Result<(), Vec<String>>,
)
    requires
        call_ensures(validate_wrenjob, (spec,), r),
        call_ensures(WalltimeDuration::parse, (walltime,), read),
    ensures
        spec.nodes == 0 ==> r is Err,
        spec.tasks_per_node == 0 ==> r is Err,
        spec.walltime is Some && spec.walltime->0@ == walltime@ && read is Err ==> r is Err,
        spec.priority > 10_000 || spec.priority < -10_000 ==> r is Err,
        says_nothing(spec.queue@) ==> r is Err,
        spec.backend == ExecutionBackendType::Container && (spec.container is None || says_nothing(
            spec.container->0.image@,
        )) ==> r is Err,
        spec.backend == ExecutionBackendType::Reaper && (spec.reaper is None
            || spec.reaper->0.script is None || says_nothing(spec.reaper->0.script->0@)) ==> r is Err,
        0 <= i < spec.dependencies@.len() && says_nothing(spec.dependencies@[i].job@) ==> r is Err,
        r is Err ==> r->Err_0@.len() > 0,
{
    lemma_blank(spec.queue@);
    if spec.container is Some {
        lemma_blank(spec.container->0.image@);
    }
    if spec.reaper is Some && spec.reaper->0.script is Some {
        lemma_blank(spec.reaper->0.script->0@);
    }
    let deps = spec.dependencies.deep_view();
    lemma_some_dependency(deps);
    if 0 <= i < spec.dependencies@.len() {
        lemma_blank(spec.dependencies@[i].job@);
        assert(deps[i] == spec.dependencies@[i].deep_view());
    }
    if r is Err {
        assert(r->Err_0.deep_view().len() == r->Err_0@.len());
    }
}

/// A job that breaks no rule is admitted.
pub proof fn law_jobs_within_the_rules_are_admitted(
    spec: &WrenJobSpec,
    walltime: &str,
    read: Result<WalltimeDuration, BuboError>,
    r: Result<(), Vec<String>>,
)
    requires
        call_ensures(validate_wrenjob, (spec,), r),
        call_ensures(WalltimeDuration::parse, (walltime,), read),
        spec.nodes > 0,
        spec.tasks_per_node > 0,
        spec.walltime is Some ==> spec.walltime->0@ == walltime@ && read is Ok,
        -10_000 <= spec.priority <= 10_000,
        says_something(spec.queue@),
        spec.backend == ExecutionBackendType::Container ==> spec.container is Some
            && says_something(spec.container->0.image@),
        spec.backend == ExecutionBackendType::Reaper ==> spec.reaper is Some
            && spec.reaper->0.script is Some && says_something(spec.reaper->0.script->0@),
        forall|i: int|
            0 <= i < spec.dependencies@.len() ==> says_something(
                (#[trigger] spec.dependencies@[i]).job@,
            ),
    ensures
        r is Ok,
{
    lemma_blank(spec.queue@);
    if spec.container is Some {
        lemma_blank(spec.container->0.image@);
    }
    if spec.reaper is Some && spec.reaper->0.script is Some {
        lemma_blank(spec.reaper->0.script->0@);
    }
    let deps = spec.dependencies.deep_view();
    lemma_some_dependency(deps);
    assert forall|i: int| 0 <= i < deps.len() implies !blank((#[trigger] deps[i]).job) by {
        assert(says_something(spec.dependencies@[i].job@));
        lemma_blank(spec.dependencies@[i].job@);
    }
}

/// A queue is admitted exactly where it has nodes, a maximum walltime that can be read if it
/// states one, a default priority in range, and allows its users a job if it limits them.
pub proof fn law_queues_are_admitted_by_rule(
    spec: &WrenQueueSpec,
    walltime: &str,
    read: Result<WalltimeDuration, BuboError>,
    r: Result<(), Vec<String>>,
)
    requires
        call_ensures(validate_wrenqueue, (spec,), r),
        call_ensures(WalltimeDuration::parse, (walltime,), read),
        spec.max_walltime is Some ==> spec.max_walltime->0@ == walltime@,
    ensures
        r is Ok <==> spec.max_nodes > 0 && (spec.max_walltime is Some ==> read is Ok) && -10_000
            <= spec.default_priority <= 10_000 && (spec.max_jobs_per_user is Some
            ==> spec.max_jobs_per_user->0 > 0),
{
}

/// A review answers to the request that it was asked with, admits exactly what passes the
/// rules, and else refuses it and says all that is wrong.
pub proof fn law_reviews_answer_by_the_rules(
    review: &AdmissionReview<WrenJobSpec>,
    queue_review: &AdmissionReview<WrenQueueSpec>,
    checked: Result<(), Vec<String>>,
    queue_checked: Result<(), Vec<String>>,
    r: AdmissionResponse,
    queue_r: AdmissionResponse,
)
    requires
        call_ensures(review_wrenjob, (review,), r),
        call_ensures(review_wrenqueue, (queue_review,), queue_r),
        call_ensures(validate_wrenjob, (&review.request.object,), checked),
        call_ensures(validate_wrenqueue, (&queue_review.request.object,), queue_checked),
    ensures
        answers_by(r, review.request.uid@, checked),
        answers_by(queue_r, queue_review.request.uid@, queue_checked),
{
}

/// Whether a response answers to `uid` by what a check found.
pub open spec fn answers_by(
    r: AdmissionResponse,
    uid: Seq<char>,
    checked: Result<(), Vec<String>>,
) -> bool {
    &&& r.response.uid@ == uid
    &&& r.kind@ == "AdmissionReview"@
    &&& r.api_version@ == "admission.k8s.io/v1"@
    &&& r.response.allowed <==> checked is Ok
    &&& r.response.status is None <==> checked is Ok
    &&& checked is Err ==> r.response.status->0.code == 422 && r.response.status->0.message@
        == crate::text::joined(checked->Err_0.deep_view(), "; "@)
}

/// An answer that admits says so and nothing else; one that refuses says why. Both answer to
/// the request.
pub proof fn law_answers_name_the_request(
    uid: String,
    errors: Vec<String>,
    allowed: AdmissionResponse,
    denied: AdmissionResponse,
)
    requires
        call_ensures(admission_allowed, (uid,), allowed),
        call_ensures(admission_denied, (uid, errors), denied),
    ensures
        allowed.response.allowed && allowed.response.status is None,
        allowed.response.uid@ == uid@,
        !denied.response.allowed && denied.response.status is Some,
        denied.response.uid@ == uid@,
        denied.response.status->0.code == 422,
        denied.response.status->0.message@ == crate::text::joined(errors.deep_view(), "; "@),
{
}

} // verus!
