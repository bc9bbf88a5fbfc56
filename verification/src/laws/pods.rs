//! How a job is doing, told from its pods.

use vstd::prelude::*;
use crate::bubo;
use crate::controller::manifest::{PodReport, ReportView};
use crate::controller::pods::{label_of, launcher_of, worker_count, workers_in_phase};
use crate::model::backend::BackendJobStatus;
use crate::wren;

verus! {

/// Whether a pod bears the role `role` under the label `key`.
pub open spec fn has_role(pod: PodReport, key: Seq<char>, role: Seq<char>) -> bool {
    pod.labels is Some && pod.labels->0@.dom().contains(key) && pod.labels->0@[key] == role
}

/// Whether a pod is known to be in the phase `phase`.
pub open spec fn is_in(pod: PodReport, phase: Seq<char>) -> bool {
    pod.phase is Some && pod.phase->0@ == phase
}

/// Whether some worker is in the phase `phase`.
pub open spec fn some_worker(pods: Seq<PodReport>, key: Seq<char>, phase: Seq<char>) -> bool {
    exists|i: int|
        0 <= i < pods.len() && has_role(#[trigger] pods[i], key, "worker"@) && is_in(pods[i], phase)
}

/// Whether there is a worker, and every worker is in the phase `phase`.
pub open spec fn all_workers(pods: Seq<PodReport>, key: Seq<char>, phase: Seq<char>) -> bool {
    &&& exists|i: int| 0 <= i < pods.len() && has_role(#[trigger] pods[i], key, "worker"@)
    &&& forall|i: int|
        0 <= i < pods.len() && has_role(#[trigger] pods[i], key, "worker"@) ==> is_in(
            pods[i],
            phase,
        )
}

/// Whether no pod is a launcher.
pub open spec fn no_launcher(pods: Seq<PodReport>, key: Seq<char>) -> bool {
    forall|i: int| 0 <= i < pods.len() ==> !has_role(#[trigger] pods[i], key, "launcher"@)
}

/// Whether the pod at position `k` is the first launcher.
pub open spec fn first_launcher(pods: Seq<PodReport>, key: Seq<char>, k: int) -> bool {
    &&& 0 <= k < pods.len()
    &&& has_role(pods[k], key, "launcher"@)
    &&& forall|i: int| 0 <= i < k ==> !has_role(#[trigger] pods[i], key, "launcher"@)
}

spec fn contents(pods: Seq<PodReport>) -> Seq<ReportView> {
    Seq::new(pods.len(), |i: int| pods[i].deep_view())
}

proof fn lemma_role(pod: PodReport, key: Seq<char>, role: Seq<char>)
    ensures
        has_role(pod, key, role) <==> label_of(pod.deep_view(), key) == Some(role),
{
}

proof fn lemma_counts(pods: Seq<PodReport>, key: Seq<char>, phase: Seq<char>)
    ensures
        workers_in_phase(contents(pods), key, phase) <= worker_count(contents(pods), key)
            <= pods.len(),
        workers_in_phase(contents(pods), key, phase) > 0 <==> some_worker(pods, key, phase),
        worker_count(contents(pods), key) > 0 && workers_in_phase(contents(pods), key, phase)
            == worker_count(contents(pods), key) <==> all_workers(pods, key, phase),
        worker_count(contents(pods), key) > 0 <==> exists|i: int|
            0 <= i < pods.len() && has_role(#[trigger] pods[i], key, "worker"@),
        workers_in_phase(contents(pods), key, phase) == worker_count(contents(pods), key)
            <==> forall|i: int|
            0 <= i < pods.len() && has_role(#[trigger] pods[i], key, "worker"@) ==> is_in(
                pods[i],
                phase,
            ),
    decreases pods.len(),
{
    let all = contents(pods);
    if pods.len() > 0 {
        let rest = pods.drop_last();
        let last = pods.len() - 1;
        lemma_counts(rest, key, phase);
        assert(all.drop_last() =~= contents(rest));
        assert(all.last() == pods[last].deep_view());
        lemma_role(pods[last], key, "worker"@);
        assert forall|i: int| 0 <= i < rest.len() implies #[trigger] rest[i] == pods[i] by {}
        if some_worker(rest, key, phase) {
            let i = choose|i: int|
                0 <= i < rest.len() && has_role(#[trigger] rest[i], key, "worker"@) && is_in(
                    rest[i],
                    phase,
                );
            assert(has_role(pods[i], key, "worker"@));
        }
        if some_worker(pods, key, phase) {
            let i = choose|i: int|
                0 <= i < pods.len() && has_role(#[trigger] pods[i], key, "worker"@) && is_in(
                    pods[i],
                    phase,
                );
            if i < last {
                assert(has_role(rest[i], key, "worker"@));
            }
        }
        if exists|i: int| 0 <= i < rest.len() && has_role(#[trigger] rest[i], key, "worker"@) {
            let i = choose|i: int|
                0 <= i < rest.len() && has_role(#[trigger] rest[i], key, "worker"@);
            assert(has_role(pods[i], key, "worker"@));
        }
        if exists|i: int| 0 <= i < pods.len() && has_role(#[trigger] pods[i], key, "worker"@) {
            let i = choose|i: int|
                0 <= i < pods.len() && has_role(#[trigger] pods[i], key, "worker"@);
            if i < last {
                assert(has_role(rest[i], key, "worker"@));
            }
        }
        if forall|i: int|
            0 <= i < pods.len() && has_role(#[trigger] pods[i], key, "worker"@) ==> is_in(
                pods[i],
                phase,
            ) {
            assert forall|i: int|
                0 <= i < rest.len() && has_role(#[trigger] rest[i], key, "worker"@) implies is_in(
                rest[i],
                phase,
            ) by {
                assert(has_role(pods[i], key, "worker"@));
            }
            assert(has_role(pods[last], key, "worker"@) ==> is_in(pods[last], phase));
        }
        if workers_in_phase(all, key, phase) == worker_count(all, key) {
            assert forall|i: int|
                0 <= i < pods.len() && has_role(#[trigger] pods[i], key, "worker"@) implies is_in(
                pods[i],
                phase,
            ) by {
                if i < last {
                    assert(has_role(rest[i], key, "worker"@));
                }
            }
        }
    }
}

proof fn lemma_launcher(pods: Seq<PodReport>, key: Seq<char>, k: int)
    ensures
        no_launcher(pods, key) ==> launcher_of(contents(pods), key) is None,
        first_launcher(pods, key, k) ==> launcher_of(contents(pods), key) == Some(
            pods[k].deep_view(),
        ),
    decreases pods.len(),
{
    if pods.len() > 0 {
        let rest = pods.drop_first();
        assert(contents(pods).drop_first() =~= contents(rest));
        assert(contents(pods)[0] == pods[0].deep_view());
        lemma_role(pods[0], key, "launcher"@);
        lemma_launcher(rest, key, k - 1);
        if no_launcher(pods, key) {
            assert(!has_role(pods[0], key, "launcher"@));
            assert forall|i: int| 0 <= i < rest.len() implies !has_role(
                #[trigger] rest[i],
                key,
                "launcher"@,
            ) by {
                assert(!has_role(pods[i + 1], key, "launcher"@));
            }
        }
        if first_launcher(pods, key, k) && k > 0 {
            assert(!has_role(pods[0], key, "launcher"@));
            assert(rest[k - 1] == pods[k]);
            assert forall|i: int| 0 <= i < k - 1 implies !has_role(
                #[trigger] rest[i],
                key,
                "launcher"@,
            ) by {
                assert(!has_role(pods[i + 1], key, "launcher"@));
            }
        }
    }
}

/// Without a launcher the workers of a Wren job decide together: it has failed exactly
/// when a worker has, it has succeeded exactly when all of its workers have, it runs
/// while one of them runs or has ended and others have not, and it is being launched
/// before that. Without any pod it is not found.
pub proof fn law_workers_decide_together(pods: &[PodReport], r: BackendJobStatus)
    requires
        call_ensures(wren::container::interpret_pod_status, (pods,), r),
        pods@.len() <= u32::MAX,
        no_launcher(pods@, "wren.giar.dev/role"@),
    ensures
        ({
            let key = "wren.giar.dev/role"@;
            let failed = some_worker(pods@, key, "Failed"@);
            let done = all_workers(pods@, key, "Succeeded"@);
            &&& r is NotFound <==> pods@.len() == 0
            &&& r is Failed <==> failed
            &&& r is Succeeded <==> done
            &&& r is Running <==> !failed && !done && (some_worker(pods@, key, "Running"@)
                || some_worker(pods@, key, "Succeeded"@))
            &&& r is Launching ==> r->ready == 0
        }),
{
    let key = "wren.giar.dev/role"@;
    assert(pods.deep_view() =~= contents(pods@));
    lemma_launcher(pods@, key, 0);
    lemma_counts(pods@, key, "Failed"@);
    lemma_counts(pods@, key, "Succeeded"@);
    lemma_counts(pods@, key, "Running"@);
    reveal_strlit("Failed");
    reveal_strlit("Succeeded");
    if some_worker(pods@, key, "Failed"@) && all_workers(pods@, key, "Succeeded"@) {
        let i = choose|i: int|
            0 <= i < pods@.len() && has_role(#[trigger] pods@[i], key, "worker"@) && is_in(
                pods@[i],
                "Failed"@,
            );
        assert(is_in(pods@[i], "Succeeded"@));
        assert("Failed"@.len() == 6 && "Succeeded"@.len() == 9);
    }
}

/// With a launcher it is the launcher that decides how a job ends, under either
/// controller: the job has succeeded or failed exactly when its launcher has, whatever
/// its workers do. Until then it runs exactly while it has workers and all of them run.
pub proof fn law_launcher_decides(pods: &[PodReport], k: int, r: BackendJobStatus, on_wren: bool)
    requires
        on_wren ==> call_ensures(wren::container::interpret_pod_status, (pods,), r),
        !on_wren ==> call_ensures(bubo::container::interpret_pod_status, (pods,), r),
        pods@.len() <= u32::MAX,
        first_launcher(
            pods@,
            if on_wren {
                "wren.giar.dev/role"@
            } else {
                "bubo.io/role"@
            },
            k,
        ),
    ensures
        ({
            let key = if on_wren {
                "wren.giar.dev/role"@
            } else {
                "bubo.io/role"@
            };
            let ended = is_in(pods@[k], "Succeeded"@) || is_in(pods@[k], "Failed"@);
            &&& r is Succeeded <==> is_in(pods@[k], "Succeeded"@)
            &&& r is Failed <==> is_in(pods@[k], "Failed"@)
            &&& r is Failed ==> (r->message)@ == (if pods@[k].message is Some {
                pods@[k].message->0@
            } else {
                "launcher pod failed"@
            })
            &&& r is Running <==> !ended && all_workers(pods@, key, "Running"@)
            &&& r is Launching <==> !ended && !all_workers(pods@, key, "Running"@)
            &&& r is Launching ==> r->ready <= r->total
        }),
{
    let key = if on_wren {
        "wren.giar.dev/role"@
    } else {
        "bubo.io/role"@
    };
    assert(pods.deep_view() =~= contents(pods@));
    lemma_launcher(pods@, key, k);
    lemma_counts(pods@, key, "Running"@);
    reveal_strlit("Failed");
    reveal_strlit("Succeeded");
    assert("Failed"@.len() == 6 && "Succeeded"@.len() == 9);
    assert(pods@[k].deep_view().phase == pods@[k].phase.deep_view());
    assert(pods@[k].deep_view().message == pods@[k].message.deep_view());
}

/// An MPI job of which no pod is a launcher has not ended: it runs exactly while it has
/// workers and all of them run. Without any pod it is not found.
pub proof fn law_job_without_launcher_goes_on(pods: &[PodReport], r: BackendJobStatus)
    requires
        call_ensures(bubo::container::interpret_pod_status, (pods,), r),
        pods@.len() <= u32::MAX,
        no_launcher(pods@, "bubo.io/role"@),
    ensures
        r is NotFound <==> pods@.len() == 0,
        r is Running <==> all_workers(pods@, "bubo.io/role"@, "Running"@),
        !(r is Succeeded) && !(r is Failed),
{
    let key = "bubo.io/role"@;
    assert(pods.deep_view() =~= contents(pods@));
    lemma_launcher(pods@, key, 0);
    lemma_counts(pods@, key, "Running"@);
}

/// While a job is being launched, it is said how many workers it has and how many of them
/// run: each worker that is listed is counted once.
pub proof fn law_launching_counts_workers(
    pods: &[PodReport],
    workers: Seq<int>,
    r: BackendJobStatus,
)
    requires
        call_ensures(bubo::container::interpret_pod_status, (pods,), r),
        pods@.len() <= u32::MAX,
        r is Launching,
        workers.no_duplicates(),
        forall|i: int| #[trigger]
            workers.contains(i) <==> (0 <= i < pods@.len() && has_role(pods@[i], "bubo.io/role"@, "worker"@)),
    ensures
        r->total == workers.len(),
{
    let key = "bubo.io/role"@;
    assert(pods.deep_view() =~= contents(pods@));
    lemma_counts(pods@, key, "Running"@);
    assert forall|i: int| #[trigger]
            workers.contains(i) <==> (0 <= i < pods@.len() && has_role(pods@[i], key, "worker"@)) by {}
    lemma_workers_are_counted(pods@, key, workers);
}

proof fn lemma_workers_are_counted(pods: Seq<PodReport>, key: Seq<char>, workers: Seq<int>)
    requires
        workers.no_duplicates(),
        forall|i: int| #[trigger]
            workers.contains(i) <==> (0 <= i < pods.len() && has_role(pods[i], key, "worker"@)),
    ensures
        worker_count(contents(pods), key) == workers.len(),
    decreases pods.len(),
{
    if pods.len() == 0 {
        if workers.len() > 0 {
            assert(workers.contains(workers[0]));
        }
    } else {
        let last = pods.len() - 1;
        let rest = pods.drop_last();
        assert(contents(pods).drop_last() =~= contents(rest));
        assert(contents(pods).last() == pods[last].deep_view());
        lemma_role(pods[last], key, "worker"@);
        let fewer = if workers.contains(last) {
            workers.remove(workers.index_of(last))
        } else {
            workers
        };
        assert forall|i: int| #[trigger]
            fewer.contains(i) <==> (0 <= i < rest.len() && has_role(rest[i], key, "worker"@)) by {
            if workers.contains(last) {
                let at = workers.index_of(last);
                if fewer.contains(i) {
                    let k = fewer.index_of(i);
                    let b = if k < at {
                        k
                    } else {
                        k + 1
                    };
                    assert(workers[b] == i);
                    assert(workers[b] != workers[at]);
                    assert(workers.contains(i));
                }
                if workers.contains(i) && i != last {
                    let b = workers.index_of(i);
                    let k = if b < at {
                        b
                    } else {
                        b - 1
                    };
                    assert(fewer[k] == i);
                }
            }
            assert(workers.contains(i) <==> (0 <= i < pods.len() && has_role(pods[i], key, "worker"@)));
        }
        lemma_workers_are_counted(rest, key, fewer);
        assert(workers.contains(last) <==> has_role(pods[last], key, "worker"@));
    }
}

/// While a launcher has not ended, the workers that run are counted, each once, under either
/// controller.
pub proof fn law_ready_workers_are_counted(
    pods: &[PodReport],
    k: int,
    running: Seq<int>,
    r: BackendJobStatus,
    on_wren: bool,
)
    requires
        on_wren ==> call_ensures(wren::container::interpret_pod_status, (pods,), r),
        !on_wren ==> call_ensures(bubo::container::interpret_pod_status, (pods,), r),
        pods@.len() <= u32::MAX,
        r is Launching,
        first_launcher(
            pods@,
            if on_wren {
                "wren.giar.dev/role"@
            } else {
                "bubo.io/role"@
            },
            k,
        ),
        running.no_duplicates(),
        forall|i: int| #[trigger]
            running.contains(i) <==> (0 <= i < pods@.len() && has_role(
                pods@[i],
                if on_wren {
                    "wren.giar.dev/role"@
                } else {
                    "bubo.io/role"@
                },
                "worker"@,
            ) && is_in(pods@[i], "Running"@)),
    ensures
        r->ready == running.len(),
{
    let key = if on_wren {
        "wren.giar.dev/role"@
    } else {
        "bubo.io/role"@
    };
    assert(pods.deep_view() =~= contents(pods@));
    lemma_launcher(pods@, key, k);
    lemma_counts(pods@, key, "Running"@);
    lemma_running_are_counted(pods@, key, running);
}

proof fn lemma_running_are_counted(pods: Seq<PodReport>, key: Seq<char>, running: Seq<int>)
    requires
        running.no_duplicates(),
        forall|i: int| #[trigger]
            running.contains(i) <==> (0 <= i < pods.len() && has_role(pods[i], key, "worker"@)
                && is_in(pods[i], "Running"@)),
    ensures
        workers_in_phase(contents(pods), key, "Running"@) == running.len(),
    decreases pods.len(),
{
    if pods.len() == 0 {
        if running.len() > 0 {
            assert(running.contains(running[0]));
        }
    } else {
        let last = pods.len() - 1;
        let rest = pods.drop_last();
        assert(contents(pods).drop_last() =~= contents(rest));
        assert(contents(pods).last() == pods[last].deep_view());
        lemma_role(pods[last], key, "worker"@);
        let fewer = if running.contains(last) {
            running.remove(running.index_of(last))
        } else {
            running
        };
        assert forall|i: int| #[trigger]
            fewer.contains(i) <==> (0 <= i < rest.len() && has_role(rest[i], key, "worker"@)
                && is_in(rest[i], "Running"@)) by {
            if running.contains(last) {
                let at = running.index_of(last);
                if fewer.contains(i) {
                    let k = fewer.index_of(i);
                    let b = if k < at {
                        k
                    } else {
                        k + 1
                    };
                    assert(running[b] == i);
                    assert(running[b] != running[at]);
                    assert(running.contains(i));
                }
                if running.contains(i) && i != last {
                    let b = running.index_of(i);
                    let k = if b < at {
                        b
                    } else {
                        b - 1
                    };
                    assert(fewer[k] == i);
                }
            }
            assert(running.contains(i) <==> (0 <= i < pods.len() && has_role(
                pods[i],
                key,
                "worker"@,
            ) && is_in(pods[i], "Running"@)));
        }
        lemma_running_are_counted(rest, key, fewer);
        assert(running.contains(last) <==> (has_role(pods[last], key, "worker"@) && is_in(
            pods[last],
            "Running"@,
        )));
    }
}

} // verus!
