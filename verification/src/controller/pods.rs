//! How a job is doing, as far as its pods show it.

use vstd::prelude::*;
use vstd::slice::*;
use vstd::string::*;
use crate::controller::manifest::{PodReport, ReportView};
use crate::model::backend::{BackendJobStatus, BackendView};
use crate::text::{dec, decimal, signed_dec, signed_decimal, str_eq};

verus! {

/// Value of the label `key` of a pod.
pub open spec fn label_of(pod: ReportView, key: Seq<char>) -> Option<Seq<char>> {
    match pod.labels {
        Some(labels) => if labels.dom().contains(key) {
            Some(labels[key])
        } else {
            None
        },
        None => None,
    }
}

/// How many pods have the role "worker" under the label `key`.
pub open spec fn worker_count(pods: Seq<ReportView>, key: Seq<char>) -> nat
    decreases pods.len(),
{
    if pods.len() == 0 {
        0
    } else {
        worker_count(pods.drop_last(), key) + if label_of(pods.last(), key) == Some("worker"@) {
            1nat
        } else {
            0nat
        }
    }
}

/// How many workers are in `phase`.
pub open spec fn workers_in_phase(
    pods: Seq<ReportView>,
    key: Seq<char>,
    phase: Seq<char>,
) -> nat
    decreases pods.len(),
{
    if pods.len() == 0 {
        0
    } else {
        workers_in_phase(pods.drop_last(), key, phase) + if label_of(pods.last(), key) == Some(
            "worker"@,
        ) && pods.last().phase == Some(phase) {
            1nat
        } else {
            0nat
        }
    }
}

/// The first pod with the role "launcher".
pub open spec fn launcher_of(pods: Seq<ReportView>, key: Seq<char>) -> Option<ReportView>
    decreases pods.len(),
{
    if pods.len() == 0 {
        None
    } else if label_of(pods[0], key) == Some("launcher"@) {
        Some(pods[0])
    } else {
        launcher_of(pods.drop_first(), key)
    }
}

/// How a job is doing by its launcher and the readiness of its workers: a launcher
/// that has ended decides; else all workers have to be running.
pub open spec fn launched_status(
    pods: Seq<ReportView>,
    key: Seq<char>,
    launcher: Option<ReportView>,
) -> BackendView {
    let phase = match launcher {
        Some(pod) => pod.phase,
        None => None,
    };
    if phase == Some("Succeeded"@) {
        BackendView::Succeeded
    } else if phase == Some("Failed"@) {
        BackendView::Failed {
            message: match launcher->0.message {
                Some(text) => text,
                None => "launcher pod failed"@,
            },
        }
    } else {
        let ready = workers_in_phase(pods, key, "Running"@) as u32;
        let total = worker_count(pods, key) as u32;
        if ready == total && total > 0 {
            BackendView::Running
        } else {
            BackendView::Launching { ready, total }
        }
    }
}

/// How a job without a launcher is doing by its workers alone.
pub open spec fn workers_status(pods: Seq<ReportView>, key: Seq<char>) -> BackendView {
    let total = worker_count(pods, key) as u32;
    let succeeded = workers_in_phase(pods, key, "Succeeded"@) as u32;
    let failed = workers_in_phase(pods, key, "Failed"@) as u32;
    let running = workers_in_phase(pods, key, "Running"@) as u32;
    if failed > 0 {
        BackendView::Failed {
            message: dec(failed as nat) + " of "@ + dec(total as nat) + " worker pods failed"@,
        }
    } else if succeeded == total && total > 0 {
        BackendView::Succeeded
    } else if running > 0 || succeeded > 0 {
        BackendView::Running
    } else {
        BackendView::Launching { ready: 0, total }
    }
}

fn has_label(pod: &PodReport, key: &str, value: &str) -> (r: bool)
    ensures
        r == (label_of(pod.deep_view(), key@) == Some(value@)),
{
    match &pod.labels {
        Some(labels) => match labels.get(key) {
            Some(v) => str_eq(v.as_str(), value),
            None => false,
        },
        None => false,
    }
}

fn in_phase(pod: &PodReport, phase: &str) -> (r: bool)
    ensures
        r == (pod.deep_view().phase == Some(phase@)),
{
    match &pod.phase {
        Some(p) => str_eq(p.as_str(), phase),
        None => false,
    }
}

fn count_workers(pods: &[PodReport], key: &str) -> (r: usize)
    ensures
        r == worker_count(pods.deep_view(), key@),
{
    let ghost all = pods.deep_view();
    let mut n: usize = 0;
    let mut i: usize = 0;
    while i < pods.len()
        invariant
            i <= pods@.len(),
            n <= i,
            all == pods.deep_view(),
            n == worker_count(all.take(i as int), key@),
        decreases pods@.len() - i,
    {
        proof {
            assert(all.take(i + 1).drop_last() =~= all.take(i as int));
            assert(all.take(i + 1).last() == pods@[i as int].deep_view());
        }
        if has_label(&pods[i], key, "worker") {
            n += 1;
        }
        i += 1;
    }
    proof {
        assert(all.take(all.len() as int) =~= all);
    }
    n
}

fn count_in_phase(pods: &[PodReport], key: &str, phase: &str) -> (r: usize)
    ensures
        r == workers_in_phase(pods.deep_view(), key@, phase@),
{
    let ghost all = pods.deep_view();
    let mut n: usize = 0;
    let mut i: usize = 0;
    while i < pods.len()
        invariant
            i <= pods@.len(),
            n <= i,
            all == pods.deep_view(),
            n == workers_in_phase(all.take(i as int), key@, phase@),
        decreases pods@.len() - i,
    {
        proof {
            assert(all.take(i + 1).drop_last() =~= all.take(i as int));
            assert(all.take(i + 1).last() == pods@[i as int].deep_view());
        }
        if has_label(&pods[i], key, "worker") && in_phase(&pods[i], phase) {
            n += 1;
        }
        i += 1;
    }
    proof {
        assert(all.take(all.len() as int) =~= all);
    }
    n
}

/// The first pod with the role "launcher".
pub fn find_launcher<'a>(pods: &'a [PodReport], key: &str) -> (r: Option<&'a PodReport>)
    ensures
        r.deep_view() == launcher_of(pods.deep_view(), key@),
{
    let ghost all = pods.deep_view();
    let mut i: usize = 0;
    proof {
        assert(all.skip(0) =~= all);
    }
    while i < pods.len()
        invariant
            i <= pods@.len(),
            all == pods.deep_view(),
            launcher_of(all, key@) == launcher_of(all.skip(i as int), key@),
        decreases pods@.len() - i,
    {
        proof {
            assert(all.skip(i as int)[0] == pods@[i as int].deep_view());
            assert(all.skip(i as int).drop_first() =~= all.skip(i + 1));
        }
        if has_label(&pods[i], key, "launcher") {
            return Some(&pods[i]);
        }
        i += 1;
    }
    None
}

/// How a job is doing by its launcher and the readiness of its workers.
pub fn status_with_launcher(
    pods: &[PodReport],
    key: &str,
    launcher: Option<&PodReport>,
) -> (r: BackendJobStatus)
    ensures
        r@ == launched_status(pods.deep_view(), key@, launcher.deep_view()),
{
    match launcher {
        Some(pod) => {
            if in_phase(pod, "Succeeded") {
                return BackendJobStatus::Succeeded;
            }
            if in_phase(pod, "Failed") {
                let message = match &pod.message {
                    Some(text) => text.clone(),
                    None => "launcher pod failed".to_owned(),
                };
                return BackendJobStatus::Failed { message };
            }
        },
        None => {},
    }
    let ready = count_in_phase(pods, key, "Running") as u32;
    let total = count_workers(pods, key) as u32;
    if ready == total && total > 0 {
        BackendJobStatus::Running
    } else {
        BackendJobStatus::Launching { ready, total }
    }
}

/// How a job without a launcher is doing.
pub fn status_of_workers(pods: &[PodReport], key: &str) -> (r: BackendJobStatus)
    ensures
        r@ == workers_status(pods.deep_view(), key@),
{
    let total = count_workers(pods, key) as u32;
    let succeeded = count_in_phase(pods, key, "Succeeded") as u32;
    let failed = count_in_phase(pods, key, "Failed") as u32;
    let running = count_in_phase(pods, key, "Running") as u32;
    if failed > 0 {
        let mut message = decimal(failed as u64);
        message.append(" of ");
        message.append(decimal(total as u64).as_str());
        message.append(" worker pods failed");
        BackendJobStatus::Failed { message }
    } else if succeeded == total && total > 0 {
        BackendJobStatus::Succeeded
    } else if running > 0 || succeeded > 0 {
        BackendJobStatus::Running
    } else {
        BackendJobStatus::Launching { ready: 0, total }
    }
}

/// What a failed job says of itself: its message, or else its exit code.
pub open spec fn failure_text(message: Option<Seq<char>>, exit_code: Option<i32>) -> Seq<char> {
    match message {
        Some(text) => text,
        None => "job exited with code "@ + signed_dec(
            match exit_code {
                Some(code) => code as int,
                None => -1,
            },
        ),
    }
}

/// What a failed job says of itself.
pub fn failure_message(message: &Option<String>, exit_code: Option<i32>) -> (r: String)
    ensures
        r@ == failure_text(message.deep_view(), exit_code),
{
    match message {
        Some(text) => text.clone(),
        None => {
            let code: i32 = match exit_code {
                Some(code) => code,
                None => -1,
            };
            let mut text = "job exited with code ".to_owned();
            text.append(signed_decimal(code as i64).as_str());
            text
        },
    }
}

} // verus!
