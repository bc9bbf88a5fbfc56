//! What is counted.

use vstd::prelude::*;
use crate::controller::metrics::{
    further_metric_list, record_job_state_change, shared_metric_list, MetricInfo, MetricKind,
    MetricUpdate,
};

verus! {

/// A job that changes its state leaves the count of its old state and enters that of its new
/// one, in its queue, and is counted once as processed. A new job leaves none.
pub proof fn law_state_changes_are_counted(
    queue: &str,
    old_state: &str,
    new_state: &str,
    r: Vec<MetricUpdate>,
    i: int,
)
    requires
        call_ensures(record_job_state_change, (queue, old_state, new_state), r),
        0 <= i < r@.len(),
    ensures
        r@.len() == (if old_state@.len() > 0 {
            3int
        } else {
            2
        }),
        r@[i] is ActiveDown <==> old_state@.len() > 0 && i == 0,
        r@[i] is ActiveUp <==> i == r@.len() - 2,
        r@[i] is TotalUp <==> i == r@.len() - 1,
        r@[i] is ActiveDown ==> r@[i]->ActiveDown_state@ == old_state@
            && r@[i]->ActiveDown_queue@ == queue@,
        r@[i] is ActiveUp ==> r@[i]->ActiveUp_state@ == new_state@ && r@[i]->ActiveUp_queue@
            == queue@,
        r@[i] is TotalUp ==> r@[i]->TotalUp_state@ == new_state@ && r@[i]->TotalUp_queue@
            == queue@,
{
    let views = r.deep_view();
    assert(views.len() == r@.len());
    assert(views[i] == r@[i].deep_view());
}

/// What is kept of jobs is told apart by state and queue, as it is counted; metrics begin with
/// the prefix that they are asked for; and buckets are in order, of histograms and of nothing
/// else.
pub proof fn law_metrics_are_described(
    prefix: &str,
    shared: Vec<MetricInfo>,
    further: Vec<MetricInfo>,
    i: int,
    j: int,
    k: int,
)
    requires
        call_ensures(shared_metric_list, (prefix,), shared),
        call_ensures(further_metric_list, (prefix,), further),
    ensures
        shared@.len() == 6 && further@.len() == 7,
        shared@[0].name@ == prefix@ + "_jobs_total"@ && shared@[0].kind == MetricKind::Counter,
        shared@[1].name@ == prefix@ + "_jobs_active"@ && shared@[1].kind == MetricKind::Gauge,
        shared@[0].labels.deep_view() == seq!["state"@, "queue"@],
        shared@[1].labels.deep_view() == seq!["state"@, "queue"@],
        shared@[2].name@ == prefix@ + "_queue_depth"@ && shared@[2].labels.deep_view() == seq![
            "queue"@,
        ],
        shared@[3].name@ == prefix@ + "_scheduling_attempts_total"@
            && shared@[3].labels.deep_view() == seq!["result"@],
        further@[0].name@ == prefix@ + "_scheduling_latency_seconds"@ && further@[0].kind
            == MetricKind::Histogram,
        further@[1].name@ == prefix@ + "_job_wait_seconds"@ && further@[1].kind
            == MetricKind::Histogram,
        0 <= i < 6 ==> shared@[i].bucket_millis@.len() == 0,
        0 <= i < 7 ==> (further@[i].kind == MetricKind::Histogram
            <==> further@[i].bucket_millis@.len() > 0),
        0 <= i < 7 && 0 <= j < k < further@[i].bucket_millis@.len()
            ==> further@[i].bucket_millis@[j] < further@[i].bucket_millis@[k],
{
    let a = shared.deep_view();
    let b = further.deep_view();
    assert(a.len() == shared@.len());
    assert(b.len() == further@.len());
    assert(a[0] == shared@[0].deep_view());
    assert(a[1] == shared@[1].deep_view());
    assert(a[2] == shared@[2].deep_view());
    assert(a[3] == shared@[3].deep_view());
    assert(b[0] == further@[0].deep_view());
    assert(b[1] == further@[1].deep_view());
    assert(shared@[0].labels.deep_view() =~= seq!["state"@, "queue"@]);
    assert(shared@[1].labels.deep_view() =~= seq!["state"@, "queue"@]);
    assert(shared@[2].labels.deep_view() =~= seq!["queue"@]);
    assert(shared@[3].labels.deep_view() =~= seq!["result"@]);
    if 0 <= i < 6 {
        assert(a[i] == shared@[i].deep_view());
    }
    if 0 <= i < 7 {
        assert(b[i] == further@[i].deep_view());
    }
}

} // verus!
