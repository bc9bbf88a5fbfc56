//! The metrics that the controllers keep, and what events do to them.

use vstd::prelude::*;
use vstd::string::*;
use crate::controller::launch::push_word;

verus! {

/// What a metric counts with.
#[derive(Clone, Copy, Debug, PartialEq, Eq, Structural)]
pub enum MetricKind {
    /// A count that only grows.
    Counter,
    /// A whole number that is set, or goes up and down.
    Gauge,
    /// A ratio between nothing and one.
    Ratio,
    /// Observations in buckets.
    Histogram,
}

/// Description of a metric.
#[derive(Clone, Debug, PartialEq, Eq)]
pub struct MetricInfo {
    pub name: String,
    pub help: String,
    pub kind: MetricKind,
    /// Names of the labels that its values are told apart by.
    pub labels: Vec<String>,
    /// Upper bounds of the buckets of a histogram, in thousandths.
    pub bucket_millis: Vec<u64>,
}

/// Content of a [`MetricInfo`].
pub ghost struct MetricView {
    pub name: Seq<char>,
    pub help: Seq<char>,
    pub kind: MetricKind,
    pub labels: Seq<Seq<char>>,
    pub bucket_millis: Seq<u64>,
}

impl DeepView for MetricInfo {
    type V = MetricView;

    open spec fn deep_view(&self) -> MetricView {
        MetricView {
            name: self.name@,
            help: self.help@,
            kind: self.kind,
            labels: self.labels.deep_view(),
            bucket_millis: self.bucket_millis@,
        }
    }
}

impl MetricView {
    /// A metric without labels and buckets.
    pub open spec fn plain(name: Seq<char>, help: Seq<char>, kind: MetricKind) -> MetricView {
        MetricView { name, help, kind, labels: Seq::empty(), bucket_millis: Seq::empty() }
    }

    /// With a further label.
    pub open spec fn labelled(self, label: Seq<char>) -> MetricView {
        MetricView { labels: self.labels.push(label), ..self }
    }

    /// With buckets.
    pub open spec fn within(self, bucket_millis: Seq<u64>) -> MetricView {
        MetricView { bucket_millis, ..self }
    }
}

impl MetricInfo {
    /// A metric without labels and buckets.
    fn plain(prefix: &str, name: &str, help: &str, kind: MetricKind) -> (r: MetricInfo)
        ensures
            r.deep_view() == MetricView::plain(prefix@ + name@, help@, kind),
    {
        let mut full = prefix.to_owned();
        full.append(name);
        let r = MetricInfo {
            name: full,
            help: help.to_owned(),
            kind,
            labels: Vec::new(),
            bucket_millis: Vec::new(),
        };
        proof {
            assert(r.labels.deep_view() =~= Seq::empty());
        }
        r
    }

    /// With a further label.
    fn labelled(self, label: &str) -> (r: MetricInfo)
        ensures
            r.deep_view() == self.deep_view().labelled(label@),
    {
        let mut labels = self.labels;
        push_word(&mut labels, label);
        MetricInfo {
            name: self.name,
            help: self.help,
            kind: self.kind,
            labels,
            bucket_millis: self.bucket_millis,
        }
    }

    /// With buckets.
    fn within(self, bucket_millis: Vec<u64>) -> (r: MetricInfo)
        ensures
            r.deep_view() == self.deep_view().within(bucket_millis@),
    {
        MetricInfo {
            name: self.name,
            help: self.help,
            kind: self.kind,
            labels: self.labels,
            bucket_millis,
        }
    }
}

/// The metrics that both controllers keep, under names that begin with `prefix`.
pub open spec fn shared_metrics(prefix: Seq<char>) -> Seq<MetricView> {
    seq![
        MetricView::plain(
            prefix + "_jobs_total"@,
            "Total number of jobs processed"@,
            MetricKind::Counter,
        ).labelled("state"@).labelled("queue"@),
        MetricView::plain(
            prefix + "_jobs_active"@,
            "Number of currently active jobs"@,
            MetricKind::Gauge,
        ).labelled("state"@).labelled("queue"@),
        MetricView::plain(
            prefix + "_queue_depth"@,
            "Number of pending jobs per queue"@,
            MetricKind::Gauge,
        ).labelled("queue"@),
        MetricView::plain(
            prefix + "_scheduling_attempts_total"@,
            "Total scheduling attempts"@,
            MetricKind::Counter,
        ).labelled("result"@),
        MetricView::plain(
            prefix + "_nodes_total"@,
            "Total nodes tracked by scheduler"@,
            MetricKind::Gauge,
        ),
        MetricView::plain(
            prefix + "_nodes_allocatable"@,
            "Nodes with available resources"@,
            MetricKind::Gauge,
        ),
    ]
}

/// The metrics that only the Wren controller keeps.
pub open spec fn further_metrics(prefix: Seq<char>) -> Seq<MetricView> {
    seq![
        MetricView::plain(
            prefix + "_scheduling_latency_seconds"@,
            "Time spent in scheduling decisions"@,
            MetricKind::Histogram,
        ).labelled("result"@).within(seq![1u64, 5, 10, 50, 100, 500, 1000, 5000]),
        MetricView::plain(
            prefix + "_job_wait_seconds"@,
            "Time jobs spend waiting in queue before scheduling"@,
            MetricKind::Histogram,
        ).labelled("queue"@).within(
            seq![1000u64, 5000, 10_000, 30_000, 60_000, 300_000, 600_000, 1_800_000, 3_600_000],
        ),
        MetricView::plain(
            prefix + "_cluster_cpu_utilization_ratio"@,
            "Cluster-wide CPU utilization ratio [0.0, 1.0]"@,
            MetricKind::Ratio,
        ),
        MetricView::plain(
            prefix + "_cluster_memory_utilization_ratio"@,
            "Cluster-wide memory utilization ratio [0.0, 1.0]"@,
            MetricKind::Ratio,
        ),
        MetricView::plain(
            prefix + "_cluster_gpu_utilization_ratio"@,
            "Cluster-wide GPU utilization ratio [0.0, 1.0]"@,
            MetricKind::Ratio,
        ),
        MetricView::plain(
            prefix + "_active_reservations"@,
            "Number of active resource reservations (scheduling in progress)"@,
            MetricKind::Gauge,
        ),
        MetricView::plain(
            prefix + "_topology_placement_score"@,
            "Topology score of accepted placements"@,
            MetricKind::Histogram,
        ).within(seq![0u64, 100, 200, 300, 400, 500, 600, 700, 800, 900, 1000]),
    ]
}

/// The metrics that both controllers keep.
pub fn shared_metric_list(prefix: &str) -> (r: Vec<MetricInfo>)
    ensures
        r.deep_view() == shared_metrics(prefix@),
{
    let mut r: Vec<MetricInfo> = Vec::new();
    r.push(
        MetricInfo::plain(
            prefix,
            "_jobs_total",
            "Total number of jobs processed",
            MetricKind::Counter,
        ).labelled("state").labelled("queue"),
    );
    r.push(
        MetricInfo::plain(
            prefix,
            "_jobs_active",
            "Number of currently active jobs",
            MetricKind::Gauge,
        ).labelled("state").labelled("queue"),
    );
    r.push(
        MetricInfo::plain(
            prefix,
            "_queue_depth",
            "Number of pending jobs per queue",
            MetricKind::Gauge,
        ).labelled("queue"),
    );
    r.push(
        MetricInfo::plain(
            prefix,
            "_scheduling_attempts_total",
            "Total scheduling attempts",
            MetricKind::Counter,
        ).labelled("result"),
    );
    r.push(
        MetricInfo::plain(
            prefix,
            "_nodes_total",
            "Total nodes tracked by scheduler",
            MetricKind::Gauge,
        ),
    );
    r.push(
        MetricInfo::plain(
            prefix,
            "_nodes_allocatable",
            "Nodes with available resources",
            MetricKind::Gauge,
        ),
    );
    proof {
        assert(r.deep_view() =~= shared_metrics(prefix@));
    }
    r
}

/// The metrics that only the Wren controller keeps.
pub fn further_metric_list(prefix: &str) -> (r: Vec<MetricInfo>)
    ensures
        r.deep_view() == further_metrics(prefix@),
{
    let mut r: Vec<MetricInfo> = Vec::new();
    r.push(
        MetricInfo::plain(
            prefix,
            "_scheduling_latency_seconds",
            "Time spent in scheduling decisions",
            MetricKind::Histogram,
        ).labelled("result").within(vec![1u64, 5, 10, 50, 100, 500, 1000, 5000]),
    );
    r.push(
        MetricInfo::plain(
            prefix,
            "_job_wait_seconds",
            "Time jobs spend waiting in queue before scheduling",
            MetricKind::Histogram,
        ).labelled("queue").within(
            vec![1000u64, 5000, 10_000, 30_000, 60_000, 300_000, 600_000, 1_800_000, 3_600_000],
        ),
    );
    r.push(
        MetricInfo::plain(
            prefix,
            "_cluster_cpu_utilization_ratio",
            "Cluster-wide CPU utilization ratio [0.0, 1.0]",
            MetricKind::Ratio,
        ),
    );
    r.push(
        MetricInfo::plain(
            prefix,
            "_cluster_memory_utilization_ratio",
            "Cluster-wide memory utilization ratio [0.0, 1.0]",
            MetricKind::Ratio,
        ),
    );
    r.push(
        MetricInfo::plain(
            prefix,
            "_cluster_gpu_utilization_ratio",
            "Cluster-wide GPU utilization ratio [0.0, 1.0]",
            MetricKind::Ratio,
        ),
    );
    r.push(
        MetricInfo::plain(
            prefix,
            "_active_reservations",
            "Number of active resource reservations (scheduling in progress)",
            MetricKind::Gauge,
        ),
    );
    r.push(
        MetricInfo::plain(
            prefix,
            "_topology_placement_score",
            "Topology score of accepted placements",
            MetricKind::Histogram,
        ).within(vec![0u64, 100, 200, 300, 400, 500, 600, 700, 800, 900, 1000]),
    );
    proof {
        let want = further_metrics(prefix@);
        assert(r.deep_view().len() == want.len());
        assert(r[0].deep_view().bucket_millis =~= want[0].bucket_millis);
        assert(r[1].deep_view().bucket_millis =~= want[1].bucket_millis);
        assert(r[6].deep_view().bucket_millis =~= want[6].bucket_millis);
        assert(r.deep_view() =~= want);
    }
    r
}

/// A change of the counts of jobs in a state and a queue.
#[derive(Clone, Debug, PartialEq, Eq)]
pub enum MetricUpdate {
    /// One job fewer is active.
    ActiveDown { state: String, queue: String },
    /// One job more is active.
    ActiveUp { state: String, queue: String },
    /// One job more has been processed.
    TotalUp { state: String, queue: String },
}

/// Content of a [`MetricUpdate`].
pub ghost enum UpdateView {
    ActiveDown { state: Seq<char>, queue: Seq<char> },
    ActiveUp { state: Seq<char>, queue: Seq<char> },
    TotalUp { state: Seq<char>, queue: Seq<char> },
}

impl DeepView for MetricUpdate {
    type V = UpdateView;

    open spec fn deep_view(&self) -> UpdateView {
        match self {
            MetricUpdate::ActiveDown { state, queue } => UpdateView::ActiveDown {
                state: state@,
                queue: queue@,
            },
            MetricUpdate::ActiveUp { state, queue } => UpdateView::ActiveUp {
                state: state@,
                queue: queue@,
            },
            MetricUpdate::TotalUp { state, queue } => UpdateView::TotalUp {
                state: state@,
                queue: queue@,
            },
        }
    }
}

/// What a change of a job's state does to the counts. Without an old state the job is
/// new.
pub open spec fn state_change(
    queue: Seq<char>,
    old_state: Seq<char>,
    new_state: Seq<char>,
) -> Seq<UpdateView> {
    let up = seq![
        UpdateView::ActiveUp { state: new_state, queue },
        UpdateView::TotalUp { state: new_state, queue },
    ];
    if old_state.len() == 0 {
        up
    } else {
        seq![UpdateView::ActiveDown { state: old_state, queue }] + up
    }
}

/// What a change of a job's state does to the counts.
pub fn record_job_state_change(queue: &str, old_state: &str, new_state: &str) -> (r: Vec<
    MetricUpdate,
>)
    ensures
        r.deep_view() == state_change(queue@, old_state@, new_state@),
{
    let mut r: Vec<MetricUpdate> = Vec::new();
    if old_state.unicode_len() > 0 {
        r.push(
            MetricUpdate::ActiveDown { state: old_state.to_owned(), queue: queue.to_owned() },
        );
    }
    r.push(MetricUpdate::ActiveUp { state: new_state.to_owned(), queue: queue.to_owned() });
    r.push(MetricUpdate::TotalUp { state: new_state.to_owned(), queue: queue.to_owned() });
    proof {
        assert(r.deep_view() =~= state_change(queue@, old_state@, new_state@));
    }
    r
}

/// The number of active jobs that an update adds or takes away.
pub open spec fn active_change(update: UpdateView) -> int {
    match update {
        UpdateView::ActiveDown { .. } => -1,
        UpdateView::ActiveUp { .. } => 1,
        UpdateView::TotalUp { .. } => 0,
    }
}

/// The number of active jobs that updates add or take away.
pub open spec fn net_change(updates: Seq<UpdateView>) -> int
    decreases updates.len(),
{
    if updates.len() == 0 {
        0
    } else {
        net_change(updates.drop_last()) + active_change(updates.last())
    }
}

/// A job that goes from one state to another is still one job: the number of active
/// jobs stays, whereas a new job adds one.
pub proof fn law_state_change_keeps_jobs(
    queue: Seq<char>,
    old_state: Seq<char>,
    new_state: Seq<char>,
)
    ensures
        net_change(state_change(queue, old_state, new_state)) == (if old_state.len() == 0 {
            1int
        } else {
            0
        }),
{
    reveal_with_fuel(net_change, 4);
}

/// Names of the metrics of a list.
pub open spec fn metric_names(list: Seq<MetricView>) -> Seq<Seq<char>> {
    Seq::new(list.len(), |i: int| list[i].name)
}

proof fn lemma_same_prefix(prefix: Seq<char>, a: Seq<char>, b: Seq<char>)
    requires
        a != b,
    ensures
        prefix + a != prefix + b,
{
    if prefix + a == prefix + b {
        assert((prefix + a).skip(prefix.len() as int) =~= a);
        assert((prefix + b).skip(prefix.len() as int) =~= b);
    }
}

/// No two metrics share a name, so that all of them can be registered together.
pub proof fn law_metric_names_are_distinct(prefix: Seq<char>)
    ensures
        metric_names(shared_metrics(prefix)).no_duplicates(),
        metric_names(shared_metrics(prefix) + further_metrics(prefix)).no_duplicates(),
{
    let endings = seq![
        "_jobs_total"@,
        "_jobs_active"@,
        "_queue_depth"@,
        "_scheduling_attempts_total"@,
        "_nodes_total"@,
        "_nodes_allocatable"@,
        "_scheduling_latency_seconds"@,
        "_job_wait_seconds"@,
        "_cluster_cpu_utilization_ratio"@,
        "_cluster_memory_utilization_ratio"@,
        "_cluster_gpu_utilization_ratio"@,
        "_active_reservations"@,
        "_topology_placement_score"@,
    ];
    reveal_strlit("_jobs_total");
    reveal_strlit("_jobs_active");
    reveal_strlit("_queue_depth");
    reveal_strlit("_scheduling_attempts_total");
    reveal_strlit("_nodes_total");
    reveal_strlit("_nodes_allocatable");
    reveal_strlit("_scheduling_latency_seconds");
    reveal_strlit("_job_wait_seconds");
    reveal_strlit("_cluster_cpu_utilization_ratio");
    reveal_strlit("_cluster_memory_utilization_ratio");
    reveal_strlit("_cluster_gpu_utilization_ratio");
    reveal_strlit("_active_reservations");
    reveal_strlit("_topology_placement_score");
    assert("_jobs_active"@[1] == 'j' && "_queue_depth"@[1] == 'q' && "_nodes_total"@[1] == 'n');
    assert("_cluster_cpu_utilization_ratio"@[9] == 'c' && "_cluster_gpu_utilization_ratio"@[9]
        == 'g');
    assert("_jobs_total"@.len() == 11 && "_jobs_active"@.len() == 12 && "_queue_depth"@.len()
        == 12 && "_scheduling_attempts_total"@.len() == 26 && "_nodes_total"@.len() == 12);
    assert("_nodes_allocatable"@.len() == 18 && "_scheduling_latency_seconds"@.len() == 27
        && "_job_wait_seconds"@.len() == 17);
    assert("_cluster_cpu_utilization_ratio"@.len() == 30
        && "_cluster_memory_utilization_ratio"@.len() == 33
        && "_cluster_gpu_utilization_ratio"@.len() == 30);
    assert("_active_reservations"@.len() == 20 && "_topology_placement_score"@.len() == 25);
    assert(endings.no_duplicates());
    let all = metric_names(shared_metrics(prefix) + further_metrics(prefix));
    let some = metric_names(shared_metrics(prefix));
    assert forall|i: int| 0 <= i < 13 implies #[trigger] all[i] == prefix + endings[i] by {}
    assert forall|i: int, j: int| 0 <= i < 13 && 0 <= j < 13 && i != j implies all[i]
        != all[j] by {
        lemma_same_prefix(prefix, endings[i], endings[j]);
    }
    assert forall|i: int, j: int|
        0 <= i < some.len() && 0 <= j < some.len() && i != j implies some[i] != some[j] by {
        assert(some[i] == all[i]);
        assert(some[j] == all[j]);
    }
}

} // verus!
