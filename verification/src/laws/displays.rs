//! What the command line shows and changes.

use vstd::prelude::*;
use crate::cli::logs::{build_label_selector, format_log, no_pods_message};
use crate::cli::queue::{age_of_seconds, format_age_at, format_queue, row_lines, wanted, JobRow};
use crate::cli::status::{format_job_status, format_mpi_job_status};
use crate::cli::submit::{
    cancelled_message, namespace_of, override_mpijob, override_wrenjob, submitted_message,
};
use crate::model::crd::{DependencyType, DependencyView, MPIJobSpec, MPIJobStatus};
use crate::model::time::Timestamp;
use crate::model::types::{ExecutionBackendType, JobState};
use crate::text::{dec, joined, signed_dec};
use crate::wren::crd::{WrenJobSpec, WrenJobStatus};

verus! {

/// Whether a text holds another.
pub open spec fn shows(text: Seq<char>, part: Seq<char>) -> bool {
    exists|a: Seq<char>, b: Seq<char>| text == #[trigger] (a + part + b)
}

/// What a text holds, a longer text holds.
pub proof fn lemma_shows()
    ensures
        forall|t: Seq<char>, p: Seq<char>| #[trigger] shows(t + p, p),
        forall|t: Seq<char>| #[trigger] shows(t, t),
        forall|t: Seq<char>, x: Seq<char>, p: Seq<char>|
            shows(t, p) ==> #[trigger] shows(t + x, p),
        forall|t: Seq<char>, x: Seq<char>, p: Seq<char>|
            shows(x, p) ==> #[trigger] shows(t + x, p),
{
    let none = Seq::<char>::empty();
    assert forall|t: Seq<char>, p: Seq<char>| #[trigger] shows(t + p, p) by {
        assert(t + p =~= t + p + none);
    }
    assert forall|t: Seq<char>| #[trigger] shows(t, t) by {
        assert(t =~= none + t + none);
    }
    assert forall|t: Seq<char>, x: Seq<char>, p: Seq<char>| shows(t, p) implies #[trigger] shows(
        t + x,
        p,
    ) by {
        let (a, b) = choose|a: Seq<char>, b: Seq<char>| t == #[trigger] (a + p + b);
        assert(t + x =~= a + p + (b + x));
    }
    assert forall|t: Seq<char>, x: Seq<char>, p: Seq<char>| shows(x, p) implies #[trigger] shows(
        t + x,
        p,
    ) by {
        let (a, b) = choose|a: Seq<char>, b: Seq<char>| x == #[trigger] (a + p + b);
        assert(t + x =~= (t + a) + p + b);
    }
}

/// A line with a label and a value.
pub open spec fn labelled_line(label: Seq<char>, value: Seq<char>) -> Seq<char> {
    label + value + "\n"@
}

/// Whether a text shows what a job asks for.
pub open spec fn shows_request(
    text: Seq<char>,
    name: Seq<char>,
    namespace: Seq<char>,
    queue: Seq<char>,
    priority: i32,
    nodes: u32,
    tasks: u32,
    backend: ExecutionBackendType,
    walltime: Option<String>,
) -> bool {
    &&& shows(text, labelled_line("Name:        "@, name))
    &&& shows(text, labelled_line("Namespace:   "@, namespace))
    &&& shows(text, labelled_line("Queue:       "@, queue))
    &&& shows(text, labelled_line("Priority:    "@, signed_dec(priority as int)))
    &&& shows(text, labelled_line("Nodes:       "@, dec(nodes as nat)))
    &&& shows(text, labelled_line("Tasks/Node:  "@, dec(tasks as nat)))
    &&& shows(
        text,
        labelled_line(
            "Backend:     "@,
            if backend == ExecutionBackendType::Container {
                "container"@
            } else {
                "reaper"@
            },
        ),
    )
    &&& walltime is Some ==> shows(text, labelled_line("Walltime:    "@, walltime->0@))
}

/// Whether a text shows how a job is doing.
pub open spec fn shows_progress(
    text: Seq<char>,
    state: Seq<char>,
    message: Option<String>,
    ready: u32,
    total: u32,
    start: Option<String>,
    end: Option<String>,
    nodes: Seq<Seq<char>>,
) -> bool {
    &&& shows(text, labelled_line("  State:       "@, state))
    &&& message is Some ==> shows(text, labelled_line("  Message:     "@, message->0@))
    &&& shows(
        text,
        labelled_line("  Workers:     "@, dec(ready as nat) + "/"@ + dec(total as nat)),
    )
    &&& start is Some ==> shows(text, labelled_line("  Start Time:  "@, start->0@))
    &&& end is Some ==> shows(text, labelled_line("  End Time:    "@, end->0@))
    &&& nodes.len() > 0 ==> shows(text, labelled_line("  Nodes:       "@, joined(nodes, ", "@)))
}

proof fn lemma_request(
    name: Seq<char>,
    namespace: Seq<char>,
    queue: Seq<char>,
    priority: i32,
    nodes: u32,
    tasks: u32,
    backend: ExecutionBackendType,
    walltime: Option<String>,
)
    ensures
        shows_request(
            crate::cli::status::request_text(
                name,
                namespace,
                queue,
                priority,
                nodes,
                tasks,
                backend,
                walltime.deep_view(),
            ),
            name,
            namespace,
            queue,
            priority,
            nodes,
            tasks,
            backend,
            walltime,
        ),
{
    lemma_shows();
}

proof fn lemma_progress(
    state: JobState,
    message: Option<String>,
    ready: u32,
    total: u32,
    start: Option<String>,
    end: Option<String>,
    nodes: Seq<Seq<char>>,
)
    ensures
        shows_progress(
            crate::cli::status::progress_text(
                state,
                message.deep_view(),
                ready,
                total,
                start.deep_view(),
                end.deep_view(),
                nodes,
            ),
            state_name(state),
            message,
            ready,
            total,
            start,
            end,
            nodes,
        ),
{
    lemma_shows();
}

/// How a state is called.
pub open spec fn state_name(state: JobState) -> Seq<char> {
    match state {
        JobState::Pending => "Pending"@,
        JobState::Scheduling => "Scheduling"@,
        JobState::Running => "Running"@,
        JobState::Succeeded => "Succeeded"@,
        JobState::Failed => "Failed"@,
        JobState::Cancelled => "Cancelled"@,
        JobState::WalltimeExceeded => "WalltimeExceeded"@,
    }
}

/// A state is shown by its own name.
pub proof fn law_states_are_shown_by_name(state: &JobState, a: &str, b: String)
    requires
        call_ensures(JobState::as_str, (state,), a),
        call_ensures(JobState::to_string, (state,), b),
    ensures
        a@ == state_name(*state),
        b@ == state_name(*state),
{
}

proof fn lemma_keeps_request(
    t: Seq<char>,
    x: Seq<char>,
    name: Seq<char>,
    namespace: Seq<char>,
    queue: Seq<char>,
    priority: i32,
    nodes: u32,
    tasks: u32,
    backend: ExecutionBackendType,
    walltime: Option<String>,
)
    requires
        shows_request(t, name, namespace, queue, priority, nodes, tasks, backend, walltime),
    ensures
        shows_request(t + x, name, namespace, queue, priority, nodes, tasks, backend, walltime),
        shows_request(x + t, name, namespace, queue, priority, nodes, tasks, backend, walltime),
{
    lemma_shows();
}

proof fn lemma_keeps_progress(
    t: Seq<char>,
    x: Seq<char>,
    state: Seq<char>,
    message: Option<String>,
    ready: u32,
    total: u32,
    start: Option<String>,
    end: Option<String>,
    nodes: Seq<Seq<char>>,
)
    requires
        shows_progress(t, state, message, ready, total, start, end, nodes),
    ensures
        shows_progress(t + x, state, message, ready, total, start, end, nodes),
        shows_progress(x + t, state, message, ready, total, start, end, nodes),
{
    lemma_shows();
}

/// The status of a Wren job shows what it asks for, and how it is doing: its identifier if it
/// has one, its state, its message, its workers, its times and its nodes as far as they are
/// known, and each of its dependencies.
pub proof fn law_status_shows_the_job(
    name: &str,
    namespace: &str,
    spec: &WrenJobSpec,
    status: Option<&WrenJobStatus>,
    r: String,
    i: int,
)
    requires
        call_ensures(format_job_status, (name, namespace, spec, status), r),
    ensures
        shows_request(
            r@,
            name@,
            namespace@,
            spec.queue@,
            spec.priority,
            spec.nodes,
            spec.tasks_per_node,
            spec.backend,
            spec.walltime,
        ),
        status is Some ==> shows_progress(
            r@,
            state_name(status->0.state),
            status->0.message,
            status->0.ready_workers,
            status->0.total_workers,
            status->0.start_time,
            status->0.completion_time,
            status->0.assigned_nodes.deep_view(),
        ),
        status is Some && status->0.job_id is Some ==> shows(
            r@,
            labelled_line("JobID:       "@, dec(status->0.job_id->0 as nat)),
        ),
        0 <= i < spec.dependencies@.len() ==> shows(
            r@,
            dependency_line(
                spec.dependencies@[i].dep_type,
                spec.dependencies@[i].job@,
            ),
        ),
{
    lemma_shows();
    let request = crate::cli::status::request_text(
        name@,
        namespace@,
        spec.queue@,
        spec.priority,
        spec.nodes,
        spec.tasks_per_node,
        spec.backend,
        spec.walltime.deep_view(),
    );
    lemma_request(
        name@,
        namespace@,
        spec.queue@,
        spec.priority,
        spec.nodes,
        spec.tasks_per_node,
        spec.backend,
        spec.walltime,
    );
    let deps = spec.dependencies.deep_view();
    let shown = crate::cli::status::dependencies_text(deps);
    if 0 <= i < spec.dependencies@.len() {
        lemma_dependency(deps, i);
        assert(deps[i] == spec.dependencies@[i].deep_view());
    }
    let progress = match status {
        Some(s) => crate::cli::status::progress_text(
            s.state,
            s.message.deep_view(),
            s.ready_workers,
            s.total_workers,
            s.start_time.deep_view(),
            s.completion_time.deep_view(),
            s.assigned_nodes.deep_view(),
        ),
        None => crate::cli::status::no_progress_text(),
    };
    let first = request + "\nStatus:\n"@;
    let text = first + progress + shown;
    lemma_keeps_request(
        request,
        "\nStatus:\n"@,
        name@,
        namespace@,
        spec.queue@,
        spec.priority,
        spec.nodes,
        spec.tasks_per_node,
        spec.backend,
        spec.walltime,
    );
    lemma_keeps_request(
        first,
        progress,
        name@,
        namespace@,
        spec.queue@,
        spec.priority,
        spec.nodes,
        spec.tasks_per_node,
        spec.backend,
        spec.walltime,
    );
    lemma_keeps_request(
        first + progress,
        shown,
        name@,
        namespace@,
        spec.queue@,
        spec.priority,
        spec.nodes,
        spec.tasks_per_node,
        spec.backend,
        spec.walltime,
    );
    match status {
        Some(s) => {
            let id = crate::cli::status::line_if(
                "JobID:       "@,
                match s.job_id {
                    Some(id) => Some(dec(id as nat)),
                    None => None,
                },
            );
            let nodes = s.assigned_nodes.deep_view();
            lemma_progress(
                s.state,
                s.message,
                s.ready_workers,
                s.total_workers,
                s.start_time,
                s.completion_time,
                nodes,
            );
            lemma_keeps_progress(
                progress,
                first,
                state_name(s.state),
                s.message,
                s.ready_workers,
                s.total_workers,
                s.start_time,
                s.completion_time,
                nodes,
            );
            lemma_keeps_progress(
                first + progress,
                shown,
                state_name(s.state),
                s.message,
                s.ready_workers,
                s.total_workers,
                s.start_time,
                s.completion_time,
                nodes,
            );
            lemma_keeps_progress(
                text,
                id,
                state_name(s.state),
                s.message,
                s.ready_workers,
                s.total_workers,
                s.start_time,
                s.completion_time,
                nodes,
            );
            lemma_keeps_request(
                text,
                id,
                name@,
                namespace@,
                spec.queue@,
                spec.priority,
                spec.nodes,
                spec.tasks_per_node,
                spec.backend,
                spec.walltime,
            );
            assert(r@ == id + text);
        },
        None => {
            assert(r@ == text);
        },
    }
}

/// How a dependency is shown.
pub open spec fn dependency_line(dep_type: DependencyType, job: Seq<char>) -> Seq<char> {
    "  "@ + (match dep_type {
        DependencyType::AfterOk => "AfterOk"@,
        DependencyType::AfterAny => "AfterAny"@,
        DependencyType::AfterNotOk => "AfterNotOk"@,
    }) + " -> "@ + job + "\n"@
}

proof fn lemma_dependency(deps: Seq<DependencyView>, i: int)
    requires
        0 <= i < deps.len(),
    ensures
        shows(
            crate::cli::status::dependency_lines(deps),
            dependency_line(deps[i].dep_type, deps[i].job),
        ),
        shows(
            crate::cli::status::dependencies_text(deps),
            dependency_line(deps[i].dep_type, deps[i].job),
        ),
    decreases deps.len(),
{
    lemma_shows();
    if i < deps.len() - 1 {
        lemma_dependency(deps.drop_last(), i);
    }
}

/// The status of an MPI job shows what it asks for, and how it is doing as far as it is known.
pub proof fn law_mpi_status_shows_the_job(
    name: &str,
    namespace: &str,
    spec: &MPIJobSpec,
    status: Option<&MPIJobStatus>,
    r: String,
    i: int,
)
    requires
        call_ensures(format_mpi_job_status, (name, namespace, spec, status), r),
    ensures
        shows_request(
            r@,
            name@,
            namespace@,
            spec.queue@,
            spec.priority,
            spec.nodes,
            spec.tasks_per_node,
            spec.backend,
            spec.walltime,
        ),
        status is Some ==> shows_progress(
            r@,
            state_name(status->0.state),
            status->0.message,
            status->0.ready_workers,
            status->0.total_workers,
            status->0.start_time,
            status->0.completion_time,
            status->0.assigned_nodes.deep_view(),
        ),
        0 <= i < spec.dependencies@.len() ==> shows(
            r@,
            dependency_line(
                spec.dependencies@[i].dep_type,
                spec.dependencies@[i].job@,
            ),
        ),
{
    lemma_shows();
    let request = crate::cli::status::request_text(
        name@,
        namespace@,
        spec.queue@,
        spec.priority,
        spec.nodes,
        spec.tasks_per_node,
        spec.backend,
        spec.walltime.deep_view(),
    );
    lemma_request(
        name@,
        namespace@,
        spec.queue@,
        spec.priority,
        spec.nodes,
        spec.tasks_per_node,
        spec.backend,
        spec.walltime,
    );
    let deps = spec.dependencies.deep_view();
    let shown = crate::cli::status::dependencies_text(deps);
    if 0 <= i < spec.dependencies@.len() {
        lemma_dependency(deps, i);
        assert(deps[i] == spec.dependencies@[i].deep_view());
    }
    let progress = match status {
        Some(s) => crate::cli::status::progress_text(
            s.state,
            s.message.deep_view(),
            s.ready_workers,
            s.total_workers,
            s.start_time.deep_view(),
            s.completion_time.deep_view(),
            s.assigned_nodes.deep_view(),
        ),
        None => crate::cli::status::no_progress_text(),
    };
    let first = request + "\nStatus:\n"@;
    lemma_keeps_request(
        request,
        "\nStatus:\n"@,
        name@,
        namespace@,
        spec.queue@,
        spec.priority,
        spec.nodes,
        spec.tasks_per_node,
        spec.backend,
        spec.walltime,
    );
    lemma_keeps_request(
        first,
        progress,
        name@,
        namespace@,
        spec.queue@,
        spec.priority,
        spec.nodes,
        spec.tasks_per_node,
        spec.backend,
        spec.walltime,
    );
    lemma_keeps_request(
        first + progress,
        shown,
        name@,
        namespace@,
        spec.queue@,
        spec.priority,
        spec.nodes,
        spec.tasks_per_node,
        spec.backend,
        spec.walltime,
    );
    if let Some(s) = status {
        let nodes = s.assigned_nodes.deep_view();
        lemma_progress(
            s.state,
            s.message,
            s.ready_workers,
            s.total_workers,
            s.start_time,
            s.completion_time,
            nodes,
        );
        lemma_keeps_progress(
            progress,
            first,
            state_name(s.state),
            s.message,
            s.ready_workers,
            s.total_workers,
            s.start_time,
            s.completion_time,
            nodes,
        );
        lemma_keeps_progress(
            first + progress,
            shown,
            state_name(s.state),
            s.message,
            s.ready_workers,
            s.total_workers,
            s.start_time,
            s.completion_time,
            nodes,
        );
    }
}

/// An age is shown in the largest unit of which a whole one has passed, rounded down; what lies
/// ahead is no age yet.
pub proof fn law_ages_are_rounded_down(elapsed: i64, n: nat, r: String)
    requires
        call_ensures(age_of_seconds, (elapsed,), r),
    ensures
        elapsed < 0 ==> r@ == dec(0) + "s"@,
        0 <= elapsed < 60 ==> r@ == dec(elapsed as nat) + "s"@,
        60 <= elapsed < 60 * 60 && n * 60 <= elapsed < (n + 1) * 60 ==> r@ == dec(n) + "m"@,
        60 * 60 <= elapsed < 24 * 60 * 60 && n * 3600 <= elapsed < (n + 1) * 3600 ==> r@ == dec(n)
            + "h"@,
        24 * 60 * 60 <= elapsed && n * 86400 <= elapsed < (n + 1) * 86400 ==> r@ == dec(n) + "d"@,
{
    if elapsed >= 0 {
        let e = elapsed as nat;
        if n * 60 <= elapsed < (n + 1) * 60 {
            assert(e / 60 == n);
        }
        if n * 3600 <= elapsed < (n + 1) * 3600 {
            assert(e / 3600 == n);
        }
        if n * 86400 <= elapsed < (n + 1) * 86400 {
            assert(e / 86400 == n);
        }
    }
}

/// Only the jobs of the queue that is asked for are listed: a job of another queue changes
/// nothing. Where none is to be listed, it is said so, and else each is listed by its name,
/// its state and its queue.
pub proof fn law_lists_are_of_the_queue_asked_for(
    rows: &Vec<JobRow>,
    more: &Vec<JobRow>,
    queue: Option<&str>,
    now: Timestamp,
    row: JobRow,
    r: String,
    s: String,
    i: int,
)
    requires
        call_ensures(format_queue, (rows, queue, now), r),
        call_ensures(format_queue, (more, queue, now), s),
        more@ == rows@.push(row),
    ensures
        queue is Some && row.queue@ != queue->0@ ==> s@ == r@,
        rows@.len() == 0 ==> r@ == "No jobs found.\n"@,
        0 <= i < rows@.len() && (queue is None || rows@[i].queue@ == queue->0@) ==> {
            &&& rows@[i].name is Some ==> shows(r@, rows@[i].name->0@)
            &&& rows@[i].state is Some ==> shows(r@, state_name(rows@[i].state->0))
            &&& rows@[i].job_id is Some ==> shows(r@, dec(rows@[i].job_id->0 as nat))
            &&& shows(r@, rows@[i].queue@)
            &&& shows(r@, dec(rows@[i].nodes as nat))
        },
{
    let a = rows.deep_view();
    let b = more.deep_view();
    let asked = queue.deep_view();
    assert(b =~= a.push(row.deep_view()));
    assert(b.drop_last() =~= a);
    if queue is Some && row.queue@ != queue->0@ {
        assert(!wanted(b.last(), asked));
        assert((exists|k: int| 0 <= k < a.len() && wanted(#[trigger] a[k], asked)) <==> (exists|
            k: int,
        |
            0 <= k < b.len() && wanted(#[trigger] b[k], asked))) by {
            if exists|k: int| 0 <= k < a.len() && wanted(#[trigger] a[k], asked) {
                let k = choose|k: int| 0 <= k < a.len() && wanted(#[trigger] a[k], asked);
                assert(b[k] == a[k]);
            }
            if exists|k: int| 0 <= k < b.len() && wanted(#[trigger] b[k], asked) {
                let k = choose|k: int| 0 <= k < b.len() && wanted(#[trigger] b[k], asked);
                assert(k < a.len());
                assert(b[k] == a[k]);
            }
        }
    }
    if 0 <= i < rows@.len() && (queue is None || rows@[i].queue@ == queue->0@) {
        assert(a[i] == rows@[i].deep_view());
        assert(wanted(a[i], asked));
        lemma_row(a, asked, now, i);
        lemma_shows();
        let line = crate::cli::queue::row_line(a[i], now);
        lemma_row_line(a[i], now);
        lemma_shows_through(r@, line);
    }
}

proof fn lemma_shows_through(text: Seq<char>, part: Seq<char>)
    requires
        shows(text, part),
    ensures
        forall|p: Seq<char>| #[trigger] shows(part, p) ==> shows(text, p),
{
    let (a, b) = choose|a: Seq<char>, b: Seq<char>| text == #[trigger] (a + part + b);
    assert forall|p: Seq<char>| #[trigger] shows(part, p) implies shows(text, p) by {
        let (c, d) = choose|c: Seq<char>, d: Seq<char>| part == #[trigger] (c + p + d);
        assert(text =~= (a + c) + p + (d + b));
    }
}

proof fn lemma_row(
    rows: Seq<crate::cli::queue::RowView>,
    queue: Option<Seq<char>>,
    now: Timestamp,
    i: int,
)
    requires
        0 <= i < rows.len(),
        wanted(rows[i], queue),
    ensures
        shows(row_lines(rows, queue, now), crate::cli::queue::row_line(rows[i], now)),
    decreases rows.len(),
{
    lemma_shows();
    if i < rows.len() - 1 {
        lemma_row(rows.drop_last(), queue, now, i);
    }
}

proof fn lemma_padded(text: Seq<char>, width: nat)
    ensures
        shows(crate::cli::queue::padded(text, width), text),
{
    lemma_shows();
}

proof fn lemma_row_line(row: crate::cli::queue::RowView, now: Timestamp)
    ensures
        row.name is Some ==> shows(crate::cli::queue::row_line(row, now), row.name->0),
        row.state is Some ==> shows(
            crate::cli::queue::row_line(row, now),
            state_name(row.state->0),
        ),
        row.job_id is Some ==> shows(
            crate::cli::queue::row_line(row, now),
            dec(row.job_id->0 as nat),
        ),
        shows(crate::cli::queue::row_line(row, now), row.queue),
        shows(crate::cli::queue::row_line(row, now), dec(row.nodes as nat)),
{
    lemma_shows();
    if row.name is Some {
        lemma_padded(row.name->0, 32);
    }
    if row.state is Some {
        lemma_padded(state_name(row.state->0), 16);
    }
    if row.job_id is Some {
        lemma_padded(dec(row.job_id->0 as nat), 8);
    }
    lemma_padded(row.queue, 16);
    lemma_padded(dec(row.nodes as nat), 8);
}

/// The logs of a job are asked for by the labels of its pods, and those of one rank by its
/// rank as well.
pub proof fn law_logs_are_asked_for_by_label(job: &str, rank: u32, all: String, one: String)
    requires
        call_ensures(build_label_selector, (job, None), all),
        call_ensures(build_label_selector, (job, Some(rank)), one),
    ensures
        all@ == "wren.giar.dev/job-name="@ + job@,
        one@ == all@ + ",wren.giar.dev/rank="@ + dec(rank as nat),
{
}

/// The log of a single pod is printed as it is. Where several are shown, each line bears the
/// name of its pod: a further line is printed like the first.
pub proof fn law_log_lines_bear_their_pod(
    pod: &str,
    log: &str,
    line: Seq<char>,
    rest: &str,
    plain: String,
    all: String,
    others: String,
)
    requires
        call_ensures(format_log, (pod, log, false), plain),
        call_ensures(format_log, (pod, log, true), all),
        call_ensures(format_log, (pod, rest, true), others),
        forall|i: int| 0 <= i < line.len() ==> #[trigger] line[i] != '\n',
        line.len() > 0 && line.last() != '\r',
    ensures
        plain@ == log@,
        log@.len() == 0 ==> all@.len() == 0,
        log@ == line ==> all@ == "["@ + pod@ + "] "@ + line + "\n"@,
        log@ == line + seq!['\n'] + rest@ ==> all@ == "["@ + pod@ + "] "@ + line + "\n"@ + others@,
{
    let joined_log = line + seq!['\n'] + rest@;
    crate::cli::logs::lemma_first_index(line, '\n', line.len() as int);
    assert forall|k: int| 0 <= k < line.len() implies joined_log[k] != '\n' by {
        assert(line[k] != '\n');
    }
    crate::cli::logs::lemma_first_index(joined_log, '\n', line.len() as int);
    assert(joined_log.take(line.len() as int) =~= line);
    assert(joined_log.skip(line.len() as int + 1) =~= rest@);
}

/// What is given on submission replaces what a job states of its queue and its nodes, and
/// nothing else; what is not given stays.
pub proof fn law_submission_overrides_what_is_given(
    spec: &mut WrenJobSpec,
    mpi_spec: &mut MPIJobSpec,
    queue: Option<&str>,
    nodes: Option<u32>,
)
    requires
        call_ensures(override_wrenjob, (spec, queue, nodes), ()),
        call_ensures(override_mpijob, (mpi_spec, queue, nodes), ()),
    ensures
        queue is Some ==> final(spec).queue@ == queue->0@ && final(mpi_spec).queue@ == queue->0@,
        queue is None ==> final(spec).queue@ == old(spec).queue@ && final(mpi_spec).queue@ == old(
            mpi_spec,
        ).queue@,
        nodes is Some ==> final(spec).nodes == nodes->0 && final(mpi_spec).nodes == nodes->0,
        nodes is None ==> final(spec).nodes == old(spec).nodes && final(mpi_spec).nodes == old(
            mpi_spec,
        ).nodes,
        final(spec).priority == old(spec).priority,
        final(spec).walltime == old(spec).walltime,
        final(spec).tasks_per_node == old(spec).tasks_per_node,
        final(spec).container == old(spec).container,
        final(spec).reaper == old(spec).reaper,
        final(spec).dependencies == old(spec).dependencies,
        final(mpi_spec).priority == old(mpi_spec).priority,
        final(mpi_spec).walltime == old(mpi_spec).walltime,
        final(mpi_spec).container == old(mpi_spec).container,
{
}

/// A job is submitted to the namespace that it states, or else to the default one, and what
/// is said of it names it.
pub proof fn law_messages_name_the_job(
    name: &str,
    namespace: &str,
    own: String,
    other: String,
    submitted: String,
    cancelled: String,
    missing: String,
)
    requires
        call_ensures(namespace_of, (Some(name),), own),
        call_ensures(namespace_of, (None,), other),
        call_ensures(submitted_message, (Some(name), namespace), submitted),
        call_ensures(cancelled_message, (name,), cancelled),
        call_ensures(no_pods_message, (name, None, namespace), missing),
    ensures
        own@ == name@,
        other@ == "default"@,
        submitted@ == "job/"@ + name@ + " submitted to namespace "@ + namespace@,
        cancelled@ == "job/"@ + name@ + " cancelled"@,
        shows(missing@, name@) && shows(missing@, namespace@),
{
    lemma_shows();
}

/// By the clock, an age is what is shown for the seconds that have passed.
pub proof fn law_ages_go_by_the_clock(
    then: &Timestamp,
    now: Timestamp,
    elapsed: i64,
    r: String,
    s: String,
)
    requires
        call_ensures(format_age_at, (then, now), r),
        call_ensures(age_of_seconds, (elapsed,), s),
        then.nanos < 1_000_000_000,
        now.nanos < 1_000_000_000,
        0 <= then.seconds <= 253_402_300_799,
        0 <= now.seconds <= 253_402_300_799,
        elapsed == now.seconds - then.seconds - (if now.nanos < then.nanos {
            1int
        } else {
            0
        }),
    ensures
        r@ == s@,
{
    let span = now.total_nanos() - then.total_nanos();
    assert(span == (now.seconds - then.seconds) * 1_000_000_000 + now.nanos - then.nanos);
    if span >= 0 {
        assert(span / 1_000_000_000 == elapsed);
    } else {
        assert(elapsed < 0);
    }
}

} // verus!
