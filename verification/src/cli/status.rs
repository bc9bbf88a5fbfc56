//! What is shown of one job.

use vstd::prelude::*;
use vstd::string::*;
use crate::model::crd::{DependencyType, DependencyView, JobDependency, MPIJobSpec, MPIJobStatus};
use crate::model::types::{ExecutionBackendType, JobState};
use crate::text::{dec, decimal, join, joined, signed_dec, signed_decimal};
use crate::wren::crd::{WrenJobSpec, WrenJobStatus};

verus! {

/// A line: a label and a value.
pub open spec fn line(label: Seq<char>, value: Seq<char>) -> Seq<char> {
    label + value + "\n"@
}

/// A line where there is a value, and else nothing.
pub open spec fn line_if(label: Seq<char>, value: Option<Seq<char>>) -> Seq<char> {
    match value {
        Some(text) => line(label, text),
        None => Seq::empty(),
    }
}

/// Name of a backend.
pub open spec fn backend_name(backend: ExecutionBackendType) -> Seq<char> {
    match backend {
        ExecutionBackendType::Container => "container"@,
        ExecutionBackendType::Reaper => "reaper"@,
    }
}

/// Name of a kind of dependency.
pub open spec fn dependency_name(dep_type: DependencyType) -> Seq<char> {
    match dep_type {
        DependencyType::AfterOk => "AfterOk"@,
        DependencyType::AfterAny => "AfterAny"@,
        DependencyType::AfterNotOk => "AfterNotOk"@,
    }
}

/// What is shown of what a job asks for.
pub open spec fn request_text(
    name: Seq<char>,
    namespace: Seq<char>,
    queue: Seq<char>,
    priority: i32,
    nodes: u32,
    tasks_per_node: u32,
    backend: ExecutionBackendType,
    walltime: Option<Seq<char>>,
) -> Seq<char> {
    line("Name:        "@, name) + line("Namespace:   "@, namespace) + line("Queue:       "@, queue)
        + line("Priority:    "@, signed_dec(priority as int)) + line(
        "Nodes:       "@,
        dec(nodes as nat),
    ) + line("Tasks/Node:  "@, dec(tasks_per_node as nat)) + line(
        "Backend:     "@,
        backend_name(backend),
    ) + line_if("Walltime:    "@, walltime)
}

/// What is shown of how a job is doing.
pub open spec fn progress_text(
    state: JobState,
    message: Option<Seq<char>>,
    ready: u32,
    total: u32,
    start: Option<Seq<char>>,
    end: Option<Seq<char>>,
    nodes: Seq<Seq<char>>,
) -> Seq<char> {
    line("  State:       "@, state.name()) + line_if("  Message:     "@, message) + line(
        "  Workers:     "@,
        dec(ready as nat) + "/"@ + dec(total as nat),
    ) + line_if("  Start Time:  "@, start) + line_if("  End Time:    "@, end) + line_if(
        "  Nodes:       "@,
        if nodes.len() == 0 {
            None
        } else {
            Some(joined(nodes, ", "@))
        },
    )
}

/// What is shown of a job that has no status yet.
pub open spec fn no_progress_text() -> Seq<char> {
    line("  State:       "@, "Unknown (no status subresource)"@)
}

/// A line for each dependency.
pub open spec fn dependency_lines(deps: Seq<DependencyView>) -> Seq<char>
    decreases deps.len(),
{
    if deps.len() == 0 {
        Seq::empty()
    } else {
        dependency_lines(deps.drop_last()) + line(
            "  "@ + dependency_name(deps.last().dep_type) + " -> "@,
            deps.last().job,
        )
    }
}

/// What is shown of the dependencies of a job.
pub open spec fn dependencies_text(deps: Seq<DependencyView>) -> Seq<char> {
    if deps.len() == 0 {
        Seq::empty()
    } else {
        "\nDependencies:\n"@ + dependency_lines(deps)
    }
}

/// What is shown of a job: what it asks for, how it is doing, what it depends on.
pub open spec fn job_text(
    request: Seq<char>,
    progress: Seq<char>,
    deps: Seq<DependencyView>,
) -> Seq<char> {
    request + "\nStatus:\n"@ + progress + dependencies_text(deps)
}

fn push_line(out: &mut String, label: &str, value: &str)
    ensures
        final(out)@ == old(out)@ + line(label@, value@),
{
    let ghost before = out@;
    out.append(label);
    out.append(value);
    out.append("\n");
    proof {
        assert(out@ =~= before + line(label@, value@));
    }
}

fn push_line_if(out: &mut String, label: &str, value: &Option<String>)
    ensures
        final(out)@ == old(out)@ + line_if(label@, value.deep_view()),
{
    match value {
        Some(text) => push_line(out, label, text.as_str()),
        None => {
            proof {
                assert(out@ =~= out@ + Seq::<char>::empty());
            }
        },
    }
}

fn backend_label(backend: ExecutionBackendType) -> (r: &'static str)
    ensures
        r@ == backend_name(backend),
{
    match backend {
        ExecutionBackendType::Container => "container",
        ExecutionBackendType::Reaper => "reaper",
    }
}

fn dependency_label(dep_type: DependencyType) -> (r: &'static str)
    ensures
        r@ == dependency_name(dep_type),
{
    match dep_type {
        DependencyType::AfterOk => "AfterOk",
        DependencyType::AfterAny => "AfterAny",
        DependencyType::AfterNotOk => "AfterNotOk",
    }
}

fn format_request(
    name: &str,
    namespace: &str,
    queue: &str,
    priority: i32,
    nodes: u32,
    tasks_per_node: u32,
    backend: ExecutionBackendType,
    walltime: &Option<String>,
) -> (r: String)
    ensures
        r@ == request_text(
            name@,
            namespace@,
            queue@,
            priority,
            nodes,
            tasks_per_node,
            backend,
            walltime.deep_view(),
        ),
{
    let mut out = String::new();
    push_line(&mut out, "Name:        ", name);
    proof {
        assert(out@ =~= line("Name:        "@, name@));
    }
    push_line(&mut out, "Namespace:   ", namespace);
    push_line(&mut out, "Queue:       ", queue);
    push_line(&mut out, "Priority:    ", signed_decimal(priority as i64).as_str());
    push_line(&mut out, "Nodes:       ", decimal(nodes as u64).as_str());
    push_line(&mut out, "Tasks/Node:  ", decimal(tasks_per_node as u64).as_str());
    push_line(&mut out, "Backend:     ", backend_label(backend));
    push_line_if(&mut out, "Walltime:    ", walltime);
    out
}

fn format_progress(
    state: JobState,
    message: &Option<String>,
    ready: u32,
    total: u32,
    start: &Option<String>,
    end: &Option<String>,
    nodes: &Vec<String>,
) -> (r: String)
    ensures
        r@ == progress_text(
            state,
            message.deep_view(),
            ready,
            total,
            start.deep_view(),
            end.deep_view(),
            nodes.deep_view(),
        ),
{
    let mut out = String::new();
    push_line(&mut out, "  State:       ", state.as_str());
    proof {
        assert(out@ =~= line("  State:       "@, state.name()));
    }
    push_line_if(&mut out, "  Message:     ", message);
    let mut workers = decimal(ready as u64);
    workers.append("/");
    workers.append(decimal(total as u64).as_str());
    push_line(&mut out, "  Workers:     ", workers.as_str());
    push_line_if(&mut out, "  Start Time:  ", start);
    push_line_if(&mut out, "  End Time:    ", end);
    let names = if nodes.len() == 0 {
        None
    } else {
        Some(join(nodes, ", "))
    };
    push_line_if(&mut out, "  Nodes:       ", &names);
    out
}

fn push_dependencies(out: &mut String, deps: &Vec<JobDependency>)
    ensures
        final(out)@ == old(out)@ + dependencies_text(deps.deep_view()),
{
    let ghost before = out@;
    let ghost all = deps.deep_view();
    if deps.len() == 0 {
        proof {
            assert(before + Seq::<char>::empty() =~= before);
        }
        return;
    }
    out.append("\nDependencies:\n");
    let ghost start = out@;
    let mut i: usize = 0;
    proof {
        assert(start + dependency_lines(all.take(0)) =~= start);
    }
    while i < deps.len()
        invariant
            i <= deps.len(),
            all == deps.deep_view(),
            out@ == start + dependency_lines(all.take(i as int)),
        decreases deps.len() - i,
    {
        let mut label = "  ".to_owned();
        label.append(dependency_label(deps[i].dep_type));
        label.append(" -> ");
        push_line(out, label.as_str(), deps[i].job.as_str());
        proof {
            let next = all.take(i + 1);
            assert(next.drop_last() =~= all.take(i as int));
            assert(next.last() == deps[i as int].deep_view());
            assert(out@ =~= start + dependency_lines(next));
        }
        i += 1;
    }
    proof {
        assert(all.take(all.len() as int) =~= all);
        assert(out@ =~= before + dependencies_text(all));
    }
}

/// What is shown of a Wren job.
pub open spec fn wren_job_text(
    name: Seq<char>,
    namespace: Seq<char>,
    spec: WrenJobSpec,
    status: Option<&WrenJobStatus>,
) -> Seq<char> {
    let request = request_text(
        name,
        namespace,
        spec.queue@,
        spec.priority,
        spec.nodes,
        spec.tasks_per_node,
        spec.backend,
        spec.walltime.deep_view(),
    );
    let deps = spec.dependencies.deep_view();
    match status {
        Some(s) => line_if(
            "JobID:       "@,
            match s.job_id {
                Some(id) => Some(dec(id as nat)),
                None => None,
            },
        ) + job_text(
            request,
            progress_text(
                s.state,
                s.message.deep_view(),
                s.ready_workers,
                s.total_workers,
                s.start_time.deep_view(),
                s.completion_time.deep_view(),
                s.assigned_nodes.deep_view(),
            ),
            deps,
        ),
        None => job_text(request, no_progress_text(), deps),
    }
}

/// Formats what is shown of a Wren job: its identifier, where it has one, what it asks
/// for, how it is doing, and what it depends on.
pub fn format_job_status(
    name: &str,
    namespace: &str,
    spec: &WrenJobSpec,
    status: Option<&WrenJobStatus>,
) -> (r: String)
    ensures
        r@ == wren_job_text(name@, namespace@, *spec, status),
{
    let request = format_request(
        name,
        namespace,
        spec.queue.as_str(),
        spec.priority,
        spec.nodes,
        spec.tasks_per_node,
        spec.backend,
        &spec.walltime,
    );
    let mut out = String::new();
    let mut progress = String::new();
    match status {
        Some(s) => {
            let id = match s.job_id {
                Some(id) => Some(decimal(id)),
                None => None,
            };
            push_line_if(&mut out, "JobID:       ", &id);
            progress =
            format_progress(
                s.state,
                &s.message,
                s.ready_workers,
                s.total_workers,
                &s.start_time,
                &s.completion_time,
                &s.assigned_nodes,
            );
        },
        None => {
            push_line(&mut progress, "  State:       ", "Unknown (no status subresource)");
            proof {
                assert(progress@ =~= no_progress_text());
            }
        },
    }
    let ghost head = out@;
    out.append(request.as_str());
    out.append("\nStatus:\n");
    out.append(progress.as_str());
    push_dependencies(&mut out, &spec.dependencies);
    proof {
        assert(out@ =~= head + job_text(
            request@,
            progress@,
            spec.dependencies.deep_view(),
        ));
        assert(status is None ==> head =~= Seq::<char>::empty());
        assert(out@ =~= wren_job_text(name@, namespace@, *spec, status));
    }
    out
}

/// What is shown of an MPI job.
pub open spec fn mpi_job_text(
    name: Seq<char>,
    namespace: Seq<char>,
    spec: MPIJobSpec,
    status: Option<&MPIJobStatus>,
) -> Seq<char> {
    job_text(
        request_text(
            name,
            namespace,
            spec.queue@,
            spec.priority,
            spec.nodes,
            spec.tasks_per_node,
            spec.backend,
            spec.walltime.deep_view(),
        ),
        match status {
            Some(s) => progress_text(
                s.state,
                s.message.deep_view(),
                s.ready_workers,
                s.total_workers,
                s.start_time.deep_view(),
                s.completion_time.deep_view(),
                s.assigned_nodes.deep_view(),
            ),
            None => no_progress_text(),
        },
        spec.dependencies.deep_view(),
    )
}

/// Formats what is shown of an MPI job.
pub fn format_mpi_job_status(
    name: &str,
    namespace: &str,
    spec: &MPIJobSpec,
    status: Option<&MPIJobStatus>,
) -> (r: String)
    ensures
        r@ == mpi_job_text(name@, namespace@, *spec, status),
{
    let mut out = format_request(
        name,
        namespace,
        spec.queue.as_str(),
        spec.priority,
        spec.nodes,
        spec.tasks_per_node,
        spec.backend,
        &spec.walltime,
    );
    let mut progress = String::new();
    match status {
        Some(s) => {
            progress =
            format_progress(
                s.state,
                &s.message,
                s.ready_workers,
                s.total_workers,
                &s.start_time,
                &s.completion_time,
                &s.assigned_nodes,
            );
        },
        None => {
            push_line(&mut progress, "  State:       ", "Unknown (no status subresource)");
            proof {
                assert(progress@ =~= no_progress_text());
            }
        },
    }
    out.append("\nStatus:\n");
    out.append(progress.as_str());
    push_dependencies(&mut out, &spec.dependencies);
    out
}

} // verus!
