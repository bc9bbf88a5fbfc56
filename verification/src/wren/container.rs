//! Wren jobs in containers. A job that states how MPI is launched gets a service, a
//! hostfile, workers and a launcher; any other runs its command on each worker.

use vstd::prelude::*;
use vstd::slice::*;
use vstd::string::*;
use crate::controller::launch::{
    concat, hostfile, labels_under, mpirun_words, push_words, standard_labels, Variables,
};
use crate::controller::manifest::{
    copy_env, first_node, first_node_of, push_env, worker_names, ConfigMap, LaunchPlan, LaunchStep,
    MetaView, ObjectMeta, Pod, PodReport, ReportView, SecurityContext, Service,
};
use crate::controller::pods::{
    find_launcher, launched_status, launcher_of, status_of_workers, status_with_launcher,
    workers_status,
};
use crate::model::backend::{BackendJobStatus, BackendView, LaunchResult};
use crate::model::crd::EnvVar;
use crate::model::error::{ErrorView, WrenError};
use crate::scheduler::gang::Placement;
use crate::string_map::StringMap;
use crate::text::{dec, decimal};
use crate::wren::crd::{UserIdentity, UserView, WrenJobSpec, WrenUserSpec};
use crate::wren::mpi;
use crate::wren::user_identity::identity_of;

verus! {

/// Label under which pods bear their role.
pub open spec fn role_key() -> Seq<char> {
    "wren.giar.dev/role"@
}

/// Labels of what is created for a job.
pub open spec fn labels(job: Seq<char>, role: Seq<char>, rank: Option<u32>) -> Variables {
    labels_under("wren.giar.dev"@, "wren"@, job, role, rank)
}

/// Labels of what is created for a job.
pub fn pod_labels(job_name: &str, role: &str, rank: Option<u32>) -> (r: StringMap<String>)
    ensures
        r@ == labels(job_name@, role@, rank),
{
    standard_labels("wren.giar.dev", "wren", job_name, role, rank)
}

/// What is missing when a job for the container backend has no container.
pub open spec fn no_container() -> ErrorView {
    ErrorView::ValidationError { reason: "container spec required for container backend"@ }
}

fn container_missing() -> (r: WrenError)
    ensures
        r@ == no_container(),
{
    WrenError::ValidationError {
        reason: "container spec required for container backend".to_owned(),
    }
}

/// Says whether a job needs a launcher: it does where it states how MPI is launched.
/// Without, each worker runs the job's command itself.
pub fn needs_mpi_launcher(spec: &WrenJobSpec) -> (r: bool)
    ensures
        r == spec.mpi is Some,
{
    spec.mpi.is_some()
}

/// The headless service for worker pod DNS discovery.
pub fn build_headless_service(job_name: &str, namespace: &str) -> (r: Service)
    ensures
        r.is_headless(job_name@ + "-workers"@, namespace@, labels(job_name@, "worker"@, None)),
{
    Service::headless(
        mpi::headless_service_name(job_name),
        namespace,
        pod_labels(job_name, "worker", None),
    )
}

/// The ConfigMap with the hostfile.
pub fn build_hostfile_configmap(
    job_name: &str,
    namespace: &str,
    placement: &Placement,
    tasks_per_node: u32,
) -> (r: ConfigMap)
    ensures
        r.is_hostfile(
            job_name@ + "-hostfile"@,
            namespace@,
            labels(job_name@, "config"@, None),
            hostfile(placement.nodes.deep_view(), tasks_per_node as nat),
        ),
{
    ConfigMap::with_hostfile(
        mpi::hostfile_configmap_name(job_name),
        namespace,
        pod_labels(job_name, "config", None),
        mpi::generate_hostfile(placement, tasks_per_node),
    )
}

/// Environment variables in order.
pub type Environment = Seq<(Seq<char>, Seq<char>)>;

/// `env`, followed by the name and, where it is known, the home of the user.
pub open spec fn with_user(env: Environment, user: Option<UserView>) -> Environment {
    match user {
        Some(u) => {
            let named = env.push(("USER"@, u.username)).push(("LOGNAME"@, u.username));
            match u.home_dir {
                Some(home) => named.push(("HOME"@, home)),
                None => named,
            }
        },
        None => env,
    }
}

fn push_user(env: &mut Vec<EnvVar>, user: Option<&UserIdentity>)
    ensures
        final(env).deep_view() == with_user(old(env).deep_view(), user.deep_view()),
{
    match user {
        Some(u) => {
            push_env(env, "USER", u.username.as_str());
            push_env(env, "LOGNAME", u.username.as_str());
            match &u.home_dir {
                Some(home) => {
                    push_env(env, "HOME", home.as_str());
                },
                None => {},
            }
        },
        None => {},
    }
}

/// Whether a pod runs under the identifiers of `user`, and under none of its own
/// without one.
pub open spec fn runs_as(context: Option<SecurityContext>, user: Option<UserView>) -> bool {
    match (context, user) {
        (Some(c), Some(u)) => {
            &&& c.run_as_user == u.uid
            &&& c.run_as_group == u.gid
            &&& match c.supplemental_groups {
                Some(groups) => u.supplemental_groups.len() > 0 && groups@
                    == u.supplemental_groups.map_values(|g: u32| g as i64),
                None => u.supplemental_groups.len() == 0,
            }
        },
        (None, None) => true,
        _ => false,
    }
}

fn widen_groups(groups: &Vec<u32>) -> (r: Vec<i64>)
    ensures
        r@ == groups@.map_values(|g: u32| g as i64),
{
    let mut r: Vec<i64> = Vec::new();
    let mut i: usize = 0;
    while i < groups.len()
        invariant
            i <= groups.len(),
            r.len() == i,
            forall|k: int| 0 <= k < i ==> #[trigger] r[k] == groups[k] as i64,
        decreases groups.len() - i,
    {
        r.push(groups[i] as i64);
        i += 1;
    }
    proof {
        assert(r@ =~= groups@.map_values(|g: u32| g as i64));
    }
    r
}

/// The identity that the processes of a user's pod run under.
pub fn security_context_of(user: Option<&UserIdentity>) -> (r: Option<SecurityContext>)
    ensures
        runs_as(r, user.deep_view()),
{
    match user {
        Some(u) => {
            let supplemental_groups = if u.supplemental_groups.len() == 0 {
                None
            } else {
                Some(widen_groups(&u.supplemental_groups))
            };
            Some(
                SecurityContext {
                    run_as_user: u.uid as i64,
                    run_as_group: u.gid as i64,
                    supplemental_groups,
                },
            )
        },
        None => None,
    }
}

/// Whether `pod` is the worker of a job on `node` with the rank `rank`: its
/// environment is that of the container, followed by rank, job name and user.
pub open spec fn is_worker_pod(
    pod: Pod,
    job: Seq<char>,
    namespace: Seq<char>,
    spec: WrenJobSpec,
    node: Seq<char>,
    rank: u32,
    user: Option<UserView>,
) -> bool {
    &&& runs_as(pod.security_context, user)
    &&& pod.is_worker(
        MetaView {
            name: job + "-worker-"@ + dec(rank as nat),
            namespace,
            labels: labels(job, "worker"@, Some(rank)),
        },
        spec.container->0,
        with_user(
            spec.container->0.env.deep_view().push(("WREN_RANK"@, dec(rank as nat))).push(
                ("WREN_JOB_NAME"@, job),
            ),
            user,
        ),
        job + "-workers"@,
        node,
    )
}

/// Whether `pod` is the launcher of a job: it runs the job's command and arguments
/// under `mpirun`, on the first node of the placement.
pub open spec fn is_launcher_pod(
    pod: Pod,
    job: Seq<char>,
    namespace: Seq<char>,
    spec: WrenJobSpec,
    placement: Placement,
    user: Option<UserView>,
) -> bool {
    &&& runs_as(pod.security_context, user)
    &&& pod.is_launcher(
        MetaView { name: job + "-launcher"@, namespace, labels: labels(job, "launcher"@, None) },
        spec.container->0.image@,
        mpirun_words(
            (spec.nodes * spec.tasks_per_node) as nat,
            "/etc/wren/hostfile"@,
            spec.mpi,
        ) + spec.container->0.command.deep_view() + spec.container->0.args.deep_view(),
        with_user(
            seq![
                ("WREN_JOB_NAME"@, job),
                ("WREN_NUM_NODES"@, dec(spec.nodes as nat)),
                ("WREN_TOTAL_RANKS"@, dec((spec.nodes * spec.tasks_per_node) as nat)),
            ],
            user,
        ),
        first_node(placement),
    )
}

/// The worker pod on a specific node.
pub fn build_worker_pod(
    job_name: &str,
    namespace: &str,
    spec: &WrenJobSpec,
    node_name: &str,
    rank: u32,
    user: Option<&UserIdentity>,
) -> (r: Result<Pod, WrenError>)
    ensures
        match r {
            Ok(pod) => spec.container is Some && is_worker_pod(
                pod,
                job_name@,
                namespace@,
                *spec,
                node_name@,
                rank,
                user.deep_view(),
            ),
            Err(e) => spec.container is None && e@ == no_container(),
        },
{
    let container = match &spec.container {
        Some(container) => container,
        None => {
            return Err(container_missing());
        },
    };
    let mut env = copy_env(&container.env);
    push_env(&mut env, "WREN_RANK", decimal(rank as u64).as_str());
    push_env(&mut env, "WREN_JOB_NAME", job_name);
    push_user(&mut env, user);
    let metadata = ObjectMeta {
        name: mpi::worker_pod_name(job_name, rank),
        namespace: namespace.to_owned(),
        labels: pod_labels(job_name, "worker", Some(rank)),
    };
    let mut pod = Pod::worker(
        metadata,
        container,
        env,
        mpi::headless_service_name(job_name),
        node_name,
    );
    pod.security_context = security_context_of(user);
    Ok(pod)
}

/// The launcher pod that runs the MPI command.
pub fn build_launcher_pod(
    job_name: &str,
    namespace: &str,
    spec: &WrenJobSpec,
    placement: &Placement,
    user: Option<&UserIdentity>,
) -> (r: Result<Pod, WrenError>)
    requires
        spec.container is Some ==> mpi::ranks_fit(*spec),
    ensures
        match r {
            Ok(pod) => spec.container is Some && is_launcher_pod(
                pod,
                job_name@,
                namespace@,
                *spec,
                *placement,
                user.deep_view(),
            ),
            Err(e) => spec.container is None && e@ == no_container(),
        },
{
    let container = match &spec.container {
        Some(container) => container,
        None => {
            return Err(container_missing());
        },
    };
    let mut command = mpi::mpirun_args(spec, "/etc/wren/hostfile");
    push_words(&mut command, &container.command);
    push_words(&mut command, &container.args);
    let mut env: Vec<EnvVar> = Vec::new();
    push_env(&mut env, "WREN_JOB_NAME", job_name);
    push_env(&mut env, "WREN_NUM_NODES", decimal(spec.nodes as u64).as_str());
    push_env(&mut env, "WREN_TOTAL_RANKS", decimal(mpi::total_ranks(spec) as u64).as_str());
    proof {
        assert(env.deep_view() =~= seq![
            ("WREN_JOB_NAME"@, job_name@),
            ("WREN_NUM_NODES"@, dec(spec.nodes as nat)),
            ("WREN_TOTAL_RANKS"@, dec((spec.nodes * spec.tasks_per_node) as nat)),
        ]);
    }
    push_user(&mut env, user);
    let metadata = ObjectMeta {
        name: mpi::launcher_pod_name(job_name),
        namespace: namespace.to_owned(),
        labels: pod_labels(job_name, "launcher", None),
    };
    let mut pod = Pod::launcher(
        metadata,
        &container.image,
        command,
        env,
        first_node_of(placement),
    );
    pod.security_context = security_context_of(user);
    Ok(pod)
}

/// What is said of a launch on `nodes` nodes.
pub open spec fn launch_message(nodes: nat, launcher: bool) -> Seq<char> {
    "launched "@ + dec(nodes) + (if launcher {
        " worker pods + launcher on "@
    } else {
        " worker pods (no MPI launcher) on "@
    }) + dec(nodes) + " nodes"@
}

fn launched_message(nodes: usize, launcher: bool) -> (r: String)
    ensures
        r@ == launch_message(nodes as nat, launcher),
{
    let mut message = "launched ".to_owned();
    message.append(decimal(nodes as u64).as_str());
    message.append(
        if launcher {
            " worker pods + launcher on "
        } else {
            " worker pods (no MPI launcher) on "
        },
    );
    message.append(decimal(nodes as u64).as_str());
    message.append(" nodes");
    message
}

/// Whether the steps from `start` on begin with the workers of a job on the first
/// `n` nodes of its placement, by their ranks.
pub open spec fn workers_from(
    steps: Seq<LaunchStep>,
    start: int,
    job: Seq<char>,
    namespace: Seq<char>,
    spec: WrenJobSpec,
    placement: Placement,
    user: Option<UserView>,
    n: int,
) -> bool {
    &&& steps.len() >= start + n
    &&& forall|k: int|
        0 <= k < n ==> ((#[trigger] steps[start + k]) matches LaunchStep::Pod(p) && is_worker_pod(
            p,
            job,
            namespace,
            spec,
            placement.nodes@[k]@,
            k as u32,
            user,
        ))
}

/// Whether a launch has no container to run: with a launcher always where the job
/// names none, and else where it is to run on any node.
pub open spec fn lacks_container(spec: WrenJobSpec, placement: Placement) -> bool {
    spec.container is None && (spec.mpi is Some || placement.nodes@.len() > 0)
}

/// Whether `plan` is the launch of a job. With a launcher: the service and the
/// hostfile, then, where the job has a container, a worker on each node and the
/// launcher. Without: a worker on each node.
pub open spec fn launches(
    plan: LaunchPlan,
    job: Seq<char>,
    namespace: Seq<char>,
    spec: WrenJobSpec,
    placement: Placement,
    user: Option<UserView>,
) -> bool {
    let n = placement.nodes@.len();
    let steps = plan.steps@;
    let start = if spec.mpi is Some {
        2int
    } else {
        0
    };
    &&& spec.mpi is Some ==> steps.len() >= 2 && (steps[0] matches LaunchStep::Service(s)
        && s.is_headless(job + "-workers"@, namespace, labels(job, "worker"@, None))) && (steps[1]
        matches LaunchStep::ConfigMap(c) && c.is_hostfile(
        job + "-hostfile"@,
        namespace,
        labels(job, "config"@, None),
        hostfile(placement.nodes.deep_view(), spec.tasks_per_node as nat),
    ))
    &&& match plan.outcome {
        Err(e) => lacks_container(spec, placement) && steps.len() == start && e@ == no_container(),
        Ok(result) => {
            &&& !lacks_container(spec, placement)
            &&& workers_from(steps, start, job, namespace, spec, placement, user, n as int)
            &&& result.message@ == launch_message(n, spec.mpi is Some)
            &&& if spec.mpi is Some {
                &&& steps.len() == n + 3
                &&& steps[n as int + 2] matches LaunchStep::Pod(p) && is_launcher_pod(
                    p,
                    job,
                    namespace,
                    spec,
                    placement,
                    user,
                )
                &&& result.resource_ids.deep_view() == worker_names(job, n).push(
                    job + "-launcher"@,
                )
            } else {
                &&& steps.len() == n
                &&& result.resource_ids.deep_view() == worker_names(job, n)
            }
        },
    }
}

/// Adds the workers of a job to the steps of its launch; gives the names of their
/// pods.
fn push_workers(
    steps: &mut Vec<LaunchStep>,
    job_name: &str,
    namespace: &str,
    spec: &WrenJobSpec,
    placement: &Placement,
    user: Option<&UserIdentity>,
) -> (r: Vec<String>)
    requires
        spec.container is Some || placement.nodes@.len() == 0,
    ensures
        final(steps)@.len() == old(steps)@.len() + placement.nodes@.len(),
        final(steps)@.take(old(steps)@.len() as int) == old(steps)@,
        workers_from(
            final(steps)@,
            old(steps)@.len() as int,
            job_name@,
            namespace@,
            *spec,
            *placement,
            user.deep_view(),
            placement.nodes@.len() as int,
        ),
        r.deep_view() == worker_names(job_name@, placement.nodes@.len()),
{
    let ghost first = steps@;
    let ghost start = first.len() as int;
    let mut names: Vec<String> = Vec::new();
    let n = placement.nodes.len();
    let mut k: usize = 0;
    proof {
        assert(names.deep_view() =~= worker_names(job_name@, 0));
        assert(steps@.take(start) =~= first);
    }
    while k < n
        invariant
            k <= n,
            n == placement.nodes.len(),
            spec.container is Some || n == 0,
            start == first.len(),
            steps@.len() == start + k,
            steps@.take(start) == first,
            workers_from(
                steps@,
                start,
                job_name@,
                namespace@,
                *spec,
                *placement,
                user.deep_view(),
                k as int,
            ),
            names.deep_view() == worker_names(job_name@, k as nat),
        decreases n - k,
    {
        let rank = k as u32;
        match build_worker_pod(job_name, namespace, spec, placement.nodes[k].as_str(), rank, user) {
            Ok(pod) => {
                let ghost before = names.deep_view();
                names.push(pod.metadata.name.clone());
                proof {
                    assert(pod.metadata@.name == pod.metadata.name@);
                    assert(names.deep_view() =~= before.push(pod.metadata.name@));
                    assert(worker_names(job_name@, (k + 1) as nat) =~= before.push(
                        pod.metadata.name@,
                    ));
                }
                let ghost earlier = steps@;
                steps.push(LaunchStep::Pod(pod));
                proof {
                    assert(steps@.take(start) =~= earlier.take(start));
                    assert forall|i: int| 0 <= i < k + 1 implies ((#[trigger] steps@[start + i])
                        matches LaunchStep::Pod(p) && is_worker_pod(
                        p,
                        job_name@,
                        namespace@,
                        *spec,
                        placement.nodes@[i]@,
                        i as u32,
                        user.deep_view(),
                    )) by {
                        if i < k {
                            assert(earlier[start + i] == steps@[start + i]);
                        }
                    }
                }
            },
            Err(_) => {},
        }
        k += 1;
    }
    names
}

/// What launching a job on its nodes creates, under the identity of `user`.
pub fn plan_launch(
    job_name: &str,
    namespace: &str,
    spec: &WrenJobSpec,
    placement: &Placement,
    user: Option<&UserIdentity>,
) -> (r: LaunchPlan)
    requires
        spec.mpi is Some && spec.container is Some ==> mpi::ranks_fit(*spec),
    ensures
        launches(r, job_name@, namespace@, *spec, *placement, user.deep_view()),
{
    let launcher = needs_mpi_launcher(spec);
    let mut steps: Vec<LaunchStep> = Vec::new();
    if launcher {
        steps.push(LaunchStep::Service(build_headless_service(job_name, namespace)));
        steps.push(
            LaunchStep::ConfigMap(
                build_hostfile_configmap(job_name, namespace, placement, spec.tasks_per_node),
            ),
        );
    }
    if spec.container.is_none() && (launcher || placement.nodes.len() > 0) {
        return LaunchPlan { steps, outcome: Err(container_missing()) };
    }
    let ghost first = steps@;
    let mut resource_ids = push_workers(&mut steps, job_name, namespace, spec, placement, user);
    let n = placement.nodes.len();
    let message = launched_message(n, launcher);
    let ghost with_workers = steps@;
    proof {
        assert forall|i: int| 0 <= i < first.len() implies with_workers[i] == first[i] by {
            assert(with_workers.take(first.len() as int)[i] == with_workers[i]);
        }
    }
    if launcher {
        match build_launcher_pod(job_name, namespace, spec, placement, user) {
            Ok(pod) => {
                let ghost before = resource_ids.deep_view();
                resource_ids.push(pod.metadata.name.clone());
                proof {
                    assert(pod.metadata@.name == pod.metadata.name@);
                    assert(resource_ids.deep_view() =~= before.push(pod.metadata.name@));
                }
                steps.push(LaunchStep::Pod(pod));
                proof {
                    assert forall|i: int| 0 <= i < n implies ((#[trigger] steps@[2 + i])
                        matches LaunchStep::Pod(p) && is_worker_pod(
                        p,
                        job_name@,
                        namespace@,
                        *spec,
                        placement.nodes@[i]@,
                        i as u32,
                        user.deep_view(),
                    )) by {
                        assert(with_workers[2 + i] == steps@[2 + i]);
                    }
                }
            },
            Err(_) => {},
        }
    }
    LaunchPlan { steps, outcome: Ok(LaunchResult { resource_ids, message }) }
}

/// How a job is doing, as far as its pods show it: not found without pods; by its
/// launcher and the readiness of its workers where there is a launcher; and else by
/// its workers alone.
pub open spec fn pods_status(pods: Seq<ReportView>) -> BackendView {
    if pods.len() == 0 {
        BackendView::NotFound
    } else if launcher_of(pods, role_key()) is Some {
        launched_status(pods, role_key(), launcher_of(pods, role_key()))
    } else {
        workers_status(pods, role_key())
    }
}

/// Interprets the status of a job from its pods.
pub fn interpret_pod_status(pods: &[PodReport]) -> (r: BackendJobStatus)
    ensures
        r@ == pods_status(pods.deep_view()),
{
    if pods.len() == 0 {
        return BackendJobStatus::NotFound;
    }
    match find_launcher(pods, "wren.giar.dev/role") {
        Some(launcher) => status_with_launcher(pods, "wren.giar.dev/role", Some(launcher)),
        None => status_of_workers(pods, "wren.giar.dev/role"),
    }
}

/// Selects the pods of a job.
pub fn pod_selector(job_name: &str) -> (r: String)
    ensures
        r@ == "wren.giar.dev/job-name="@ + job_name@,
{
    concat("wren.giar.dev/job-name=", job_name)
}

/// Jobs never run as root or without an identity: where a user has been identified, as
/// is asked of every job before it is launched, what runs in its pods bears the
/// identifiers of that user, which are not those of root.
pub proof fn law_jobs_never_run_as_root(
    context: Option<SecurityContext>,
    username: Seq<char>,
    user: WrenUserSpec,
)
    requires
        user.uid != 0,
        runs_as(context, Some(identity_of(username, user))),
    ensures
        context is Some,
        context->0.run_as_user == user.uid,
        context->0.run_as_user != 0,
        context->0.run_as_group == user.gid,
{
}

} // verus!
