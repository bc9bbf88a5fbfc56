//! MPI jobs in containers: a service, a hostfile, workers and a launcher.

use vstd::prelude::*;
use vstd::slice::*;
use vstd::string::*;
use crate::bubo::mpi;
use crate::controller::launch::{concat, hostfile, mpirun_words, push_words};
use crate::controller::manifest::{
    copy_env, push_env, first_node, first_node_of, worker_names, ConfigMap, LaunchPlan, LaunchStep,
    MetaView, ObjectMeta, Pod, PodReport, ReportView, Service,
};
use crate::controller::pods::{find_launcher, launched_status, launcher_of, status_with_launcher};
use crate::model::backend::{BackendJobStatus, BackendView, LaunchResult};
use crate::model::crd::{EnvVar, MPIJobSpec};
use crate::model::error::{BuboError, ErrorView};
use crate::scheduler::gang::Placement;
use crate::text::{dec, decimal};

verus! {

/// Label under which pods bear their role.
pub open spec fn role_key() -> Seq<char> {
    "bubo.io/role"@
}

/// What is missing when a job for the container backend has no container.
pub open spec fn no_container() -> ErrorView {
    ErrorView::ValidationError { reason: "container spec required for container backend"@ }
}

/// The headless service for worker pod DNS discovery.
pub fn build_headless_service(job_name: &str, namespace: &str) -> (r: Service)
    ensures
        r.is_headless(
            job_name@ + "-workers"@,
            namespace@,
            mpi::labels(job_name@, "worker"@, None),
        ),
{
    Service::headless(
        mpi::headless_service_name(job_name),
        namespace,
        mpi::job_labels(job_name, "worker", None),
    )
}

/// The ConfigMap with the hostfile.
pub fn build_hostfile_configmap(
    job_name: &str,
    namespace: &str,
    placement: &Placement,
    tasks_per_node: u32,
) -> (r: ConfigMap)
    ensures
        r.is_hostfile(
            job_name@ + "-hostfile"@,
            namespace@,
            mpi::labels(job_name@, "config"@, None),
            hostfile(placement.nodes.deep_view(), tasks_per_node as nat),
        ),
{
    ConfigMap::with_hostfile(
        mpi::hostfile_configmap_name(job_name),
        namespace,
        mpi::job_labels(job_name, "config", None),
        mpi::generate_hostfile(placement, tasks_per_node),
    )
}

/// Whether `pod` is the worker of a job on `node` with the rank `rank`: its
/// environment is that of the container, followed by rank and job name.
pub open spec fn is_worker_pod(
    pod: Pod,
    job: Seq<char>,
    namespace: Seq<char>,
    spec: MPIJobSpec,
    node: Seq<char>,
    rank: u32,
) -> bool {
    &&& pod.security_context is None
    &&& pod.is_worker(
        MetaView {
            name: job + "-worker-"@ + dec(rank as nat),
            namespace,
            labels: mpi::labels(job, "worker"@, Some(rank)),
        },
        spec.container->0,
        spec.container->0.env.deep_view().push(("BUBO_RANK"@, dec(rank as nat))).push(
            ("BUBO_JOB_NAME"@, job),
        ),
        job + "-workers"@,
        node,
    )
}

/// Whether `pod` is the launcher of a job: it runs the job's command and arguments
/// under `mpirun`, on the first node of the placement.
pub open spec fn is_launcher_pod(
    pod: Pod,
    job: Seq<char>,
    namespace: Seq<char>,
    spec: MPIJobSpec,
    placement: Placement,
) -> bool {
    &&& pod.security_context is None
    &&& pod.is_launcher(
        MetaView {
            name: job + "-launcher"@,
            namespace,
            labels: mpi::labels(job, "launcher"@, None),
        },
        spec.container->0.image@,
        mpirun_words(
            (spec.nodes * spec.tasks_per_node) as nat,
            "/etc/bubo/hostfile"@,
            spec.mpi,
        ) + spec.container->0.command.deep_view() + spec.container->0.args.deep_view(),
        seq![
            ("BUBO_JOB_NAME"@, job),
            ("BUBO_NUM_NODES"@, dec(spec.nodes as nat)),
            ("BUBO_TOTAL_RANKS"@, dec((spec.nodes * spec.tasks_per_node) as nat)),
        ],
        first_node(placement),
    )
}

/// The worker pod on a specific node.
pub fn build_worker_pod(
    job_name: &str,
    namespace: &str,
    spec: &MPIJobSpec,
    node_name: &str,
    rank: u32,
) -> (r: Result<Pod, BuboError>)
    ensures
        match r {
            Ok(pod) => spec.container is Some && is_worker_pod(
                pod,
                job_name@,
                namespace@,
                *spec,
                node_name@,
                rank,
            ),
            Err(e) => spec.container is None && e@ == no_container(),
        },
{
    let container = match &spec.container {
        Some(container) => container,
        None => {
            return Err(
                BuboError::ValidationError {
                    reason: "container spec required for container backend".to_owned(),
                },
            );
        },
    };
    let mut env = copy_env(&container.env);
    push_env(&mut env, "BUBO_RANK", decimal(rank as u64).as_str());
    push_env(&mut env, "BUBO_JOB_NAME", job_name);
    let metadata = ObjectMeta {
        name: mpi::worker_pod_name(job_name, rank),
        namespace: namespace.to_owned(),
        labels: mpi::job_labels(job_name, "worker", Some(rank)),
    };
    Ok(Pod::worker(metadata, container, env, mpi::headless_service_name(job_name), node_name))
}

/// The launcher pod that runs the MPI command.
pub fn build_launcher_pod(
    job_name: &str,
    namespace: &str,
    spec: &MPIJobSpec,
    placement: &Placement,
) -> (r: Result<Pod, BuboError>)
    requires
        spec.container is Some ==> mpi::ranks_fit(*spec),
    ensures
        match r {
            Ok(pod) => spec.container is Some && is_launcher_pod(
                pod,
                job_name@,
                namespace@,
                *spec,
                *placement,
            ),
            Err(e) => spec.container is None && e@ == no_container(),
        },
{
    let container = match &spec.container {
        Some(container) => container,
        None => {
            return Err(
                BuboError::ValidationError {
                    reason: "container spec required for container backend".to_owned(),
                },
            );
        },
    };
    let mut command = mpi::mpirun_args(spec, "/etc/bubo/hostfile");
    push_words(&mut command, &container.command);
    push_words(&mut command, &container.args);
    let mut env: Vec<EnvVar> = Vec::new();
    push_env(&mut env, "BUBO_JOB_NAME", job_name);
    push_env(&mut env, "BUBO_NUM_NODES", decimal(spec.nodes as u64).as_str());
    push_env(&mut env, "BUBO_TOTAL_RANKS", decimal(mpi::total_ranks(spec) as u64).as_str());
    proof {
        assert(env.deep_view() =~= seq![
            ("BUBO_JOB_NAME"@, job_name@),
            ("BUBO_NUM_NODES"@, dec(spec.nodes as nat)),
            ("BUBO_TOTAL_RANKS"@, dec((spec.nodes * spec.tasks_per_node) as nat)),
        ]);
    }
    let metadata = ObjectMeta {
        name: mpi::launcher_pod_name(job_name),
        namespace: namespace.to_owned(),
        labels: mpi::job_labels(job_name, "launcher", None),
    };
    Ok(
        Pod::launcher(
            metadata,
            &container.image,
            command,
            env,
            first_node_of(placement),
        ),
    )
}

/// What is said of a launch on `nodes` nodes.
pub open spec fn launch_message(nodes: nat) -> Seq<char> {
    "launched "@ + dec(nodes) + " worker pods + launcher on "@ + dec(nodes) + " nodes"@
}

/// What is said of a launch on `nodes` nodes.
pub fn launched_message(nodes: usize) -> (r: String)
    ensures
        r@ == launch_message(nodes as nat),
{
    let mut message = "launched ".to_owned();
    message.append(decimal(nodes as u64).as_str());
    message.append(" worker pods + launcher on ");
    message.append(decimal(nodes as u64).as_str());
    message.append(" nodes");
    message
}

impl LaunchPlan {
    /// Whether this is the launch of a job: the service and the hostfile, then, where
    /// the job has a container, a worker on each node and the launcher.
    pub open spec fn launches(
        self,
        job: Seq<char>,
        namespace: Seq<char>,
        spec: MPIJobSpec,
        placement: Placement,
    ) -> bool {
        let n = placement.nodes@.len();
        let steps = self.steps@;
        &&& steps.len() == (if spec.container is Some {
            n + 3
        } else {
            2
        })
        &&& steps[0] matches LaunchStep::Service(s) && s.is_headless(
            job + "-workers"@,
            namespace,
            mpi::labels(job, "worker"@, None),
        )
        &&& steps[1] matches LaunchStep::ConfigMap(c) && c.is_hostfile(
            job + "-hostfile"@,
            namespace,
            mpi::labels(job, "config"@, None),
            hostfile(placement.nodes.deep_view(), spec.tasks_per_node as nat),
        )
        &&& match self.outcome {
            Ok(result) => spec.container is Some && (forall|k: int|
                0 <= k < n ==> ((#[trigger] steps[k + 2]) matches LaunchStep::Pod(p)
                    && is_worker_pod(
                    p,
                    job,
                    namespace,
                    spec,
                    placement.nodes@[k]@,
                    k as u32,
                ))) && (steps[n as int + 2] matches LaunchStep::Pod(p) && is_launcher_pod(
                p,
                job,
                namespace,
                spec,
                placement,
            )) && result.resource_ids.deep_view() == worker_names(job, n).push(job + "-launcher"@)
                && result.message@ == launch_message(n),
            Err(e) => spec.container is None && e@ == no_container(),
        }
    }
}

/// What launching a job on its nodes creates.
pub fn plan_launch(
    job_name: &str,
    namespace: &str,
    spec: &MPIJobSpec,
    placement: &Placement,
) -> (r: LaunchPlan)
    requires
        spec.container is Some ==> mpi::ranks_fit(*spec),
    ensures
        r.launches(job_name@, namespace@, *spec, *placement),
{
    let mut steps: Vec<LaunchStep> = Vec::new();
    let mut resource_ids: Vec<String> = Vec::new();
    steps.push(LaunchStep::Service(build_headless_service(job_name, namespace)));
    steps.push(
        LaunchStep::ConfigMap(
            build_hostfile_configmap(job_name, namespace, placement, spec.tasks_per_node),
        ),
    );
    if spec.container.is_none() {
        return LaunchPlan {
            steps,
            outcome: Err(
                BuboError::ValidationError {
                    reason: "container spec required for container backend".to_owned(),
                },
            ),
        };
    }
    let n = placement.nodes.len();
    let ghost first_steps = steps@;
    let mut k: usize = 0;
    while k < n
        invariant
            k <= n,
            n == placement.nodes.len(),
            spec.container is Some,
            first_steps.len() == 2,
            steps.len() == k + 2,
            steps@[0] == first_steps[0],
            steps@[1] == first_steps[1],
            forall|i: int|
                0 <= i < k ==> ((#[trigger] steps@[i + 2]) matches LaunchStep::Pod(p)
                    && is_worker_pod(
                    p,
                    job_name@,
                    namespace@,
                    *spec,
                    placement.nodes@[i]@,
                    i as u32,
                )),
            resource_ids.deep_view() == worker_names(job_name@, k as nat),
        decreases n - k,
    {
        let rank = k as u32;
        match build_worker_pod(job_name, namespace, spec, placement.nodes[k].as_str(), rank) {
            Ok(pod) => {
                let ghost before = resource_ids.deep_view();
                resource_ids.push(pod.metadata.name.clone());
                proof {
                    assert(pod.metadata@.name == pod.metadata.name@);
                    assert(resource_ids.deep_view() =~= before.push(pod.metadata.name@));
                    assert(worker_names(job_name@, (k + 1) as nat) =~= before.push(
                        pod.metadata.name@,
                    ));
                }
                let ghost earlier = steps@;
                steps.push(LaunchStep::Pod(pod));
                proof {
                    assert forall|i: int| 0 <= i < k + 1 implies ((#[trigger] steps@[i + 2])
                        matches LaunchStep::Pod(p) && is_worker_pod(
                        p,
                        job_name@,
                        namespace@,
                        *spec,
                        placement.nodes@[i]@,
                        i as u32,
                    )) by {
                        if i < k {
                            assert(earlier[i + 2] == steps@[i + 2]);
                        }
                    }
                }
            },
            Err(_) => {},
        }
        k += 1;
    }
    proof {
        assert(resource_ids.deep_view() =~= worker_names(job_name@, n as nat));
    }
    match build_launcher_pod(job_name, namespace, spec, placement) {
        Ok(pod) => {
            let ghost before = resource_ids.deep_view();
            resource_ids.push(pod.metadata.name.clone());
            proof {
                assert(pod.metadata@.name == pod.metadata.name@);
                assert(resource_ids.deep_view() =~= before.push(pod.metadata.name@));
            }
            let ghost earlier = steps@;
            steps.push(LaunchStep::Pod(pod));
            proof {
                assert forall|i: int| 0 <= i < n implies ((#[trigger] steps@[i + 2])
                    matches LaunchStep::Pod(p) && is_worker_pod(
                    p,
                    job_name@,
                    namespace@,
                    *spec,
                    placement.nodes@[i]@,
                    i as u32,
                )) by {
                    assert(earlier[i + 2] == steps@[i + 2]);
                }
            }
            let message = launched_message(n);
            LaunchPlan { steps, outcome: Ok(LaunchResult { resource_ids, message }) }
        },
        Err(e) => LaunchPlan { steps, outcome: Err(e) },
    }
}

/// How a job is doing, as far as its pods show it: not found without pods, else by
/// its launcher, and by the readiness of its workers until the launcher has ended.
pub open spec fn pods_status(pods: Seq<ReportView>) -> BackendView {
    if pods.len() == 0 {
        BackendView::NotFound
    } else {
        launched_status(pods, role_key(), launcher_of(pods, role_key()))
    }
}

/// Interprets the status of a job from its pods.
pub fn interpret_pod_status(pods: &[PodReport]) -> (r: BackendJobStatus)
    ensures
        r@ == pods_status(pods.deep_view()),
{
    if pods.len() == 0 {
        return BackendJobStatus::NotFound;
    }
    let launcher = find_launcher(pods, "bubo.io/role");
    status_with_launcher(pods, "bubo.io/role", launcher)
}

/// Selects the pods of a job.
pub fn pod_selector(job_name: &str) -> (r: String)
    ensures
        r@ == "bubo.io/job-name="@ + job_name@,
{
    concat("bubo.io/job-name=", job_name)
}

} // verus!
