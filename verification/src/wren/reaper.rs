//! Wren jobs on bare metal. Each rank is a ReaperPod, which the reaper controller
//! turns into a process on its node.

use vstd::prelude::*;
use vstd::slice::*;
use vstd::string::*;
use crate::controller::launch::{
    bare_metal_variables, bare_metal_words, concat, copy_words, hostfile, or_else, put, put_absent,
    put_all, Variables,
};
use crate::controller::manifest::{first_node, ConfigMap, MetaView, ObjectMeta, SecurityContext};
use crate::controller::pods::{failure_message, failure_text};
use crate::model::backend::{BackendJobStatus, BackendView, LaunchResult};
use crate::model::error::{ErrorView, WrenError};
use crate::scheduler::gang::Placement;
use crate::string_map::StringMap;
use crate::text::{dec, decimal, join, joined, str_eq};
use crate::wren::container::{runs_as, security_context_of};
use crate::wren::crd::{
    ReaperSpec, ReaperVolumeSpec, UserIdentity, UserView, VolumeView, WrenJobSpec,
};
use crate::wren::mpi;

verus! {

/// What is reported of a ReaperPod.
#[derive(Clone, Debug, PartialEq, Eq)]
pub struct ReaperPodStatus {
    pub phase: Option<String>,
    pub pod_name: Option<String>,
    pub node_name: Option<String>,
    pub exit_code: Option<i32>,
    pub message: Option<String>,
}

impl Default for ReaperPodStatus {
    /// A ReaperPod of which nothing is known.
    fn default() -> (r: Self)
        ensures
            r.phase is None,
            r.pod_name is None,
            r.node_name is None,
            r.exit_code is None,
            r.message is None,
    {
        ReaperPodStatus {
            phase: None,
            pod_name: None,
            node_name: None,
            exit_code: None,
            message: None,
        }
    }
}

/// Version of the interface that ReaperPods belong to.
pub const API_VERSION: &'static str = "reaper.io/v1alpha1";

/// Kind of object that a rank is.
pub const KIND: &'static str = "ReaperPod";

/// One rank of a job on bare metal.
#[derive(Clone, Debug)]
pub struct ReaperPod {
    pub metadata: ObjectMeta,
    pub command: Vec<String>,
    pub args: Vec<String>,
    pub env: StringMap<String>,
    pub node_name: String,
    pub volumes: Vec<ReaperVolumeSpec>,
    pub restart_policy: String,
    pub working_dir: Option<String>,
    pub dns_mode: Option<String>,
    pub overlay_name: Option<String>,
    /// Identity that the processes run under.
    pub identity: Option<SecurityContext>,
}

/// What is wrong with what a job says of its execution on bare metal.
pub open spec fn reaper_fault(spec: WrenJobSpec) -> Option<Seq<char>> {
    match spec.reaper {
        None => Some("reaper spec required for reaper backend"@),
        Some(reaper) => if reaper.command@.len() == 0 && reaper.script is None {
            Some("reaper spec requires either 'command' or 'script'"@)
        } else {
            None
        },
    }
}

/// Where a job finds its hostfile.
pub open spec fn hostfile_path(job: Seq<char>) -> Seq<char> {
    "/tmp/wren-hostfile-"@ + job
}

/// Name of the node of the first rank; nothing without nodes.
pub open spec fn master(placement: Placement) -> Seq<char> {
    match first_node(placement) {
        Some(node) => node,
        None => Seq::empty(),
    }
}

/// What MPI adds to the environment of a job that states how it is launched.
pub open spec fn with_mpi(
    env: Variables,
    job: Seq<char>,
    spec: WrenJobSpec,
    placement: Placement,
) -> Variables {
    if spec.mpi is Some {
        env.union_prefer_right(
            bare_metal_variables(
                job,
                placement.nodes@.len(),
                (spec.nodes * spec.tasks_per_node) as nat,
                hostfile_path(job),
                spec.mpi,
            ),
        ).insert(
            "WREN_MPI_LAUNCHER"@,
            joined(
                bare_metal_words(
                    spec.nodes as nat,
                    spec.tasks_per_node as nat,
                    hostfile_path(job),
                    spec.mpi,
                ),
                " "@,
            ),
        )
    } else {
        env
    }
}

/// The name and, where it is known, the home of the user.
pub open spec fn with_user_variables(env: Variables, user: Option<UserView>) -> Variables {
    match user {
        Some(u) => {
            let named = env.insert("USER"@, u.username).insert("LOGNAME"@, u.username);
            match u.home_dir {
                Some(home) => named.insert("HOME"@, home),
                None => named,
            }
        },
        None => env,
    }
}

/// The environment of a rank: that of the job; that of MPI; rank, size and meeting
/// point; the hostfile; name and size of the job, unless they are set already; and
/// the user.
pub open spec fn rank_variables(
    own: Variables,
    job: Seq<char>,
    spec: WrenJobSpec,
    placement: Placement,
    rank: u32,
    user: Option<UserView>,
) -> Variables {
    let total = (spec.nodes * spec.tasks_per_node) as nat;
    let base = with_mpi(own, job, spec, placement).insert("WREN_MPI_RANK"@, dec(rank as nat)).insert(
        "WREN_LOCAL_RANK"@,
        "0"@,
    ).insert("MASTER_ADDR"@, master(placement)).insert("MASTER_PORT"@, "29500"@).insert(
        "RANK"@,
        dec(rank as nat),
    ).insert("WORLD_SIZE"@, dec(total)).insert("LOCAL_RANK"@, "0"@).insert(
        "WREN_HOSTFILE_CONTENT"@,
        hostfile(placement.nodes.deep_view(), spec.tasks_per_node as nat),
    ).insert("WREN_HOSTFILE_PATH"@, hostfile_path(job));
    let named = or_else(
        or_else(
            or_else(base, "WREN_JOB_NAME"@, job),
            "WREN_NUM_NODES"@,
            dec(spec.nodes as nat),
        ),
        "WREN_TOTAL_RANKS"@,
        dec(total),
    );
    with_user_variables(named, user)
}

fn push_user_variables(env: &mut StringMap<String>, user: Option<&UserIdentity>)
    ensures
        final(env)@ == with_user_variables(old(env)@, user.deep_view()),
{
    match user {
        Some(u) => {
            put(env, "USER", u.username.as_str());
            put(env, "LOGNAME", u.username.as_str());
            match &u.home_dir {
                Some(home) => {
                    put(env, "HOME", home.as_str());
                },
                None => {},
            }
        },
        None => {},
    }
}

/// What a job says of its execution on bare metal, once it is found to be sound.
fn checked_reaper(spec: &WrenJobSpec) -> (r: Result<&ReaperSpec, WrenError>)
    ensures
        match r {
            Ok(reaper) => reaper_fault(*spec) is None && spec.reaper == Some(*reaper),
            Err(e) => reaper_fault(*spec) is Some && e@ == (ErrorView::ValidationError {
                reason: reaper_fault(*spec)->0,
            }),
        },
{
    match &spec.reaper {
        Some(reaper) => {
            if reaper.command.len() == 0 && reaper.script.is_none() {
                return Err(
                    WrenError::ValidationError {
                        reason: "reaper spec requires either 'command' or 'script'".to_owned(),
                    },
                );
            }
            Ok(reaper)
        },
        None => Err(
            WrenError::ValidationError {
                reason: "reaper spec required for reaper backend".to_owned(),
            },
        ),
    }
}

/// The environment of a rank.
pub fn build_rank_env(
    job_name: &str,
    spec: &WrenJobSpec,
    placement: &Placement,
    rank: u32,
    user: Option<&UserIdentity>,
) -> (r: Result<StringMap<String>, WrenError>)
    requires
        reaper_fault(*spec) is None ==> mpi::ranks_fit(*spec),
    ensures
        match r {
            Ok(env) => reaper_fault(*spec) is None && env@ == rank_variables(
                spec.reaper->0.environment@,
                job_name@,
                *spec,
                *placement,
                rank,
                user.deep_view(),
            ),
            Err(e) => reaper_fault(*spec) is Some && e@ == (ErrorView::ValidationError {
                reason: reaper_fault(*spec)->0,
            }),
        },
{
    let reaper = match checked_reaper(spec) {
        Ok(reaper) => reaper,
        Err(e) => {
            return Err(e);
        },
    };
    let path = concat("/tmp/wren-hostfile-", job_name);
    let mut env = reaper.environment.duplicate();
    if spec.mpi.is_some() {
        let nodes = placement.nodes.as_slice();
        proof {
            assert(nodes@ == placement.nodes@);
        }
        let more = mpi::bare_metal_env_vars(job_name, spec, nodes, path.as_str());
        put_all(&mut env, &more);
        let words = mpi::bare_metal_mpirun_args(spec, path.as_str());
        put(&mut env, "WREN_MPI_LAUNCHER", join(&words, " ").as_str());
    }
    let rank_text = decimal(rank as u64);
    let total_text = decimal(mpi::total_ranks(spec) as u64);
    let hosts = mpi::generate_hostfile(placement, spec.tasks_per_node);
    put(&mut env, "WREN_MPI_RANK", rank_text.as_str());
    put(&mut env, "WREN_LOCAL_RANK", "0");
    if placement.nodes.len() == 0 {
        let none = String::new();
        put(&mut env, "MASTER_ADDR", none.as_str());
    } else {
        put(&mut env, "MASTER_ADDR", placement.nodes[0].as_str());
    }
    put(&mut env, "MASTER_PORT", "29500");
    put(&mut env, "RANK", rank_text.as_str());
    put(&mut env, "WORLD_SIZE", total_text.as_str());
    put(&mut env, "LOCAL_RANK", "0");
    put(&mut env, "WREN_HOSTFILE_CONTENT", hosts.as_str());
    put(&mut env, "WREN_HOSTFILE_PATH", path.as_str());
    put_absent(&mut env, "WREN_JOB_NAME", job_name);
    put_absent(&mut env, "WREN_NUM_NODES", decimal(spec.nodes as u64).as_str());
    put_absent(&mut env, "WREN_TOTAL_RANKS", total_text.as_str());
    push_user_variables(&mut env, user);
    Ok(env)
}

/// Labels of a rank.
pub open spec fn rank_labels(job: Seq<char>, rank: u32) -> Variables {
    Map::<Seq<char>, Seq<char>>::empty().insert("wren.giar.dev/job"@, job).insert(
        "wren.giar.dev/role"@,
        "worker"@,
    ).insert("wren.giar.dev/rank"@, dec(rank as nat)).insert(
        "app.kubernetes.io/managed-by"@,
        "wren"@,
    )
}

/// Labels of the hostfile of a job.
pub open spec fn hostfile_labels(job: Seq<char>) -> Variables {
    Map::<Seq<char>, Seq<char>>::empty().insert("wren.giar.dev/job"@, job).insert(
        "app.kubernetes.io/managed-by"@,
        "wren"@,
    )
}

/// What a rank runs: the command with its arguments, or else the script in a shell.
pub open spec fn rank_command(reaper: ReaperSpec) -> (Seq<Seq<char>>, Seq<Seq<char>>) {
    if reaper.command@.len() > 0 {
        (reaper.command.deep_view(), reaper.args.deep_view())
    } else {
        (seq!["/bin/sh"@, "-c"@], seq![reaper.script->0@])
    }
}

/// The volumes of a rank: those of the job and, where it states how MPI is launched,
/// the hostfile.
pub open spec fn rank_volumes(own: Seq<VolumeView>, job: Seq<char>, mpi: bool) -> Seq<VolumeView> {
    if mpi {
        own.push(
            VolumeView {
                name: "hostfile"@,
                mount_path: hostfile_path(job),
                read_only: true,
                config_map: Some(job + "-hostfile"@),
                secret: None,
                host_path: None,
                empty_dir: false,
            },
        )
    } else {
        own
    }
}

/// Whether `pod` is a rank of a job on `node`.
pub open spec fn is_rank(
    pod: ReaperPod,
    job: Seq<char>,
    namespace: Seq<char>,
    spec: WrenJobSpec,
    placement: Placement,
    rank: u32,
    node: Seq<char>,
    user: Option<UserView>,
) -> bool {
    let reaper = spec.reaper->0;
    &&& pod.metadata@ == MetaView {
        name: job + "-rank-"@ + dec(rank as nat),
        namespace,
        labels: rank_labels(job, rank),
    }
    &&& pod.command.deep_view() == rank_command(reaper).0
    &&& pod.args.deep_view() == rank_command(reaper).1
    &&& pod.env@ == rank_variables(reaper.environment@, job, spec, placement, rank, user)
    &&& pod.node_name@ == node
    &&& pod.volumes.deep_view() == rank_volumes(reaper.volumes.deep_view(), job, spec.mpi is Some)
    &&& pod.restart_policy@ == "Never"@
    &&& pod.working_dir.deep_view() == reaper.working_dir.deep_view()
    &&& pod.dns_mode.deep_view() == reaper.dns_mode.deep_view()
    &&& pod.overlay_name.deep_view() == reaper.overlay_name.deep_view()
    &&& runs_as(pod.identity, user)
}

fn copy_volumes(volumes: &Vec<ReaperVolumeSpec>) -> (r: Vec<ReaperVolumeSpec>)
    ensures
        r.deep_view() == volumes.deep_view(),
{
    let mut r: Vec<ReaperVolumeSpec> = Vec::new();
    let mut i: usize = 0;
    while i < volumes.len()
        invariant
            i <= volumes.len(),
            r.len() == i,
            forall|k: int| 0 <= k < i ==> #[trigger] r[k].deep_view() == volumes[k].deep_view(),
        decreases volumes.len() - i,
    {
        let v = &volumes[i];
        r.push(
            ReaperVolumeSpec {
                name: v.name.clone(),
                mount_path: v.mount_path.clone(),
                read_only: v.read_only,
                config_map: v.config_map.clone(),
                secret: v.secret.clone(),
                host_path: v.host_path.clone(),
                empty_dir: v.empty_dir,
            },
        );
        i += 1;
    }
    proof {
        assert(r.deep_view() =~= volumes.deep_view());
    }
    r
}

/// Name of the ReaperPod of a rank.
pub fn rank_pod_name(job_name: &str, rank: u32) -> (r: String)
    ensures
        r@ == job_name@ + "-rank-"@ + dec(rank as nat),
{
    let mut name = concat(job_name, "-rank-");
    name.append(decimal(rank as u64).as_str());
    name
}

/// The ReaperPod of a rank.
pub fn build_reaper_pod(
    job_name: &str,
    namespace: &str,
    spec: &WrenJobSpec,
    placement: &Placement,
    rank: u32,
    node: &str,
    user: Option<&UserIdentity>,
) -> (r: Result<ReaperPod, WrenError>)
    requires
        reaper_fault(*spec) is None ==> mpi::ranks_fit(*spec),
    ensures
        match r {
            Ok(pod) => reaper_fault(*spec) is None && is_rank(
                pod,
                job_name@,
                namespace@,
                *spec,
                *placement,
                rank,
                node@,
                user.deep_view(),
            ),
            Err(e) => reaper_fault(*spec) is Some && e@ == (ErrorView::ValidationError {
                reason: reaper_fault(*spec)->0,
            }),
        },
{
    let reaper = match checked_reaper(spec) {
        Ok(reaper) => reaper,
        Err(e) => {
            return Err(e);
        },
    };
    let env = match build_rank_env(job_name, spec, placement, rank, user) {
        Ok(env) => env,
        Err(e) => {
            return Err(e);
        },
    };
    let mut volumes = copy_volumes(&reaper.volumes);
    if spec.mpi.is_some() {
        let ghost own = volumes.deep_view();
        volumes.push(
            ReaperVolumeSpec {
                name: "hostfile".to_owned(),
                mount_path: concat("/tmp/wren-hostfile-", job_name),
                read_only: true,
                config_map: Some(mpi::hostfile_configmap_name(job_name)),
                secret: None,
                host_path: None,
                empty_dir: false,
            },
        );
        proof {
            assert(volumes.deep_view() =~= rank_volumes(own, job_name@, true));
        }
    }
    let mut command: Vec<String> = Vec::new();
    let mut args: Vec<String> = Vec::new();
    if reaper.command.len() > 0 {
        command = copy_words(&reaper.command);
        args = copy_words(&reaper.args);
    } else {
        match &reaper.script {
            Some(script) => {
                command.push("/bin/sh".to_owned());
                command.push("-c".to_owned());
                args.push(script.clone());
                proof {
                    assert(command.deep_view() =~= seq!["/bin/sh"@, "-c"@]);
                    assert(args.deep_view() =~= seq![script@]);
                }
            },
            None => {},
        }
    }
    let mut labels: StringMap<String> = StringMap::new();
    put(&mut labels, "wren.giar.dev/job", job_name);
    put(&mut labels, "wren.giar.dev/role", "worker");
    put(&mut labels, "wren.giar.dev/rank", decimal(rank as u64).as_str());
    put(&mut labels, "app.kubernetes.io/managed-by", "wren");
    Ok(
        ReaperPod {
            metadata: ObjectMeta {
                name: rank_pod_name(job_name, rank),
                namespace: namespace.to_owned(),
                labels,
            },
            command,
            args,
            env,
            node_name: node.to_owned(),
            volumes,
            restart_policy: "Never".to_owned(),
            working_dir: reaper.working_dir.clone(),
            dns_mode: reaper.dns_mode.clone(),
            overlay_name: reaper.overlay_name.clone(),
            identity: security_context_of(user),
        },
    )
}

/// The ConfigMap with the hostfile of a job.
pub fn build_hostfile_configmap(
    job_name: &str,
    namespace: &str,
    placement: &Placement,
    tasks_per_node: u32,
) -> (r: ConfigMap)
    ensures
        r.is_hostfile(
            job_name@ + "-hostfile"@,
            namespace@,
            hostfile_labels(job_name@),
            hostfile(placement.nodes.deep_view(), tasks_per_node as nat),
        ),
{
    let mut labels: StringMap<String> = StringMap::new();
    put(&mut labels, "wren.giar.dev/job", job_name);
    put(&mut labels, "app.kubernetes.io/managed-by", "wren");
    ConfigMap::with_hostfile(
        mpi::hostfile_configmap_name(job_name),
        namespace,
        labels,
        mpi::generate_hostfile(placement, tasks_per_node),
    )
}

/// What launching a job on bare metal creates, in order, and how it ends once
/// everything is created.
pub struct ReaperPlan {
    pub hostfile: Option<ConfigMap>,
    pub pods: Vec<ReaperPod>,
    pub outcome: Result<LaunchResult, WrenError>,
}

/// What is said of a launch on `nodes` nodes.
pub open spec fn launch_message(nodes: nat) -> Seq<char> {
    "created "@ + dec(nodes) + " ReaperPod CRDs across "@ + dec(nodes) + " nodes"@
}

/// Names of the ReaperPods of a job on `n` nodes.
pub open spec fn rank_names(job: Seq<char>, n: nat) -> Seq<Seq<char>> {
    Seq::new(n, |k: int| job + "-rank-"@ + dec(k as nat))
}

impl ReaperPlan {
    /// Whether this is the launch of a job on its nodes: the hostfile, where the job
    /// states how MPI is launched, and a rank on each node. On no nodes nothing is
    /// asked of what the job says of its execution.
    pub open spec fn launches(
        self,
        job: Seq<char>,
        namespace: Seq<char>,
        spec: WrenJobSpec,
        placement: Placement,
        user: Option<UserView>,
    ) -> bool {
        let n = placement.nodes@.len();
        &&& match self.hostfile {
            Some(map) => spec.mpi is Some && map.is_hostfile(
                job + "-hostfile"@,
                namespace,
                hostfile_labels(job),
                hostfile(placement.nodes.deep_view(), spec.tasks_per_node as nat),
            ),
            None => spec.mpi is None,
        }
        &&& match self.outcome {
            Ok(result) => {
                &&& n == 0 || reaper_fault(spec) is None
                &&& self.pods@.len() == n
                &&& forall|k: int|
                    0 <= k < n ==> is_rank(
                        #[trigger] self.pods@[k],
                        job,
                        namespace,
                        spec,
                        placement,
                        k as u32,
                        placement.nodes@[k]@,
                        user,
                    )
                &&& result.resource_ids.deep_view() == rank_names(job, n)
                &&& result.message@ == launch_message(n)
            },
            Err(e) => n > 0 && reaper_fault(spec) is Some && self.pods@.len() == 0 && e@ == (
            ErrorView::ValidationError { reason: reaper_fault(spec)->0 }),
        }
    }
}

/// What launching a job on bare metal creates.
pub fn plan_launch(
    job_name: &str,
    namespace: &str,
    spec: &WrenJobSpec,
    placement: &Placement,
    user: Option<&UserIdentity>,
) -> (r: ReaperPlan)
    requires
        reaper_fault(*spec) is None ==> mpi::ranks_fit(*spec),
    ensures
        r.launches(job_name@, namespace@, *spec, *placement, user.deep_view()),
{
    let hostfile = if spec.mpi.is_some() {
        Some(build_hostfile_configmap(job_name, namespace, placement, spec.tasks_per_node))
    } else {
        None
    };
    let mut pods: Vec<ReaperPod> = Vec::new();
    let mut resource_ids: Vec<String> = Vec::new();
    let n = placement.nodes.len();
    let mut k: usize = 0;
    proof {
        assert(resource_ids.deep_view() =~= rank_names(job_name@, 0));
    }
    while k < n
        invariant
            k <= n,
            n == placement.nodes.len(),
            reaper_fault(*spec) is None ==> mpi::ranks_fit(*spec),
            k > 0 ==> reaper_fault(*spec) is None,
            pods.len() == k,
            match hostfile {
                Some(map) => spec.mpi is Some && map.is_hostfile(
                    job_name@ + "-hostfile"@,
                    namespace@,
                    hostfile_labels(job_name@),
                    crate::controller::launch::hostfile(
                        placement.nodes.deep_view(),
                        spec.tasks_per_node as nat,
                    ),
                ),
                None => spec.mpi is None,
            },
            forall|i: int|
                0 <= i < k ==> is_rank(
                    #[trigger] pods@[i],
                    job_name@,
                    namespace@,
                    *spec,
                    *placement,
                    i as u32,
                    placement.nodes@[i]@,
                    user.deep_view(),
                ),
            resource_ids.deep_view() == rank_names(job_name@, k as nat),
        decreases n - k,
    {
        let rank = k as u32;
        match build_reaper_pod(
            job_name,
            namespace,
            spec,
            placement,
            rank,
            placement.nodes[k].as_str(),
            user,
        ) {
            Ok(pod) => {
                let ghost before = resource_ids.deep_view();
                let mut name = concat(job_name, "-rank-");
                name.append(decimal(k as u64).as_str());
                resource_ids.push(name);
                pods.push(pod);
                proof {
                    assert(resource_ids.deep_view() =~= before.push(name@));
                    assert(rank_names(job_name@, (k + 1) as nat) =~= before.push(name@));
                }
            },
            Err(e) => {
                return ReaperPlan { hostfile, pods, outcome: Err(e) };
            },
        }
        k += 1;
    }
    let mut message = "created ".to_owned();
    message.append(decimal(n as u64).as_str());
    message.append(" ReaperPod CRDs across ");
    message.append(decimal(n as u64).as_str());
    message.append(" nodes");
    ReaperPlan { hostfile, pods, outcome: Ok(LaunchResult { resource_ids, message }) }
}

/// How a job is doing by the phase of a rank. A phase that is not known counts as
/// starting up.
pub open spec fn phase_status(
    phase: Option<Seq<char>>,
    message: Option<Seq<char>>,
    exit_code: Option<i32>,
) -> BackendView {
    if phase == Some("Succeeded"@) {
        BackendView::Succeeded
    } else if phase == Some("Failed"@) {
        BackendView::Failed { message: failure_text(message, exit_code) }
    } else if phase == Some("Running"@) {
        BackendView::Running
    } else {
        BackendView::Launching { ready: 0, total: 1 }
    }
}

/// Maps the status of a ReaperPod to the status of its job.
pub fn map_phase_to_status(status: &ReaperPodStatus) -> (r: BackendJobStatus)
    ensures
        r@ == phase_status(
            status.phase.deep_view(),
            status.message.deep_view(),
            status.exit_code,
        ),
{
    match &status.phase {
        Some(phase) => {
            if str_eq(phase.as_str(), "Succeeded") {
                BackendJobStatus::Succeeded
            } else if str_eq(phase.as_str(), "Failed") {
                BackendJobStatus::Failed {
                    message: failure_message(&status.message, status.exit_code),
                }
            } else if str_eq(phase.as_str(), "Running") {
                BackendJobStatus::Running
            } else {
                BackendJobStatus::Launching { ready: 0, total: 1 }
            }
        },
        None => BackendJobStatus::Launching { ready: 0, total: 1 },
    }
}

/// How a job is doing by its first rank: not found where that is unknown or without
/// a status.
pub fn job_status(first_rank: Option<&ReaperPodStatus>) -> (r: BackendJobStatus)
    ensures
        r@ == (match first_rank {
            Some(status) => phase_status(
                status.phase.deep_view(),
                status.message.deep_view(),
                status.exit_code,
            ),
            None => BackendView::NotFound,
        }),
{
    match first_rank {
        Some(status) => map_phase_to_status(status),
        None => BackendJobStatus::NotFound,
    }
}

/// Selects the ReaperPods of a job.
pub fn rank_selector(job_name: &str) -> (r: String)
    ensures
        r@ == "wren.giar.dev/job="@ + job_name@,
{
    concat("wren.giar.dev/job=", job_name)
}

/// Each rank is told its own rank and the number of ranks, whatever the job's own
/// environment says.
pub proof fn law_rank_knows_its_place(
    own: Variables,
    job: Seq<char>,
    spec: WrenJobSpec,
    placement: Placement,
    rank: u32,
    user: Option<UserView>,
)
    ensures
        ({
            let env = rank_variables(own, job, spec, placement, rank, user);
            &&& env.dom().contains("RANK"@)
            &&& env["RANK"@] == dec(rank as nat)
            &&& env.dom().contains("WORLD_SIZE"@)
            &&& env["WORLD_SIZE"@] == dec((spec.nodes * spec.tasks_per_node) as nat)
        }),
{
    reveal_strlit("RANK");
    reveal_strlit("WORLD_SIZE");
    reveal_strlit("LOCAL_RANK");
    reveal_strlit("WREN_HOSTFILE_CONTENT");
    reveal_strlit("WREN_HOSTFILE_PATH");
    reveal_strlit("WREN_JOB_NAME");
    reveal_strlit("WREN_NUM_NODES");
    reveal_strlit("WREN_TOTAL_RANKS");
    reveal_strlit("USER");
    reveal_strlit("LOGNAME");
    reveal_strlit("HOME");
    assert("RANK"@[0] == 'R' && "USER"@[0] == 'U' && "HOME"@[0] == 'H');
    assert("WORLD_SIZE"@[0] == 'W' && "LOCAL_RANK"@[0] == 'L');
    assert("WORLD_SIZE"@.len() == 10 && "RANK"@.len() == 4);
    assert("WREN_HOSTFILE_CONTENT"@.len() == 21 && "WREN_HOSTFILE_PATH"@.len() == 18);
    assert("WREN_JOB_NAME"@.len() == 13 && "WREN_NUM_NODES"@.len() == 14);
    assert("WREN_TOTAL_RANKS"@.len() == 16 && "LOGNAME"@.len() == 7);
    assert("USER"@.len() == 4 && "HOME"@.len() == 4 && "LOCAL_RANK"@.len() == 10);
}

} // verus!
