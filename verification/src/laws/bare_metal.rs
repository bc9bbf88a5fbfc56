//! What a job on bare metal is made of, and what is known of it.

use vstd::prelude::*;
use crate::bubo::reaper::{
    map_reaper_state, PollReply, ReaperBackend, ReaperJobRequest, ReaperJobState, ReaperJobStatus,
};
use crate::laws::containers::labelled;
use crate::model::backend::{BackendJobStatus, LaunchResult};
use crate::model::crd::MPIJobSpec;
use crate::model::error::{BuboError, WrenError};
use crate::scheduler::gang::Placement;
use crate::string_map::StringMap;
use crate::text::{dec, signed_dec};
use crate::wren::crd::{UserIdentity, WrenJobSpec};
use crate::wren::reaper::{
    build_rank_env, build_reaper_pod, job_status, map_phase_to_status, rank_pod_name, rank_selector,
    ReaperPlan, ReaperPod, ReaperPodStatus,
};
use crate::wren;

verus! {

/// Whether a job says what it runs on bare metal: a command or a script.
pub open spec fn says_what_to_run(spec: WrenJobSpec) -> bool {
    spec.reaper is Some && (spec.reaper->0.command@.len() > 0 || spec.reaper->0.script is Some)
}

/// The variables that a rank is given.
pub open spec fn given_names() -> Seq<Seq<char>> {
    seq![
        "WREN_MPI_RANK"@,
        "WREN_LOCAL_RANK"@,
        "MASTER_ADDR"@,
        "MASTER_PORT"@,
        "RANK"@,
        "WORLD_SIZE"@,
        "LOCAL_RANK"@,
        "WREN_HOSTFILE_CONTENT"@,
        "WREN_HOSTFILE_PATH"@,
        "WREN_JOB_NAME"@,
        "WREN_NUM_NODES"@,
        "WREN_TOTAL_RANKS"@,
        "USER"@,
        "LOGNAME"@,
        "HOME"@,
    ]
}

proof fn lemma_given_names()
    ensures
        "WREN_MPI_RANK"@.len() == 13 && "WREN_MPI_RANK"@[5] == 'M',
        "WREN_LOCAL_RANK"@.len() == 15,
        "MASTER_ADDR"@.len() == 11 && "MASTER_ADDR"@[7] == 'A',
        "MASTER_PORT"@.len() == 11 && "MASTER_PORT"@[7] == 'P',
        "RANK"@.len() == 4 && "RANK"@[0] == 'R',
        "WORLD_SIZE"@.len() == 10 && "WORLD_SIZE"@[0] == 'W',
        "LOCAL_RANK"@.len() == 10 && "LOCAL_RANK"@[0] == 'L',
        "WREN_HOSTFILE_CONTENT"@.len() == 21,
        "WREN_HOSTFILE_PATH"@.len() == 18,
        "WREN_JOB_NAME"@.len() == 13 && "WREN_JOB_NAME"@[5] == 'J',
        "WREN_NUM_NODES"@.len() == 14,
        "WREN_TOTAL_RANKS"@.len() == 16,
        "USER"@.len() == 4 && "USER"@[0] == 'U',
        "LOGNAME"@.len() == 7,
        "HOME"@.len() == 4 && "HOME"@[0] == 'H',
        "WREN_HOSTFILE"@.len() == 13 && "WREN_HOSTFILE"@[5] == 'H',
        "WREN_MPI_LAUNCHER"@.len() == 17,
        "MPICH_OFI_STARTUP_CONNECT"@.len() == 25,
        "MPICH_OFI_NUM_NICS"@.len() == 18 && "MPICH_OFI_NUM_NICS"@[0] == 'M',
        "WREN_HOSTFILE_PATH"@[0] == 'W',
        "MPICH_OFI_IFNAME"@.len() == 16 && "MPICH_OFI_IFNAME"@[0] == 'M',
        "WREN_TOTAL_RANKS"@[0] == 'W',
        "I_MPI_FABRICS_LIST"@.len() == 18 && "I_MPI_FABRICS_LIST"@[0] == 'I',
        "UCX_NET_DEVICES"@.len() == 15 && "UCX_NET_DEVICES"@[0] == 'U',
        "WREN_LOCAL_RANK"@[0] == 'W',
{
    reveal_strlit("WREN_MPI_RANK");
    reveal_strlit("WREN_LOCAL_RANK");
    reveal_strlit("MASTER_ADDR");
    reveal_strlit("MASTER_PORT");
    reveal_strlit("RANK");
    reveal_strlit("WORLD_SIZE");
    reveal_strlit("LOCAL_RANK");
    reveal_strlit("WREN_HOSTFILE_CONTENT");
    reveal_strlit("WREN_HOSTFILE_PATH");
    reveal_strlit("WREN_JOB_NAME");
    reveal_strlit("WREN_NUM_NODES");
    reveal_strlit("WREN_TOTAL_RANKS");
    reveal_strlit("USER");
    reveal_strlit("LOGNAME");
    reveal_strlit("HOME");
    reveal_strlit("WREN_HOSTFILE");
    reveal_strlit("WREN_MPI_LAUNCHER");
    reveal_strlit("MPICH_OFI_STARTUP_CONNECT");
    reveal_strlit("MPICH_OFI_NUM_NICS");
    reveal_strlit("MPICH_OFI_IFNAME");
    reveal_strlit("I_MPI_FABRICS_LIST");
    reveal_strlit("UCX_NET_DEVICES");
}

/// What the environment of a rank says of its place: its own rank out of all ranks, the
/// node of the first rank as the place to meet, and the nodes of the job.
pub open spec fn places(
    env: Map<Seq<char>, Seq<char>>,
    job: Seq<char>,
    spec: WrenJobSpec,
    placement: Placement,
    rank: u32,
    user: Option<&UserIdentity>,
    hosts: Seq<char>,
) -> bool {
    let total = dec((spec.nodes * spec.tasks_per_node) as nat);
    let own = spec.reaper->0.environment@;
    &&& labelled(env, "RANK"@, dec(rank as nat))
    &&& labelled(env, "WREN_MPI_RANK"@, dec(rank as nat))
    &&& labelled(env, "WORLD_SIZE"@, total)
    &&& labelled(env, "LOCAL_RANK"@, "0"@)
    &&& labelled(env, "WREN_LOCAL_RANK"@, "0"@)
    &&& labelled(env, "MASTER_PORT"@, "29500"@)
    &&& labelled(env, "WREN_HOSTFILE_CONTENT"@, hosts)
    &&& labelled(env, "WREN_HOSTFILE_PATH"@, "/tmp/wren-hostfile-"@ + job)
    &&& placement.nodes@.len() > 0 ==> labelled(env, "MASTER_ADDR"@, placement.nodes@[0]@)
    &&& user is Some ==> labelled(env, "USER"@, user->0.username@) && labelled(
        env,
        "LOGNAME"@,
        user->0.username@,
    )
    &&& user is Some && user->0.home_dir is Some ==> labelled(
        env,
        "HOME"@,
        user->0.home_dir->0@,
    )
    &&& (spec.mpi is Some || !own.dom().contains("WREN_JOB_NAME"@)) ==> labelled(
        env,
        "WREN_JOB_NAME"@,
        job,
    )
    &&& spec.mpi is None && !own.dom().contains("WREN_NUM_NODES"@) ==> labelled(
        env,
        "WREN_NUM_NODES"@,
        dec(spec.nodes as nat),
    )
    &&& spec.mpi is Some ==> labelled(env, "WREN_NUM_NODES"@, dec(placement.nodes@.len()))
    &&& (spec.mpi is Some || !own.dom().contains("WREN_TOTAL_RANKS"@)) ==> labelled(
        env,
        "WREN_TOTAL_RANKS"@,
        total,
    )
}

/// Each rank of a job on bare metal is told its place. Where the job uses no MPI, its own
/// variables stay as it states them, but for those that it is given. There is an
/// environment exactly where the job says what to run.
pub proof fn law_rank_is_told_its_place(
    job_name: &str,
    spec: &WrenJobSpec,
    placement: &Placement,
    rank: u32,
    user: Option<&UserIdentity>,
    hosts: String,
    key: Seq<char>,
    r: Result<StringMap<String>, WrenError>,
)
    requires
        call_ensures(build_rank_env, (job_name, spec, placement, rank, user), r),
        call_ensures(wren::mpi::generate_hostfile, (placement, spec.tasks_per_node), hosts),
    ensures
        r is Ok <==> says_what_to_run(*spec),
        r is Ok ==> places(r->Ok_0@, job_name@, *spec, *placement, rank, user, hosts@),
        r is Ok && spec.mpi is None && spec.reaper->0.environment@.dom().contains(key)
            && !given_names().contains(key) ==> labelled(
            r->Ok_0@,
            key,
            spec.reaper->0.environment@[key],
        ),
{
    lemma_given_names();
    if r is Ok && spec.mpi is None && !given_names().contains(key) {
        lemma_other_name(key);
    }
}

proof fn lemma_other_name(key: Seq<char>)
    requires
        !given_names().contains(key),
    ensures
        key != "WREN_MPI_RANK"@,
        key != "WREN_LOCAL_RANK"@,
        key != "MASTER_ADDR"@,
        key != "MASTER_PORT"@,
        key != "RANK"@,
        key != "WORLD_SIZE"@,
        key != "LOCAL_RANK"@,
        key != "WREN_HOSTFILE_CONTENT"@,
        key != "WREN_HOSTFILE_PATH"@,
        key != "WREN_JOB_NAME"@,
        key != "WREN_NUM_NODES"@,
        key != "WREN_TOTAL_RANKS"@,
        key != "USER"@,
        key != "LOGNAME"@,
        key != "HOME"@,
{
    let names = given_names();
    assert(names[0] == "WREN_MPI_RANK"@);
    assert(names[1] == "WREN_LOCAL_RANK"@);
    assert(names[2] == "MASTER_ADDR"@);
    assert(names[3] == "MASTER_PORT"@);
    assert(names[4] == "RANK"@);
    assert(names[5] == "WORLD_SIZE"@);
    assert(names[6] == "LOCAL_RANK"@);
    assert(names[7] == "WREN_HOSTFILE_CONTENT"@);
    assert(names[8] == "WREN_HOSTFILE_PATH"@);
    assert(names[9] == "WREN_JOB_NAME"@);
    assert(names[10] == "WREN_NUM_NODES"@);
    assert(names[11] == "WREN_TOTAL_RANKS"@);
    assert(names[12] == "USER"@);
    assert(names[13] == "LOGNAME"@);
    assert(names[14] == "HOME"@);
}

/// Whether a rank runs what the job says: its command with its arguments, or else its
/// script in a shell; in its directory; and under the identity of the user.
pub open spec fn rank_runs(pod: ReaperPod, spec: WrenJobSpec, user: Option<&UserIdentity>) -> bool {
    let reaper = spec.reaper->0;
    &&& reaper.command@.len() > 0 ==> pod.command.deep_view() == reaper.command.deep_view()
        && pod.args.deep_view() == reaper.args.deep_view()
    &&& reaper.command@.len() == 0 ==> pod.command@.len() == 2 && pod.command@[0]@ == "/bin/sh"@
        && pod.command@[1]@ == "-c"@ && pod.args@.len() == 1 && pod.args@[0]@
        == reaper.script->0@
    &&& pod.working_dir is Some <==> reaper.working_dir is Some
    &&& pod.working_dir is Some ==> pod.working_dir->0@ == reaper.working_dir->0@
    &&& pod.dns_mode is Some <==> reaper.dns_mode is Some
    &&& pod.dns_mode is Some ==> pod.dns_mode->0@ == reaper.dns_mode->0@
    &&& pod.overlay_name is Some <==> reaper.overlay_name is Some
    &&& pod.overlay_name is Some ==> pod.overlay_name->0@ == reaper.overlay_name->0@
    &&& pod.restart_policy@ == "Never"@
    &&& user is None ==> pod.identity is None
    &&& user is Some ==> pod.identity is Some && pod.identity->0.run_as_user == user->0.uid
        && pod.identity->0.run_as_group == user->0.gid
}

/// Whether the volumes of a rank are those of the job, followed by the hostfile of the job
/// where it uses MPI, which it cannot change.
pub open spec fn has_volumes(pod: ReaperPod, job: Seq<char>, spec: WrenJobSpec) -> bool {
    let own = spec.reaper->0.volumes.deep_view();
    let all = pod.volumes.deep_view();
    &&& all.len() == own.len() + (if spec.mpi is Some {
        1int
    } else {
        0
    })
    &&& all.take(own.len() as int) == own
    &&& spec.mpi is Some ==> {
        let last = pod.volumes@.last();
        &&& last.mount_path@ == "/tmp/wren-hostfile-"@ + job
        &&& last.config_map is Some && last.config_map->0@ == job + "-hostfile"@
        &&& last.read_only && last.secret is None && last.host_path is None && !last.empty_dir
    }
}

/// What holds of a rank of a job.
pub open spec fn is_rank_of(
    pod: ReaperPod,
    job: Seq<char>,
    namespace: Seq<char>,
    spec: WrenJobSpec,
    placement: Placement,
    rank: u32,
    node: Seq<char>,
    user: Option<&UserIdentity>,
    hosts: Seq<char>,
) -> bool {
    &&& rank_runs(pod, spec, user)
    &&& has_volumes(pod, job, spec)
    &&& places(pod.env@, job, spec, placement, rank, user, hosts)
    &&& pod.node_name@ == node
    &&& pod.metadata.name@ == job + "-rank-"@ + dec(rank as nat)
    &&& pod.metadata.namespace@ == namespace
    &&& labelled(pod.metadata.labels@, "wren.giar.dev/job"@, job)
    &&& labelled(pod.metadata.labels@, "wren.giar.dev/rank"@, dec(rank as nat))
}

proof fn lemma_rank(
    pod: ReaperPod,
    job: Seq<char>,
    namespace: Seq<char>,
    spec: WrenJobSpec,
    placement: Placement,
    rank: u32,
    node: Seq<char>,
    user: Option<&UserIdentity>,
)
    requires
        wren::reaper::is_rank(
            pod,
            job,
            namespace,
            spec,
            placement,
            rank,
            node,
            user.deep_view(),
        ),
    ensures
        is_rank_of(
            pod,
            job,
            namespace,
            spec,
            placement,
            rank,
            node,
            user,
            crate::controller::launch::hostfile(
                placement.nodes.deep_view(),
                spec.tasks_per_node as nat,
            ),
        ),
{
    lemma_given_names();
    reveal_strlit("wren.giar.dev/job");
    reveal_strlit("wren.giar.dev/role");
    reveal_strlit("wren.giar.dev/rank");
    reveal_strlit("app.kubernetes.io/managed-by");
    assert("wren.giar.dev/job"@.len() == 17 && "wren.giar.dev/rank"@.len() == 18);
    assert("wren.giar.dev/role"@.len() == 18 && "app.kubernetes.io/managed-by"@.len() == 28);
    let reaper = spec.reaper->0;
    assert(pod.command.deep_view().len() == pod.command@.len());
    assert(pod.args.deep_view().len() == pod.args@.len());
    if reaper.command@.len() == 0 {
        assert(pod.command.deep_view()[0] == pod.command@[0]@);
        assert(pod.command.deep_view()[1] == pod.command@[1]@);
        assert(pod.args.deep_view()[0] == pod.args@[0]@);
    }
    let own = reaper.volumes.deep_view();
    let all = pod.volumes.deep_view();
    assert(all.len() == pod.volumes@.len());
    assert(all.take(own.len() as int) =~= own);
    if spec.mpi is Some {
        assert(all.last() == pod.volumes@.last().deep_view());
        let last = pod.volumes@.last();
        assert(last.deep_view().config_map == last.config_map.deep_view());
    }
    assert(pod.working_dir.deep_view() is Some <==> pod.working_dir is Some);
}

/// A rank of a job on bare metal runs on its node what the job says, with the job's volumes,
/// and knows its place.
pub proof fn law_rank_runs_the_job(
    job_name: &str,
    namespace: &str,
    spec: &WrenJobSpec,
    placement: &Placement,
    rank: u32,
    node: &str,
    user: Option<&UserIdentity>,
    hosts: String,
    r: Result<ReaperPod, WrenError>,
)
    requires
        call_ensures(
            build_reaper_pod,
            (job_name, namespace, spec, placement, rank, node, user),
            r,
        ),
        call_ensures(wren::mpi::generate_hostfile, (placement, spec.tasks_per_node), hosts),
    ensures
        r is Ok <==> says_what_to_run(*spec),
        r is Ok ==> is_rank_of(
            r->Ok_0,
            job_name@,
            namespace@,
            *spec,
            *placement,
            rank,
            node@,
            user,
            hosts@,
        ),
{
    if r is Ok {
        lemma_rank(r->Ok_0, job_name@, namespace@, *spec, *placement, rank, node@, user);
    }
}

/// A job on bare metal is launched as one rank on each of its nodes, in order. Where it uses
/// MPI, its hostfile is created under the name that its ranks look for.
pub proof fn law_ranks_run_on_each_node(
    job_name: &str,
    namespace: &str,
    spec: &WrenJobSpec,
    placement: &Placement,
    user: Option<&UserIdentity>,
    hosts: String,
    r: ReaperPlan,
    k: int,
)
    requires
        call_ensures(
            wren::reaper::plan_launch,
            (job_name, namespace, spec, placement, user),
            r,
        ),
        call_ensures(wren::mpi::generate_hostfile, (placement, spec.tasks_per_node), hosts),
        0 < placement.nodes@.len() <= u32::MAX,
    ensures
        r.outcome is Ok <==> says_what_to_run(*spec),
        r.hostfile is Some <==> spec.mpi is Some,
        r.hostfile is Some ==> r.hostfile->0.metadata.name@ == job_name@ + "-hostfile"@ && labelled(
            r.hostfile->0.data@,
            "hostfile"@,
            hosts@,
        ),
        r.outcome is Err ==> r.pods@.len() == 0,
        r.outcome is Ok ==> r.pods@.len() == placement.nodes@.len()
            && r.outcome->Ok_0.resource_ids@.len() == placement.nodes@.len(),
        r.outcome is Ok && 0 <= k < placement.nodes@.len() ==> is_rank_of(
            r.pods@[k],
            job_name@,
            namespace@,
            *spec,
            *placement,
            k as u32,
            placement.nodes@[k]@,
            user,
            hosts@,
        ) && r.outcome->Ok_0.resource_ids@[k]@ == r.pods@[k].metadata.name@,
{
    if r.outcome is Ok {
        let names = r.outcome->Ok_0.resource_ids;
        assert(names.deep_view().len() == names@.len());
        if 0 <= k < placement.nodes@.len() {
            lemma_rank(
                r.pods@[k],
                job_name@,
                namespace@,
                *spec,
                *placement,
                k as u32,
                placement.nodes@[k]@,
                user,
            );
            assert(names.deep_view()[k] == names@[k]@);
        }
    }
}

/// The ranks of a job are found by the label that they bear, and its first rank by its name.
pub proof fn law_ranks_are_found(
    job_name: &str,
    namespace: &str,
    spec: &WrenJobSpec,
    placement: &Placement,
    rank: u32,
    node: &str,
    user: Option<&UserIdentity>,
    pod: ReaperPod,
    name: String,
    selector: String,
)
    requires
        call_ensures(
            build_reaper_pod,
            (job_name, namespace, spec, placement, rank, node, user),
            Ok(pod),
        ),
        call_ensures(rank_pod_name, (job_name, rank), name),
        call_ensures(rank_selector, (job_name,), selector),
    ensures
        pod.metadata.name@ == name@,
        exists|key: Seq<char>|
            selector@ == key + "="@ + job_name@ && #[trigger] labelled(
                pod.metadata.labels@,
                key,
                job_name@,
            ),
{
    lemma_rank(pod, job_name@, namespace@, *spec, *placement, rank, node@, user);
    reveal_strlit("wren.giar.dev/job=");
    reveal_strlit("wren.giar.dev/job");
    reveal_strlit("=");
    assert("wren.giar.dev/job="@ =~= "wren.giar.dev/job"@ + "="@);
    assert(labelled(pod.metadata.labels@, "wren.giar.dev/job"@, job_name@));
}

/// How a rank is doing is what its phase says, and a job is doing as its first rank does; it
/// is not found where that is not. A failed rank tells its message, or else its exit code.
pub proof fn law_phase_tells_status(
    status: &ReaperPodStatus,
    first: Option<&ReaperPodStatus>,
    r: BackendJobStatus,
    job_r: BackendJobStatus,
)
    requires
        call_ensures(map_phase_to_status, (status,), r),
        call_ensures(job_status, (first,), job_r),
    ensures
        r is Succeeded <==> status.phase is Some && status.phase->0@ == "Succeeded"@,
        r is Failed <==> status.phase is Some && status.phase->0@ == "Failed"@,
        r is Running <==> status.phase is Some && status.phase->0@ == "Running"@,
        !(r is NotFound),
        r is Launching ==> r->ready == 0 && r->total == 1,
        r is Failed ==> (r->message)@ == (if status.message is Some {
            status.message->0@
        } else if status.exit_code is Some {
            "job exited with code "@ + signed_dec(status.exit_code->0 as int)
        } else {
            "job exited with code "@ + signed_dec(-1)
        }),
        job_r is NotFound <==> first is None,
        first == Some(status) ==> job_r@ == r@,
{
    reveal_strlit("Succeeded");
    reveal_strlit("Failed");
    reveal_strlit("Running");
    assert("Succeeded"@.len() == 9 && "Failed"@.len() == 6 && "Running"@.len() == 7);
}

/// How a job is doing on an agent is what the agent reports.
pub proof fn law_agent_tells_status(status: &ReaperJobStatus, r: BackendJobStatus)
    requires
        call_ensures(map_reaper_state, (status,), r),
    ensures
        r is Launching <==> status.status == ReaperJobState::Pending,
        r is Running <==> status.status == ReaperJobState::Running,
        r is Succeeded <==> status.status == ReaperJobState::Succeeded,
        r is Failed <==> status.status == ReaperJobState::Failed,
        r is NotFound <==> status.status == ReaperJobState::Unknown,
        r is Failed ==> (r->message)@ == (if status.message is Some {
            status.message->0@
        } else if status.exit_code is Some {
            "job exited with code "@ + signed_dec(status.exit_code->0 as int)
        } else {
            "job exited with code "@ + signed_dec(-1)
        }),
{
}

proof fn lemma_agent_names()
    ensures
        "BUBO_MPI_RANK"@.len() == 13 && "BUBO_MPI_RANK"@[5] == 'M',
        "BUBO_TOTAL_RANKS"@.len() == 16,
        "BUBO_NUM_NODES"@.len() == 14,
        "BUBO_HOSTFILE"@.len() == 13 && "BUBO_HOSTFILE"@[5] == 'H',
        "BUBO_MPI_IMPL"@.len() == 13 && "BUBO_MPI_IMPL"@[5] == 'M',
        "BUBO_MPI_IMPL"@[9] == 'I' && "BUBO_MPI_RANK"@[9] == 'R',
        "BUBO_FABRIC_INTERFACE"@.len() == 21,
{
    reveal_strlit("BUBO_MPI_RANK");
    reveal_strlit("BUBO_TOTAL_RANKS");
    reveal_strlit("BUBO_NUM_NODES");
    reveal_strlit("BUBO_HOSTFILE");
    reveal_strlit("BUBO_MPI_IMPL");
    reveal_strlit("BUBO_FABRIC_INTERFACE");
}

/// What an agent is asked to run is the job's script, in its directory, with its variables
/// and with what a rank has to know: its own rank, the number of ranks and of nodes, the
/// hostfile, and what the job says of MPI.
pub proof fn law_agents_run_the_script(
    backend: &ReaperBackend,
    spec: &MPIJobSpec,
    placement: &Placement,
    rank: u32,
    hosts: String,
    key: Seq<char>,
    r: Result<ReaperJobRequest, BuboError>,
)
    requires
        call_ensures(ReaperBackend::build_job_request, (backend, spec, placement, rank), r),
        call_ensures(wren::mpi::generate_hostfile, (placement, spec.tasks_per_node), hosts),
    ensures
        r is Ok <==> spec.reaper is Some,
        r is Ok ==> {
            let request = r->Ok_0;
            let env = request.environment@;
            let own = spec.reaper->0.environment@;
            &&& request.script@ == spec.reaper->0.script@
            &&& request.working_dir is Some <==> spec.reaper->0.working_dir is Some
            &&& request.working_dir is Some ==> request.working_dir->0@
                == spec.reaper->0.working_dir->0@
            &&& labelled(env, "BUBO_MPI_RANK"@, dec(rank as nat))
            &&& labelled(
                env,
                "BUBO_TOTAL_RANKS"@,
                dec((spec.nodes * spec.tasks_per_node) as nat),
            )
            &&& labelled(env, "BUBO_NUM_NODES"@, dec(spec.nodes as nat))
            &&& labelled(env, "BUBO_HOSTFILE"@, hosts@)
            &&& spec.mpi is Some ==> labelled(env, "BUBO_MPI_IMPL"@, spec.mpi->0.implementation@)
            &&& spec.mpi is Some && spec.mpi->0.fabric_interface is Some ==> labelled(
                env,
                "BUBO_FABRIC_INTERFACE"@,
                spec.mpi->0.fabric_interface->0@,
            )
            &&& own.dom().contains(key) && key != "BUBO_MPI_RANK"@ && key != "BUBO_TOTAL_RANKS"@
                && key != "BUBO_NUM_NODES"@ && key != "BUBO_HOSTFILE"@ && key != "BUBO_MPI_IMPL"@
                && key != "BUBO_FABRIC_INTERFACE"@ ==> labelled(env, key, own[key])
        },
{
    lemma_agent_names();
    if r is Ok {
        assert(r->Ok_0.working_dir.deep_view() is Some <==> r->Ok_0.working_dir is Some);
    }
}

/// An agent has taken a job exactly where it replies with success. A status is read from a
/// reply with success; a job that the agent does not know is of unknown state; and any other
/// reply is an error.
pub proof fn law_replies_are_read_by_code(
    node: &str,
    job_id: &str,
    code: u16,
    status: &str,
    body: &str,
    submitted: Result<(), BuboError>,
    polled: PollReply,
)
    requires
        call_ensures(ReaperBackend::check_submission, (node, code, status, body), submitted),
        call_ensures(ReaperBackend::check_poll, (node, job_id, code, status, body), polled),
    ensures
        submitted is Ok <==> 200 <= code <= 299,
        polled is Body <==> 200 <= code <= 299,
        polled is Known <==> code == 404,
        polled is Known ==> polled->Known_0.status == ReaperJobState::Unknown
            && polled->Known_0.job_id@ == job_id@,
{
}

/// What is kept of a launched job is what is asked for later: its status from the agent of
/// its first node, under the identifier given there, and its end from all of its nodes.
/// Nothing else that is kept changes.
pub proof fn law_launches_are_remembered(
    backend: &mut ReaperBackend,
    job_name: &str,
    placement: &Placement,
    job_ids: &Vec<String>,
    launched: LaunchResult,
    after: &ReaperBackend,
    source: Option<(String, String)>,
    ends: (Vec<String>, String),
    other: Seq<char>,
    k: int,
)
    requires
        placement.nodes@.len() > 0,
        job_ids@.len() == placement.nodes@.len(),
        call_ensures(
            ReaperBackend::record_launch,
            (backend, job_name, placement, job_ids),
            launched,
        ),
        *after == *final(backend),
        call_ensures(ReaperBackend::status_source, (after, job_name), source),
        call_ensures(ReaperBackend::termination, (after, job_name), ends),
    ensures
        source is Some,
        (source->0).0@ == placement.nodes@[0]@,
        (source->0).1@ == job_ids@[0]@,
        ends.0.deep_view() == placement.nodes.deep_view(),
        ends.1@ == job_ids@[0]@,
        launched.resource_ids@.len() == placement.nodes@.len(),
        0 <= k < placement.nodes@.len() ==> launched.resource_ids@[k]@ == placement.nodes@[k]@
            + ":"@ + job_ids@[k]@,
        other != job_name@ ==> final(backend)@.active.dom().contains(other)
            == old(backend)@.active.dom().contains(other) && final(backend)@.active[other]
            == old(backend)@.active[other] && final(backend)@.nodes[other] == old(
            backend,
        )@.nodes[other],
{
    assert(launched.resource_ids.deep_view().len() == launched.resource_ids@.len());
    if 0 <= k < placement.nodes@.len() {
        assert(launched.resource_ids.deep_view()[k] == launched.resource_ids@[k]@);
    }
    assert(source.deep_view() == Some(final(backend)@.active[job_name@]));
    assert((source->0).deep_view() == ((source->0).0@, (source->0).1@));
}

/// A job that is forgotten has no status any more, and is ended nowhere; other jobs are kept.
pub proof fn law_forgotten_jobs_are_gone(
    backend: &mut ReaperBackend,
    job_name: &str,
    after: &ReaperBackend,
    source: Option<(String, String)>,
    ends: (Vec<String>, String),
    other: Seq<char>,
)
    requires
        call_ensures(ReaperBackend::forget, (backend, job_name), ()),
        *after == *final(backend),
        call_ensures(ReaperBackend::status_source, (after, job_name), source),
        call_ensures(ReaperBackend::termination, (after, job_name), ends),
    ensures
        source is None,
        ends.0@.len() == 0,
        ends.1@ == job_name@,
        other != job_name@ ==> final(backend)@.active.dom().contains(other)
            == old(backend)@.active.dom().contains(other) && final(backend)@.active[other]
            == old(backend)@.active[other],
{
    assert(ends.0.deep_view().len() == ends.0@.len());
}

/// The agent of a node is reached under the node's name at the port that is set, by the
/// scheme that is set, and its jobs below that.
pub proof fn law_agents_are_reached_by_node(
    backend: &ReaperBackend,
    node: &str,
    job_id: &str,
    url: String,
    jobs: String,
    job: String,
)
    requires
        call_ensures(ReaperBackend::agent_url, (backend, node), url),
        call_ensures(ReaperBackend::jobs_url, (backend, node), jobs),
        call_ensures(ReaperBackend::job_url, (backend, node, job_id), job),
    ensures
        url@ == backend.agent_scheme@ + "://"@ + node@ + ":"@ + dec(backend.agent_port as nat),
        jobs@ == url@ + "/api/v1/jobs"@,
        job@ == jobs@ + "/"@ + job_id@,
{
    reveal_strlit("/api/v1/jobs");
    reveal_strlit("/api/v1/jobs/");
    reveal_strlit("/");
    assert("/api/v1/jobs/"@ =~= "/api/v1/jobs"@ + "/"@);
    assert(job@ =~= jobs@ + "/"@ + job_id@);
}

/// Where a job on bare metal uses MPI, each rank is told how to start it, and all that MPI has
/// to know, unless a rank has to know otherwise.
pub proof fn law_ranks_are_told_of_mpi(
    job_name: &str,
    spec: &WrenJobSpec,
    placement: &Placement,
    rank: u32,
    user: Option<&UserIdentity>,
    path: &str,
    nodes: &[String],
    words: &Vec<String>,
    launcher: String,
    variables: StringMap<String>,
    key: Seq<char>,
    r: Result<StringMap<String>, WrenError>,
)
    requires
        call_ensures(build_rank_env, (job_name, spec, placement, rank, user), r),
        r is Ok,
        spec.mpi is Some,
        path@ == "/tmp/wren-hostfile-"@ + job_name@,
        nodes@.len() == placement.nodes@.len(),
        call_ensures(wren::mpi::bare_metal_mpirun_args, (spec, path), *words),
        call_ensures(crate::text::join, (words, " "), launcher),
        call_ensures(wren::mpi::bare_metal_env_vars, (job_name, spec, nodes, path), variables),
    ensures
        labelled(r->Ok_0@, "WREN_MPI_LAUNCHER"@, launcher@),
        variables@.dom().contains(key) && !given_names().contains(key) && key
            != "WREN_MPI_LAUNCHER"@ ==> labelled(r->Ok_0@, key, variables@[key]),
{
    lemma_given_names();
    if !given_names().contains(key) {
        lemma_other_name(key);
    }
}

/// The first rank of a job goes to its first node; a job on no node cannot be launched.
pub proof fn law_first_rank_goes_to_first_node(
    placement: &Placement,
    r: Result<String, BuboError>,
)
    requires
        call_ensures(ReaperBackend::launcher_node, (placement,), r),
    ensures
        r is Ok <==> placement.nodes@.len() > 0,
        r is Ok ==> r->Ok_0@ == placement.nodes@[0]@,
        r is Err ==> r->Err_0 is ValidationError,
{
}

} // verus!
