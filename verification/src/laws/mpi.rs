//! How MPI is started on bare metal, and the names of what belongs to a job.

use vstd::prelude::*;
use crate::bubo;
use crate::laws::containers::labelled;
use crate::model::crd::MPISpec;
use crate::scheduler::gang::Placement;
use crate::string_map::StringMap;
use crate::text::{dec, lemma_dec_injective};
use crate::wren::crd::WrenJobSpec;
use crate::wren::mpi::{
    bare_metal_env_vars, bare_metal_mpirun_args, generate_bare_metal_hostfile, generate_hostfile,
    headless_service_name, hostfile_configmap_name, job_labels, launcher_pod_name, srun_args,
    ssh_secret_name, total_ranks, worker_pod_name,
};

verus! {

proof fn lemma_implementations()
    ensures
        "openmpi"@.len() == 7,
        "cray-mpich"@.len() == 10,
        "intel-mpi"@.len() == 9,
{
    reveal_strlit("openmpi");
    reveal_strlit("cray-mpich");
    reveal_strlit("intel-mpi");
}

/// The interface that a job names, if it names one.
pub open spec fn named_interface(mpi: Option<MPISpec>) -> Option<Seq<char>> {
    if mpi is Some && mpi->0.fabric_interface is Some {
        Some(mpi->0.fabric_interface->0@)
    } else {
        None
    }
}

/// On bare metal the implementation decides which program starts a job: `srun` for Cray
/// MPICH, `mpiexec.hydra` for Intel MPI, and else `mpirun`. Each is told how many ranks
/// there are, by number or by nodes and ranks on each, and where the hostfile is; and
/// the interface last, if the job names one. None is told to run as root.
pub proof fn law_implementation_decides_launcher(
    spec: &WrenJobSpec,
    path: &str,
    r: Vec<String>,
)
    requires
        call_ensures(bare_metal_mpirun_args, (spec, path), r),
    ensures
        ({
            let line = r.deep_view();
            let ranks = dec((spec.nodes * spec.tasks_per_node) as nat);
            let interface = named_interface(spec.mpi);
            let cray = spec.mpi is Some && spec.mpi->0.implementation@ == "cray-mpich"@;
            let intel = spec.mpi is Some && spec.mpi->0.implementation@ == "intel-mpi"@;
            &&& cray ==> line.len() >= 7 && line.take(7) == seq![
                "srun"@,
                "--nodes"@,
                dec(spec.nodes as nat),
                "--ntasks-per-node"@,
                dec(spec.tasks_per_node as nat),
                "--hostfile"@,
                path@,
            ] && line.skip(7) == (if interface is Some {
                seq!["--network"@, interface->0]
            } else {
                seq![]
            })
            &&& intel ==> line.len() >= 7 && line.take(7) == seq![
                "mpiexec.hydra"@,
                "-np"@,
                ranks,
                "-machinefile"@,
                path@,
                "-ppn"@,
                dec(spec.tasks_per_node as nat),
            ] && line.skip(7) == (if interface is Some {
                seq!["-iface"@, interface->0]
            } else {
                seq![]
            })
            &&& !cray && !intel ==> line.len() >= 5 && line.take(5) == seq![
                "mpirun"@,
                "-np"@,
                ranks,
                "--hostfile"@,
                path@,
            ] && line.skip(5) == (if interface is Some {
                seq!["--mca"@, "btl_tcp_if_include"@, interface->0]
            } else {
                seq![]
            })
        }),
{
    lemma_implementations();
    let line = r.deep_view();
    let interface = named_interface(spec.mpi);
    let ranks = dec((spec.nodes * spec.tasks_per_node) as nat);
    assert((spec.nodes as nat) * (spec.tasks_per_node as nat) == (spec.nodes
        * spec.tasks_per_node) as nat);
    let cray = spec.mpi is Some && spec.mpi->0.implementation@ == "cray-mpich"@;
    let intel = spec.mpi is Some && spec.mpi->0.implementation@ == "intel-mpi"@;
    if cray {
        assert(line.take(7) =~= seq![
            "srun"@,
            "--nodes"@,
            dec(spec.nodes as nat),
            "--ntasks-per-node"@,
            dec(spec.tasks_per_node as nat),
            "--hostfile"@,
            path@,
        ]);
        if interface is Some {
            assert(line.skip(7) =~= seq!["--network"@, interface->0]);
        } else {
            assert(line.skip(7) =~= seq![]);
        }
    } else if intel {
        assert(line.take(7) =~= seq![
            "mpiexec.hydra"@,
            "-np"@,
            ranks,
            "-machinefile"@,
            path@,
            "-ppn"@,
            dec(spec.tasks_per_node as nat),
        ]);
        if interface is Some {
            assert(line.skip(7) =~= seq!["-iface"@, interface->0]);
        } else {
            assert(line.skip(7) =~= seq![]);
        }
    } else {
        assert(line.take(5) =~= seq!["mpirun"@, "-np"@, ranks, "--hostfile"@, path@]);
        if interface is Some {
            assert(line.skip(5) =~= seq!["--mca"@, "btl_tcp_if_include"@, interface->0]);
        } else {
            assert(line.skip(5) =~= seq![]);
        }
    }
}

/// What starts a Cray MPICH job on bare metal is `srun` with the job's nodes and ranks.
pub proof fn law_cray_jobs_use_srun(spec: &WrenJobSpec, path: &str, r: Vec<String>, s: Vec<String>)
    requires
        call_ensures(bare_metal_mpirun_args, (spec, path), r),
        call_ensures(srun_args, (spec, path), s),
        spec.mpi is Some,
        spec.mpi->0.implementation@ == "cray-mpich"@,
    ensures
        r.deep_view() == s.deep_view(),
{
}

/// On bare metal MPI is told the job, the nodes, the ranks and the hostfile, and over which
/// interface to talk, if the job names one, in the way of its implementation.
pub proof fn law_mpi_is_told_job_and_network(
    job_name: &str,
    spec: &WrenJobSpec,
    nodes: &[String],
    path: &str,
    r: StringMap<String>,
)
    requires
        call_ensures(bare_metal_env_vars, (job_name, spec, nodes, path), r),
    ensures
        labelled(r@, "WREN_JOB_NAME"@, job_name@),
        labelled(r@, "WREN_NUM_NODES"@, dec(nodes@.len())),
        labelled(r@, "WREN_TOTAL_RANKS"@, dec((spec.nodes * spec.tasks_per_node) as nat)),
        labelled(r@, "WREN_HOSTFILE"@, path@),
        ({
            let interface = named_interface(spec.mpi);
            let cray = spec.mpi is Some && spec.mpi->0.implementation@ == "cray-mpich"@;
            let intel = spec.mpi is Some && spec.mpi->0.implementation@ == "intel-mpi"@;
            let name = if cray {
                "MPICH_OFI_IFNAME"@
            } else if intel {
                "I_MPI_FABRICS_LIST"@
            } else {
                "UCX_NET_DEVICES"@
            };
            &&& interface is Some ==> labelled(r@, name, interface->0)
            &&& interface is None ==> !r@.dom().contains(name)
            &&& cray ==> labelled(r@, "MPICH_OFI_STARTUP_CONNECT"@, "1"@) && labelled(
                r@,
                "MPICH_OFI_NUM_NICS"@,
                "1"@,
            )
        }),
{
    lemma_implementations();
    reveal_strlit("WREN_JOB_NAME");
    reveal_strlit("WREN_NUM_NODES");
    reveal_strlit("WREN_TOTAL_RANKS");
    reveal_strlit("WREN_HOSTFILE");
    reveal_strlit("MPICH_OFI_IFNAME");
    reveal_strlit("I_MPI_FABRICS_LIST");
    reveal_strlit("UCX_NET_DEVICES");
    reveal_strlit("MPICH_OFI_STARTUP_CONNECT");
    reveal_strlit("MPICH_OFI_NUM_NICS");
    assert("WREN_JOB_NAME"@.len() == 13 && "WREN_HOSTFILE"@.len() == 13);
    assert("WREN_JOB_NAME"@[5] == 'J' && "WREN_HOSTFILE"@[5] == 'H');
    assert("WREN_NUM_NODES"@.len() == 14 && "WREN_TOTAL_RANKS"@.len() == 16);
    assert("MPICH_OFI_IFNAME"@.len() == 16 && "I_MPI_FABRICS_LIST"@.len() == 18);
    assert("MPICH_OFI_IFNAME"@[0] == 'M' && "WREN_TOTAL_RANKS"@[0] == 'W');
    assert("UCX_NET_DEVICES"@.len() == 15 && "MPICH_OFI_STARTUP_CONNECT"@.len() == 25);
    assert("MPICH_OFI_NUM_NICS"@.len() == 18 && "MPICH_OFI_NUM_NICS"@[0] == 'M');
    assert("I_MPI_FABRICS_LIST"@[0] == 'I');
}

/// A job has as many ranks as nodes times ranks on each, under either controller, and its
/// hostfile is the same wherever it is made.
pub proof fn law_ranks_and_hostfiles_agree(
    spec: &WrenJobSpec,
    placement: &Placement,
    nodes: &[String],
    tasks: u32,
    ranks: u32,
    a: String,
    b: String,
    c: String,
)
    requires
        call_ensures(total_ranks, (spec,), ranks),
        call_ensures(generate_hostfile, (placement, tasks), a),
        call_ensures(bubo::mpi::generate_hostfile, (placement, tasks), b),
        call_ensures(generate_bare_metal_hostfile, (nodes, tasks), c),
        nodes@.len() == placement.nodes@.len(),
        forall|i: int| 0 <= i < nodes@.len() ==> (#[trigger] nodes@[i])@ == placement.nodes@[i]@,
    ensures
        ranks == spec.nodes * spec.tasks_per_node,
        a@ == b@,
        a@ == c@,
{
    assert(nodes.deep_view() =~= placement.nodes.deep_view()) by {
        assert forall|i: int| 0 <= i < nodes@.len() implies nodes.deep_view()[i]
            == placement.nodes.deep_view()[i] by {
            assert(nodes@[i]@ == placement.nodes@[i]@);
        }
    }
}

/// What belongs to a job bears its name at the front, each with an ending of its own, the
/// same under both controllers; workers of different ranks have different names.
pub proof fn law_names_begin_with_the_job(
    job_name: &str,
    rank: u32,
    other: u32,
    service: String,
    hosts: String,
    secret: String,
    launcher: String,
    worker: String,
    other_worker: String,
)
    requires
        call_ensures(headless_service_name, (job_name,), service),
        call_ensures(hostfile_configmap_name, (job_name,), hosts),
        call_ensures(ssh_secret_name, (job_name,), secret),
        call_ensures(launcher_pod_name, (job_name,), launcher),
        call_ensures(worker_pod_name, (job_name, rank), worker),
        call_ensures(bubo::mpi::worker_pod_name, (job_name, other), other_worker),
    ensures
        service@ == job_name@ + "-workers"@,
        hosts@ == job_name@ + "-hostfile"@,
        secret@ == job_name@ + "-ssh"@,
        launcher@ == job_name@ + "-launcher"@,
        worker@ == job_name@ + "-worker-"@ + dec(rank as nat),
        worker@ == other_worker@ <==> rank == other,
{
    let stem = job_name@ + "-worker-"@;
    if worker@ == other_worker@ {
        assert(worker@.skip(stem.len() as int) =~= dec(rank as nat));
        assert(other_worker@.skip(stem.len() as int) =~= dec(other as nat));
        lemma_dec_injective(rank as nat, other as nat);
    }
}

/// Labels tell who manages what, for which job, in which role, and at which rank if it has
/// one.
pub proof fn law_labels_tell_the_job(
    job_name: &str,
    role: &str,
    rank: Option<u32>,
    r: StringMap<String>,
    mpi_r: StringMap<String>,
)
    requires
        call_ensures(job_labels, (job_name, role, rank), r),
        call_ensures(bubo::mpi::job_labels, (job_name, role, rank), mpi_r),
    ensures
        labelled(r@, "wren.io/job-name"@, job_name@),
        labelled(r@, "wren.io/role"@, role@),
        labelled(r@, "app.kubernetes.io/managed-by"@, "wren"@),
        rank is Some ==> labelled(r@, "wren.io/rank"@, dec(rank->0 as nat)),
        rank is None ==> !r@.dom().contains("wren.io/rank"@),
        labelled(mpi_r@, "bubo.io/job-name"@, job_name@),
        labelled(mpi_r@, "bubo.io/role"@, role@),
        labelled(mpi_r@, "app.kubernetes.io/managed-by"@, "bubo"@),
        rank is Some ==> labelled(mpi_r@, "bubo.io/rank"@, dec(rank->0 as nat)),
        rank is None ==> !mpi_r@.dom().contains("bubo.io/rank"@),
{
    reveal_strlit("/job-name");
    reveal_strlit("/role");
    reveal_strlit("/rank");
    reveal_strlit("wren.io");
    reveal_strlit("bubo.io");
    reveal_strlit("wren.io/job-name");
    reveal_strlit("wren.io/role");
    reveal_strlit("wren.io/rank");
    reveal_strlit("bubo.io/job-name");
    reveal_strlit("bubo.io/role");
    reveal_strlit("bubo.io/rank");
    reveal_strlit("app.kubernetes.io/managed-by");
    assert("wren.io/job-name"@ =~= "wren.io"@ + "/job-name"@);
    assert("wren.io/role"@ =~= "wren.io"@ + "/role"@);
    assert("wren.io/rank"@ =~= "wren.io"@ + "/rank"@);
    assert("bubo.io/job-name"@ =~= "bubo.io"@ + "/job-name"@);
    assert("bubo.io/role"@ =~= "bubo.io"@ + "/role"@);
    assert("bubo.io/rank"@ =~= "bubo.io"@ + "/rank"@);
    assert("wren.io/role"@[9] == 'o' && "wren.io/rank"@[9] == 'a');
    assert("bubo.io/role"@[9] == 'o' && "bubo.io/rank"@[9] == 'a');
    assert("wren.io/job-name"@.len() == 16 && "wren.io/role"@.len() == 12);
    assert("wren.io/rank"@.len() == 12 && "app.kubernetes.io/managed-by"@.len() == 28);
    assert("bubo.io/job-name"@.len() == 16 && "bubo.io/role"@.len() == 12);
    assert("bubo.io/rank"@.len() == 12);
}

} // verus!
