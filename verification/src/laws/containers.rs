//! What a job in containers is made of.

use vstd::prelude::*;
use crate::bubo;
use crate::controller::launch::{hostfile, host_line, law_labels_name_the_job, labels_under};
use crate::controller::manifest::{ConfigMap, LaunchPlan, Pod, Service};
use crate::model::crd::{ContainerSpec, EnvVar, MPIJobSpec, MPISpec};
use crate::model::error::{BuboError, WrenError};
use crate::scheduler::gang::Placement;
use crate::text::dec;
use crate::wren::crd::{UserIdentity, WrenJobSpec};
use crate::wren;

verus! {

/// The words of a list, none where there is no list.
pub open spec fn words(list: Option<Vec<String>>) -> Seq<Seq<char>> {
    match list {
        Some(list) => list.deep_view(),
        None => Seq::empty(),
    }
}

/// Whether a pod runs what a job's container asks for: its image, and its command
/// followed by its arguments, where the job's lists have words.
pub open spec fn runs(pod: Pod, spec: ContainerSpec) -> bool {
    &&& pod.container.image@ == spec.image@
    &&& words(pod.container.command) + words(pod.container.args) == spec.command.deep_view()
        + spec.args.deep_view()
    &&& words(pod.container.command) == spec.command.deep_view()
    &&& words(pod.container.args) == spec.args.deep_view()
    &&& pod.container.command is None <==> spec.command@.len() == 0
    &&& pod.container.args is None <==> spec.args@.len() == 0
}

/// Whether a variable has a value in an environment: the last entry of its name gives it.
pub open spec fn says(env: Seq<EnvVar>, name: Seq<char>, value: Seq<char>) -> bool {
    exists|i: int|
        0 <= i < env.len() && (#[trigger] env[i]).name@ == name && env[i].value@ == value && forall|
            j: int,
        |
            i < j < env.len() ==> (#[trigger] env[j]).name@ != name
}

/// Whether an environment begins with the variables that a job states.
pub open spec fn keeps(env: Seq<EnvVar>, stated: Seq<EnvVar>) -> bool {
    env.len() >= stated.len() && forall|i: int|
        0 <= i < stated.len() ==> (#[trigger] env[i]).name@ == stated[i].name@ && env[i].value@
            == stated[i].value@
}

/// Whether a label has a value.
pub open spec fn labelled(labels: Map<Seq<char>, Seq<char>>, key: Seq<char>, value: Seq<char>) -> bool {
    labels.dom().contains(key) && labels[key] == value
}

/// Whether a pod runs under the identifiers of a user.
pub open spec fn runs_under(pod: Pod, user: UserIdentity) -> bool {
    pod.security_context is Some && {
        let context = pod.security_context->0;
        &&& context.run_as_user == user.uid
        &&& context.run_as_group == user.gid
        &&& context.supplemental_groups is None <==> user.supplemental_groups@.len() == 0
        &&& context.supplemental_groups is Some ==> context.supplemental_groups->0@.len()
            == user.supplemental_groups@.len() && forall|i: int|
            0 <= i < user.supplemental_groups@.len() ==> (
            #[trigger] context.supplemental_groups->0@[i]) == user.supplemental_groups@[i]
    }
}

proof fn lemma_last_says(env: Seq<EnvVar>, i: int, name: Seq<char>, value: Seq<char>)
    requires
        0 <= i < env.len(),
        env[i].name@ == name,
        env[i].value@ == value,
        forall|j: int| i < j < env.len() ==> (#[trigger] env[j]).name@ != name,
    ensures
        says(env, name, value),
{
}

proof fn lemma_names()
    ensures
        "WREN_RANK"@.len() == 9,
        "WREN_JOB_NAME"@.len() == 13,
        "USER"@.len() == 4,
        "LOGNAME"@.len() == 7,
        "HOME"@.len() == 4,
        "USER"@[0] == 'U',
        "HOME"@[0] == 'H',
        "WREN_NUM_NODES"@.len() == 14,
        "WREN_TOTAL_RANKS"@.len() == 16,
        "BUBO_RANK"@.len() == 9,
        "BUBO_JOB_NAME"@.len() == 13,
        "BUBO_NUM_NODES"@.len() == 14,
        "BUBO_TOTAL_RANKS"@.len() == 16,
{
    reveal_strlit("WREN_RANK");
    reveal_strlit("WREN_JOB_NAME");
    reveal_strlit("USER");
    reveal_strlit("LOGNAME");
    reveal_strlit("HOME");
    reveal_strlit("WREN_NUM_NODES");
    reveal_strlit("WREN_TOTAL_RANKS");
    reveal_strlit("BUBO_RANK");
    reveal_strlit("BUBO_JOB_NAME");
    reveal_strlit("BUBO_NUM_NODES");
    reveal_strlit("BUBO_TOTAL_RANKS");
}

proof fn lemma_env_entry(env: Seq<EnvVar>, content: Seq<(Seq<char>, Seq<char>)>, i: int)
    requires
        env.len() == content.len(),
        forall|k: int| 0 <= k < env.len() ==> (#[trigger] env[k]).deep_view() == content[k],
        0 <= i < env.len(),
    ensures
        env[i].name@ == content[i].0,
        env[i].value@ == content[i].1,
{
    assert(env[i].deep_view() == content[i]);
}

/// What a worker of a Wren job says of its place: its own rank, the job, and whom it runs
/// as.
pub open spec fn knows_its_place(pod: Pod, job: Seq<char>, rank: u32, user: Option<&UserIdentity>) -> bool {
    let env = pod.container.env@;
    &&& says(env, "WREN_RANK"@, dec(rank as nat))
    &&& says(env, "WREN_JOB_NAME"@, job)
    &&& user is Some ==> says(env, "USER"@, user->0.username@) && says(
        env,
        "LOGNAME"@,
        user->0.username@,
    )
    &&& user is Some && user->0.home_dir is Some ==> says(env, "HOME"@, user->0.home_dir->0@)
}

/// Where a pod goes and how it is found: on its node, under its name and the service of
/// its job, never restarted.
pub open spec fn stands(
    pod: Pod,
    name: Seq<char>,
    namespace: Seq<char>,
    service: Seq<char>,
    node: Seq<char>,
) -> bool {
    &&& pod.metadata.name@ == name
    &&& pod.metadata.namespace@ == namespace
    &&& pod.hostname is Some && pod.hostname->0@ == name
    &&& pod.subdomain is Some && pod.subdomain->0@ == service
    &&& pod.node_name is Some && pod.node_name->0@ == node
    &&& pod.restart_policy@ == "Never"@
}

/// A worker of a Wren job runs the job's command and arguments in its image, on its node,
/// with the variables that the job states, its own rank and the name of the job, and
/// under the identity of the user. There is one exactly where the job has a container.
pub proof fn law_worker_runs_the_job(
    job_name: &str,
    namespace: &str,
    spec: &WrenJobSpec,
    node_name: &str,
    rank: u32,
    user: Option<&UserIdentity>,
    r: Result<Pod, WrenError>,
)
    requires
        call_ensures(
            wren::container::build_worker_pod,
            (job_name, namespace, spec, node_name, rank, user),
            r,
        ),
    ensures
        r is Ok <==> spec.container is Some,
        r is Ok ==> wren_worker(r->Ok_0, job_name@, namespace@, *spec, node_name@, rank, user),
{
    if r is Ok {
        lemma_wren_worker(r->Ok_0, job_name@, namespace@, *spec, node_name@, rank, user);
    }
}

/// What holds of the worker of a Wren job.
pub open spec fn wren_worker(
    pod: Pod,
    job: Seq<char>,
    namespace: Seq<char>,
    spec: WrenJobSpec,
    node: Seq<char>,
    rank: u32,
    user: Option<&UserIdentity>,
) -> bool {
    &&& runs(pod, spec.container->0)
    &&& stands(pod, job + "-worker-"@ + dec(rank as nat), namespace, job + "-workers"@, node)
    &&& keeps(pod.container.env@, spec.container->0.env@)
    &&& knows_its_place(pod, job, rank, user)
    &&& user is Some ==> runs_under(pod, *user->0)
    &&& user is None ==> pod.security_context is None
    &&& pod.host_network == (if spec.container->0.host_network {
        Some(true)
    } else {
        None
    })
    &&& labelled(pod.metadata.labels@, "wren.giar.dev/job-name"@, job)
    &&& labelled(pod.metadata.labels@, "wren.giar.dev/role"@, "worker"@)
    &&& labelled(pod.metadata.labels@, "wren.giar.dev/rank"@, dec(rank as nat))
}

proof fn lemma_label_keys(prefix: Seq<char>)
    ensures
        "wren.giar.dev/job-name"@ =~= "wren.giar.dev"@ + "/job-name"@,
        "wren.giar.dev/role"@ =~= "wren.giar.dev"@ + "/role"@,
        "wren.giar.dev/rank"@ =~= "wren.giar.dev"@ + "/rank"@,
        "bubo.io/job-name"@ =~= "bubo.io"@ + "/job-name"@,
        "bubo.io/role"@ =~= "bubo.io"@ + "/role"@,
        "bubo.io/rank"@ =~= "bubo.io"@ + "/rank"@,
{
    reveal_strlit("wren.giar.dev/job-name");
    reveal_strlit("wren.giar.dev/role");
    reveal_strlit("wren.giar.dev/rank");
    reveal_strlit("bubo.io/job-name");
    reveal_strlit("bubo.io/role");
    reveal_strlit("bubo.io/rank");
    reveal_strlit("wren.giar.dev");
    reveal_strlit("bubo.io");
    reveal_strlit("/job-name");
    reveal_strlit("/role");
    reveal_strlit("/rank");
}

proof fn lemma_wren_worker(
    pod: Pod,
    job: Seq<char>,
    namespace: Seq<char>,
    spec: WrenJobSpec,
    node: Seq<char>,
    rank: u32,
    user: Option<&UserIdentity>,
)
    requires
        wren::container::is_worker_pod(pod, job, namespace, spec, node, rank, user.deep_view()),
    ensures
        wren_worker(pod, job, namespace, spec, node, rank, user),
{
    let stated = spec.container->0.env@;
    let env = pod.container.env@;
    let content = pod.container.env.deep_view();
    let n = stated.len() as int;
    lemma_names();
    lemma_label_keys(job);
    law_labels_name_the_job("wren.giar.dev"@, "wren"@, job, "worker"@, Some(rank));
    assert(spec.container->0.env.deep_view().len() == n);
    assert(content.len() == env.len());
    assert(content.len() >= n + 2);
    assert forall|i: int| 0 <= i < n implies (#[trigger] env[i]).name@ == stated[i].name@
        && env[i].value@ == stated[i].value@ by {
        lemma_env_entry(env, content, i);
        assert(spec.container->0.env.deep_view()[i] == stated[i].deep_view());
    }
    lemma_env_entry(env, content, n);
    lemma_env_entry(env, content, n + 1);
    if user is Some {
        lemma_env_entry(env, content, n + 2);
        lemma_env_entry(env, content, n + 3);
        if user->0.home_dir is Some {
            lemma_env_entry(env, content, n + 4);
            lemma_last_says(env, n + 4, "HOME"@, user->0.home_dir->0@);
        }
        lemma_last_says(env, n + 2, "USER"@, user->0.username@);
        lemma_last_says(env, n + 3, "LOGNAME"@, user->0.username@);
    }
    lemma_last_says(env, n, "WREN_RANK"@, dec(rank as nat));
    lemma_last_says(env, n + 1, "WREN_JOB_NAME"@, job);
    lemma_words(pod, spec.container->0);
}

proof fn lemma_words(pod: Pod, spec: ContainerSpec)
    requires
        pod.container.image@ == spec.image@,
        pod.container.command.deep_view() == crate::controller::manifest::unless_empty(
            spec.command.deep_view(),
        ),
        pod.container.args.deep_view() == crate::controller::manifest::unless_empty(
            spec.args.deep_view(),
        ),
    ensures
        runs(pod, spec),
{
    assert(spec.command.deep_view().len() == spec.command@.len());
    assert(spec.args.deep_view().len() == spec.args@.len());
    assert(words(pod.container.command) =~= spec.command.deep_view());
    assert(words(pod.container.args) =~= spec.args.deep_view());
}

/// What holds of the worker of an MPI job.
pub open spec fn mpi_worker(
    pod: Pod,
    job: Seq<char>,
    namespace: Seq<char>,
    spec: MPIJobSpec,
    node: Seq<char>,
    rank: u32,
) -> bool {
    &&& runs(pod, spec.container->0)
    &&& stands(pod, job + "-worker-"@ + dec(rank as nat), namespace, job + "-workers"@, node)
    &&& keeps(pod.container.env@, spec.container->0.env@)
    &&& says(pod.container.env@, "BUBO_RANK"@, dec(rank as nat))
    &&& says(pod.container.env@, "BUBO_JOB_NAME"@, job)
    &&& pod.host_network == (if spec.container->0.host_network {
        Some(true)
    } else {
        None
    })
    &&& labelled(pod.metadata.labels@, "bubo.io/job-name"@, job)
    &&& labelled(pod.metadata.labels@, "bubo.io/role"@, "worker"@)
    &&& labelled(pod.metadata.labels@, "bubo.io/rank"@, dec(rank as nat))
}

/// A worker of an MPI job runs the job's command and arguments in its image, on its node,
/// with the variables that the job states, its own rank and the name of the job. There
/// is one exactly where the job has a container.
pub proof fn law_mpi_worker_runs_the_job(
    job_name: &str,
    namespace: &str,
    spec: &MPIJobSpec,
    node_name: &str,
    rank: u32,
    r: Result<Pod, BuboError>,
)
    requires
        call_ensures(
            bubo::container::build_worker_pod,
            (job_name, namespace, spec, node_name, rank),
            r,
        ),
    ensures
        r is Ok <==> spec.container is Some,
        r is Ok ==> mpi_worker(r->Ok_0, job_name@, namespace@, *spec, node_name@, rank),
{
    if r is Ok {
        lemma_mpi_worker(r->Ok_0, job_name@, namespace@, *spec, node_name@, rank);
    }
}

proof fn lemma_mpi_worker(
    pod: Pod,
    job: Seq<char>,
    namespace: Seq<char>,
    spec: MPIJobSpec,
    node: Seq<char>,
    rank: u32,
)
    requires
        bubo::container::is_worker_pod(pod, job, namespace, spec, node, rank),
    ensures
        mpi_worker(pod, job, namespace, spec, node, rank),
{
    let stated = spec.container->0.env@;
    let env = pod.container.env@;
    let content = pod.container.env.deep_view();
    let n = stated.len() as int;
    lemma_names();
    lemma_label_keys(job);
    law_labels_name_the_job("bubo.io"@, "bubo"@, job, "worker"@, Some(rank));
    assert(spec.container->0.env.deep_view().len() == n);
    assert(content.len() == env.len());
    assert forall|i: int| 0 <= i < n implies (#[trigger] env[i]).name@ == stated[i].name@
        && env[i].value@ == stated[i].value@ by {
        lemma_env_entry(env, content, i);
        assert(spec.container->0.env.deep_view()[i] == stated[i].deep_view());
    }
    lemma_env_entry(env, content, n);
    lemma_env_entry(env, content, n + 1);
    lemma_last_says(env, n, "BUBO_RANK"@, dec(rank as nat));
    lemma_last_says(env, n + 1, "BUBO_JOB_NAME"@, job);
    lemma_words(pod, spec.container->0);
}

/// Whether `line` is the command line of `mpirun` for `ranks` ranks with a hostfile, as it
/// is run in a container: as root for Open MPI, which is what jobs use that name no
/// implementation, and over the interface that the job names, if it names one.
pub open spec fn starts_ranks(
    line: Seq<Seq<char>>,
    ranks: nat,
    path: Seq<char>,
    mpi: Option<MPISpec>,
) -> bool {
    let open = mpi is None || mpi->0.implementation@ == "openmpi"@;
    let named = mpi is Some && mpi->0.fabric_interface is Some;
    &&& line.len() == (if open && named {
        9int
    } else if open {
        6
    } else {
        5
    })
    &&& line[0] == "mpirun"@
    &&& line[1] == "-np"@
    &&& line[2] == dec(ranks)
    &&& line[3] == "--hostfile"@
    &&& line[4] == path
    &&& open ==> line[5] == "--allow-run-as-root"@
    &&& open && named ==> line[6] == "--mca"@ && line[7] == "btl_tcp_if_include"@ && line[8]
        == mpi->0.fabric_interface->0@
}

proof fn lemma_starts_ranks(ranks: nat, path: Seq<char>, mpi: Option<MPISpec>)
    ensures
        starts_ranks(
            crate::controller::launch::mpirun_words(ranks, path, mpi),
            ranks,
            path,
            mpi,
        ),
{
    reveal_strlit("openmpi");
}

/// A job in containers is started with `mpirun` for all of its ranks, under either
/// controller.
pub proof fn law_mpirun_starts_all_ranks(
    spec: &WrenJobSpec,
    mpi_spec: &MPIJobSpec,
    path: &str,
    r: Vec<String>,
    mpi_r: Vec<String>,
)
    requires
        call_ensures(wren::mpi::mpirun_args, (spec, path), r),
        call_ensures(bubo::mpi::mpirun_args, (mpi_spec, path), mpi_r),
    ensures
        starts_ranks(
            r.deep_view(),
            (spec.nodes * spec.tasks_per_node) as nat,
            path@,
            spec.mpi,
        ),
        starts_ranks(
            mpi_r.deep_view(),
            (mpi_spec.nodes * mpi_spec.tasks_per_node) as nat,
            path@,
            mpi_spec.mpi,
        ),
{
    lemma_starts_ranks((spec.nodes * spec.tasks_per_node) as nat, path@, spec.mpi);
    lemma_starts_ranks((mpi_spec.nodes * mpi_spec.tasks_per_node) as nat, path@, mpi_spec.mpi);
}

/// Whether a pod is a launcher: it runs the job's command and arguments, behind `mpirun`
/// for all ranks, in the job's image on the first node, and is never restarted.
pub open spec fn is_launching(
    pod: Pod,
    job: Seq<char>,
    namespace: Seq<char>,
    container: ContainerSpec,
    ranks: nat,
    path: Seq<char>,
    mpi: Option<MPISpec>,
    placement: Placement,
) -> bool {
    let own = container.command.deep_view() + container.args.deep_view();
    let line = words(pod.container.command) + words(pod.container.args);
    &&& pod.container.image@ == container.image@
    &&& line.len() >= own.len()
    &&& line.skip(line.len() - own.len()) == own
    &&& starts_ranks(line.take(line.len() - own.len()), ranks, path, mpi)
    &&& pod.metadata.name@ == job + "-launcher"@
    &&& pod.metadata.namespace@ == namespace
    &&& pod.restart_policy@ == "Never"@
    &&& placement.nodes@.len() > 0 ==> pod.node_name is Some && pod.node_name->0@
        == placement.nodes@[0]@
    &&& placement.nodes@.len() == 0 ==> pod.node_name is None
}

proof fn lemma_line(
    pod: Pod,
    container: ContainerSpec,
    ranks: nat,
    path: Seq<char>,
    mpi: Option<MPISpec>,
)
    requires
        pod.container.args is None,
        pod.container.command.deep_view() == Some(
            crate::controller::launch::mpirun_words(ranks, path, mpi)
                + container.command.deep_view() + container.args.deep_view(),
        ),
    ensures
        ({
            let own = container.command.deep_view() + container.args.deep_view();
            let line = words(pod.container.command) + words(pod.container.args);
            &&& line.len() >= own.len()
            &&& line.skip(line.len() - own.len()) == own
            &&& starts_ranks(line.take(line.len() - own.len()), ranks, path, mpi)
        }),
{
    let own = container.command.deep_view() + container.args.deep_view();
    let line = words(pod.container.command) + words(pod.container.args);
    let head = crate::controller::launch::mpirun_words(ranks, path, mpi);
    assert(line =~= head + own);
    assert(line.skip(line.len() - own.len()) =~= own);
    assert(line.take(line.len() - own.len()) =~= head);
    lemma_starts_ranks(ranks, path, mpi);
}

/// What holds of the launcher of a Wren job.
pub open spec fn wren_launcher(
    pod: Pod,
    job: Seq<char>,
    namespace: Seq<char>,
    spec: WrenJobSpec,
    placement: Placement,
    user: Option<&UserIdentity>,
) -> bool {
    let env = pod.container.env@;
    let ranks = (spec.nodes * spec.tasks_per_node) as nat;
    &&& is_launching(
        pod,
        job,
        namespace,
        spec.container->0,
        ranks,
        "/etc/wren/hostfile"@,
        spec.mpi,
        placement,
    )
    &&& says(env, "WREN_JOB_NAME"@, job)
    &&& says(env, "WREN_NUM_NODES"@, dec(spec.nodes as nat))
    &&& says(env, "WREN_TOTAL_RANKS"@, dec(ranks))
    &&& user is Some ==> runs_under(pod, *user->0) && says(env, "USER"@, user->0.username@)
    &&& labelled(pod.metadata.labels@, "wren.giar.dev/job-name"@, job)
    &&& labelled(pod.metadata.labels@, "wren.giar.dev/role"@, "launcher"@)
}

/// The launcher of a Wren job starts all of its ranks, each with the job's command and
/// arguments, and under the identity of the user.
pub proof fn law_launcher_starts_the_job(
    job_name: &str,
    namespace: &str,
    spec: &WrenJobSpec,
    placement: &Placement,
    user: Option<&UserIdentity>,
    r: Result<Pod, WrenError>,
)
    requires
        call_ensures(
            wren::container::build_launcher_pod,
            (job_name, namespace, spec, placement, user),
            r,
        ),
    ensures
        r is Ok <==> spec.container is Some,
        r is Ok ==> wren_launcher(r->Ok_0, job_name@, namespace@, *spec, *placement, user),
{
    if r is Ok {
        lemma_wren_launcher(r->Ok_0, job_name@, namespace@, *spec, *placement, user);
    }
}

proof fn lemma_wren_launcher(
    pod: Pod,
    job: Seq<char>,
    namespace: Seq<char>,
    spec: WrenJobSpec,
    placement: Placement,
    user: Option<&UserIdentity>,
)
    requires
        wren::container::is_launcher_pod(pod, job, namespace, spec, placement, user.deep_view()),
    ensures
        wren_launcher(pod, job, namespace, spec, placement, user),
{
    let env = pod.container.env@;
    let content = pod.container.env.deep_view();
    let ranks = (spec.nodes * spec.tasks_per_node) as nat;
    lemma_names();
    lemma_label_keys(job);
    law_labels_name_the_job("wren.giar.dev"@, "wren"@, job, "launcher"@, None);
    lemma_line(pod, spec.container->0, ranks, "/etc/wren/hostfile"@, spec.mpi);
    assert(content.len() == env.len());
    assert(content.len() >= 3);
    lemma_env_entry(env, content, 0);
    lemma_env_entry(env, content, 1);
    lemma_env_entry(env, content, 2);
    if user is Some {
        lemma_env_entry(env, content, 3);
        lemma_env_entry(env, content, 4);
        if user->0.home_dir is Some {
            lemma_env_entry(env, content, 5);
        }
        lemma_last_says(env, 3, "USER"@, user->0.username@);
    }
    lemma_last_says(env, 0, "WREN_JOB_NAME"@, job);
    lemma_last_says(env, 1, "WREN_NUM_NODES"@, dec(spec.nodes as nat));
    lemma_last_says(env, 2, "WREN_TOTAL_RANKS"@, dec(ranks));
}

/// What holds of the launcher of an MPI job.
pub open spec fn mpi_launcher(
    pod: Pod,
    job: Seq<char>,
    namespace: Seq<char>,
    spec: MPIJobSpec,
    placement: Placement,
) -> bool {
    let env = pod.container.env@;
    let ranks = (spec.nodes * spec.tasks_per_node) as nat;
    &&& is_launching(
        pod,
        job,
        namespace,
        spec.container->0,
        ranks,
        "/etc/bubo/hostfile"@,
        spec.mpi,
        placement,
    )
    &&& says(env, "BUBO_JOB_NAME"@, job)
    &&& says(env, "BUBO_NUM_NODES"@, dec(spec.nodes as nat))
    &&& says(env, "BUBO_TOTAL_RANKS"@, dec(ranks))
    &&& labelled(pod.metadata.labels@, "bubo.io/job-name"@, job)
    &&& labelled(pod.metadata.labels@, "bubo.io/role"@, "launcher"@)
}

/// The launcher of an MPI job starts all of its ranks, each with the job's command and
/// arguments.
pub proof fn law_mpi_launcher_starts_the_job(
    job_name: &str,
    namespace: &str,
    spec: &MPIJobSpec,
    placement: &Placement,
    r: Result<Pod, BuboError>,
)
    requires
        call_ensures(
            bubo::container::build_launcher_pod,
            (job_name, namespace, spec, placement),
            r,
        ),
    ensures
        r is Ok <==> spec.container is Some,
        r is Ok ==> mpi_launcher(r->Ok_0, job_name@, namespace@, *spec, *placement),
{
    if r is Ok {
        lemma_mpi_launcher(r->Ok_0, job_name@, namespace@, *spec, *placement);
    }
}

proof fn lemma_mpi_launcher(
    pod: Pod,
    job: Seq<char>,
    namespace: Seq<char>,
    spec: MPIJobSpec,
    placement: Placement,
)
    requires
        bubo::container::is_launcher_pod(pod, job, namespace, spec, placement),
    ensures
        mpi_launcher(pod, job, namespace, spec, placement),
{
    let env = pod.container.env@;
    let content = pod.container.env.deep_view();
    let ranks = (spec.nodes * spec.tasks_per_node) as nat;
    lemma_names();
    lemma_label_keys(job);
    law_labels_name_the_job("bubo.io"@, "bubo"@, job, "launcher"@, None);
    lemma_line(pod, spec.container->0, ranks, "/etc/bubo/hostfile"@, spec.mpi);
    assert(content.len() == env.len());
    lemma_env_entry(env, content, 0);
    lemma_env_entry(env, content, 1);
    lemma_env_entry(env, content, 2);
    lemma_last_says(env, 0, "BUBO_JOB_NAME"@, job);
    lemma_last_says(env, 1, "BUBO_NUM_NODES"@, dec(spec.nodes as nat));
    lemma_last_says(env, 2, "BUBO_TOTAL_RANKS"@, dec(ranks));
}

/// A Wren job without MPI is launched as one worker on each of its nodes, in the order of
/// its nodes and of their ranks, and nothing else: each runs the job's own command. What
/// is reported of the launch are the workers' names.
pub proof fn law_simple_jobs_run_on_each_node(
    job_name: &str,
    namespace: &str,
    spec: &WrenJobSpec,
    placement: &Placement,
    user: Option<&UserIdentity>,
    r: LaunchPlan,
    k: int,
)
    requires
        call_ensures(
            wren::container::plan_launch,
            (job_name, namespace, spec, placement, user),
            r,
        ),
        spec.mpi is None,
        spec.container is Some,
        placement.nodes@.len() <= u32::MAX,
    ensures
        r.outcome is Ok,
        r.steps@.len() == placement.nodes@.len(),
        r.outcome->Ok_0.resource_ids@.len() == placement.nodes@.len(),
        0 <= k < placement.nodes@.len() ==> {
            &&& r.steps@[k] is Pod
            &&& wren_worker(
                r.steps@[k]->Pod_0,
                job_name@,
                namespace@,
                *spec,
                placement.nodes@[k]@,
                k as u32,
                user,
            )
            &&& r.outcome->Ok_0.resource_ids@[k]@ == r.steps@[k]->Pod_0.metadata.name@
        },
{
    let names = r.outcome->Ok_0.resource_ids;
    assert(names.deep_view().len() == names@.len());
    if 0 <= k < placement.nodes@.len() {
        assert(r.steps@[0 + k] is Pod);
        lemma_wren_worker(
            r.steps@[k]->Pod_0,
            job_name@,
            namespace@,
            *spec,
            placement.nodes@[k]@,
            k as u32,
            user,
        );
        assert(names.deep_view()[k] == names@[k]@);
    }
}

/// A Wren job with MPI is launched as a service, a hostfile, one worker on each of its
/// nodes, and a launcher, in this order. The workers answer to the service: they bear
/// all the labels that it looks for, and its name is their subdomain.
pub proof fn law_mpi_jobs_have_a_launcher(
    job_name: &str,
    namespace: &str,
    spec: &WrenJobSpec,
    placement: &Placement,
    user: Option<&UserIdentity>,
    r: LaunchPlan,
    k: int,
)
    requires
        call_ensures(
            wren::container::plan_launch,
            (job_name, namespace, spec, placement, user),
            r,
        ),
        spec.mpi is Some,
        spec.container is Some,
        placement.nodes@.len() <= u32::MAX,
    ensures
        r.outcome is Ok,
        r.steps@.len() == placement.nodes@.len() + 3,
        r.steps@[0] is Service,
        r.steps@[1] is ConfigMap,
        is_service_of(r.steps@[0]->Service_0, job_name@, namespace@),
        r.steps@.last() is Pod,
        wren_launcher(r.steps@.last()->Pod_0, job_name@, namespace@, *spec, *placement, user),
        0 <= k < placement.nodes@.len() ==> {
            &&& r.steps@[k + 2] is Pod
            &&& wren_worker(
                r.steps@[k + 2]->Pod_0,
                job_name@,
                namespace@,
                *spec,
                placement.nodes@[k]@,
                k as u32,
                user,
            )
            &&& leads_to(r.steps@[0]->Service_0, r.steps@[k + 2]->Pod_0)
        },
{
    let n = placement.nodes@.len() as int;
    assert(r.steps@.last() == r.steps@[n + 2]);
    let ports = r.steps@[0]->Service_0.ports;
    assert(ports.deep_view().len() == ports@.len());
    assert(ports.deep_view()[0] == ports@[0].deep_view());
    lemma_wren_launcher(
        r.steps@[n + 2]->Pod_0,
        job_name@,
        namespace@,
        *spec,
        *placement,
        user,
    );
    if 0 <= k < n {
        assert(r.steps@[2 + k] is Pod);
        lemma_wren_worker(
            r.steps@[k + 2]->Pod_0,
            job_name@,
            namespace@,
            *spec,
            placement.nodes@[k]@,
            k as u32,
            user,
        );
        lemma_leads_to("wren.giar.dev"@, "wren"@, job_name@, k as u32);
    }
}

/// Whether a service leads to a pod: the pod bears every label that it looks for, and its
/// name as its subdomain.
pub open spec fn leads_to(service: Service, pod: Pod) -> bool {
    &&& forall|key: Seq<char>| #[trigger]
        service.selector@.dom().contains(key) ==> labelled(
            pod.metadata.labels@,
            key,
            service.selector@[key],
        )
    &&& pod.subdomain is Some && pod.subdomain->0@ == service.metadata.name@
}

/// Whether a service is the headless one of a job: it has no address of its own, so that
/// its name leads to the pods themselves, at the port of SSH.
pub open spec fn is_service_of(service: Service, job: Seq<char>, namespace: Seq<char>) -> bool {
    &&& service.metadata.name@ == job + "-workers"@
    &&& service.metadata.namespace@ == namespace
    &&& service.cluster_ip@ == "None"@
    &&& service.ports@.len() == 1
    &&& service.ports@[0].port == 22
}

proof fn lemma_leads_to(prefix: Seq<char>, manager: Seq<char>, job: Seq<char>, rank: u32)
    ensures
        ({
            let wide = labels_under(prefix, manager, job, "worker"@, None);
            let own = labels_under(prefix, manager, job, "worker"@, Some(rank));
            forall|key: Seq<char>| #[trigger]
                wide.dom().contains(key) ==> labelled(own, key, wide[key])
        }),
{
    let c = prefix + "/rank"@;
    let wide = labels_under(prefix, manager, job, "worker"@, None);
    reveal_strlit("/job-name");
    reveal_strlit("/role");
    reveal_strlit("/rank");
    reveal_strlit("app.kubernetes.io/managed-by");
    let n = prefix.len() as int;
    let a = prefix + "/job-name"@;
    let b = prefix + "/role"@;
    assert(a.len() == n + 9 && b.len() == n + 5 && c.len() == n + 5);
    assert(b[n + 2] == 'o' && c[n + 2] == 'a') by {
        assert(b[n + 2] == "/role"@[2]);
        assert(c[n + 2] == "/rank"@[2]);
    }
    let m = "app.kubernetes.io/managed-by"@;
    assert(c != m) by {
        assert(c.last() == 'k') by {
            assert(c[n + 4] == "/rank"@[4]);
        }
        assert(m.last() == 'y');
    }
}

/// An MPI job is launched as a service, a hostfile, one worker on each of its nodes, and a
/// launcher, in this order, and the workers answer to the service.
pub proof fn law_every_mpi_job_has_a_launcher(
    job_name: &str,
    namespace: &str,
    spec: &MPIJobSpec,
    placement: &Placement,
    r: LaunchPlan,
    k: int,
)
    requires
        call_ensures(bubo::container::plan_launch, (job_name, namespace, spec, placement), r),
        spec.container is Some,
        placement.nodes@.len() <= u32::MAX,
    ensures
        r.outcome is Ok,
        r.steps@.len() == placement.nodes@.len() + 3,
        r.steps@[0] is Service,
        r.steps@[1] is ConfigMap,
        is_service_of(r.steps@[0]->Service_0, job_name@, namespace@),
        r.steps@.last() is Pod,
        mpi_launcher(r.steps@.last()->Pod_0, job_name@, namespace@, *spec, *placement),
        0 <= k < placement.nodes@.len() ==> {
            &&& r.steps@[k + 2] is Pod
            &&& mpi_worker(
                r.steps@[k + 2]->Pod_0,
                job_name@,
                namespace@,
                *spec,
                placement.nodes@[k]@,
                k as u32,
            )
            &&& leads_to(r.steps@[0]->Service_0, r.steps@[k + 2]->Pod_0)
            &&& r.outcome->Ok_0.resource_ids@[k]@ == r.steps@[k + 2]->Pod_0.metadata.name@
        },
{
    let n = placement.nodes@.len() as int;
    let names = r.outcome->Ok_0.resource_ids;
    assert(names.deep_view().len() == names@.len());
    assert(r.steps@.last() == r.steps@[n + 2]);
    let ports = r.steps@[0]->Service_0.ports;
    assert(ports.deep_view().len() == ports@.len());
    assert(ports.deep_view()[0] == ports@[0].deep_view());
    lemma_mpi_launcher(r.steps@[n + 2]->Pod_0, job_name@, namespace@, *spec, *placement);
    if 0 <= k < n {
        assert(r.steps@[k + 2] is Pod);
        lemma_mpi_worker(
            r.steps@[k + 2]->Pod_0,
            job_name@,
            namespace@,
            *spec,
            placement.nodes@[k]@,
            k as u32,
        );
        lemma_leads_to("bubo.io"@, "bubo"@, job_name@, k as u32);
        assert(names.deep_view()[k] == names@[k]@);
    }
}

/// A job for containers that has none is not launched.
pub proof fn law_jobs_without_container_are_refused(
    job_name: &str,
    namespace: &str,
    spec: &WrenJobSpec,
    mpi_spec: &MPIJobSpec,
    placement: &Placement,
    user: Option<&UserIdentity>,
    r: LaunchPlan,
    mpi_r: LaunchPlan,
)
    requires
        call_ensures(
            wren::container::plan_launch,
            (job_name, namespace, spec, placement, user),
            r,
        ),
        call_ensures(bubo::container::plan_launch, (job_name, namespace, mpi_spec, placement), mpi_r),
        placement.nodes@.len() > 0,
    ensures
        spec.container is None <==> r.outcome is Err,
        mpi_spec.container is None <==> mpi_r.outcome is Err,
{
}

/// A hostfile has a line for each node: the node and its slots. A further node adds a
/// line at the end.
pub proof fn law_hostfiles_list_nodes(
    placement: &Placement,
    longer: &Placement,
    tasks_per_node: u32,
    r: String,
    longer_r: String,
)
    requires
        call_ensures(wren::mpi::generate_hostfile, (placement, tasks_per_node), r),
        call_ensures(bubo::mpi::generate_hostfile, (longer, tasks_per_node), longer_r),
        longer.nodes@.len() == placement.nodes@.len() + 1,
        forall|i: int|
            0 <= i < placement.nodes@.len() ==> (#[trigger] longer.nodes@[i])@
                == placement.nodes@[i]@,
    ensures
        placement.nodes@.len() == 0 ==> r@ == Seq::<char>::empty(),
        ({
            let line = longer.nodes@.last()@ + " slots="@ + dec(tasks_per_node as nat);
            longer_r@ == (if placement.nodes@.len() == 0 {
                line
            } else {
                r@ + "\n"@ + line
            })
        }),
{
    let slots = tasks_per_node as nat;
    let a = placement.nodes.deep_view();
    let b = longer.nodes.deep_view();
    let short = Seq::new(a.len(), |i: int| host_line(a[i], slots));
    let long = Seq::new(b.len(), |i: int| host_line(b[i], slots));
    assert(long.drop_last() =~= short) by {
        assert forall|i: int| 0 <= i < short.len() implies long.drop_last()[i] == short[i] by {
            assert(longer.nodes@[i]@ == placement.nodes@[i]@);
        }
    }
    assert(b.last() == longer.nodes@.last()@);
    assert(long.last() == host_line(b.last(), slots));
}

/// The hostfile that is handed to a job is that of its nodes, in the file that the launcher
/// is told to read.
pub proof fn law_hostfile_is_handed_over(
    job_name: &str,
    namespace: &str,
    placement: &Placement,
    tasks_per_node: u32,
    text: String,
    r: ConfigMap,
    mpi_r: ConfigMap,
)
    requires
        call_ensures(wren::mpi::generate_hostfile, (placement, tasks_per_node), text),
        call_ensures(
            wren::container::build_hostfile_configmap,
            (job_name, namespace, placement, tasks_per_node),
            r,
        ),
        call_ensures(
            bubo::container::build_hostfile_configmap,
            (job_name, namespace, placement, tasks_per_node),
            mpi_r,
        ),
    ensures
        labelled(r.data@, "hostfile"@, text@),
        labelled(mpi_r.data@, "hostfile"@, text@),
        r.metadata.name@ == job_name@ + "-hostfile"@,
        mpi_r.metadata.name@ == job_name@ + "-hostfile"@,
        r.metadata.namespace@ == namespace@,
        mpi_r.metadata.namespace@ == namespace@,
{
}

/// The pods of a job are found by the label that they bear.
pub proof fn law_pods_are_found_by_label(
    job_name: &str,
    namespace: &str,
    spec: &WrenJobSpec,
    mpi_spec: &MPIJobSpec,
    node_name: &str,
    rank: u32,
    user: Option<&UserIdentity>,
    pod: Pod,
    mpi_pod: Pod,
    selector: String,
    mpi_selector: String,
)
    requires
        call_ensures(
            wren::container::build_worker_pod,
            (job_name, namespace, spec, node_name, rank, user),
            Ok(pod),
        ),
        call_ensures(
            bubo::container::build_worker_pod,
            (job_name, namespace, mpi_spec, node_name, rank),
            Ok(mpi_pod),
        ),
        call_ensures(wren::container::pod_selector, (job_name,), selector),
        call_ensures(bubo::container::pod_selector, (job_name,), mpi_selector),
    ensures
        exists|key: Seq<char>|
            selector@ == key + "="@ + job_name@ && #[trigger] labelled(
                pod.metadata.labels@,
                key,
                job_name@,
            ),
        exists|key: Seq<char>|
            mpi_selector@ == key + "="@ + job_name@ && #[trigger] labelled(
                mpi_pod.metadata.labels@,
                key,
                job_name@,
            ),
{
    law_worker_runs_the_job(job_name, namespace, spec, node_name, rank, user, Ok(pod));
    law_mpi_worker_runs_the_job(job_name, namespace, mpi_spec, node_name, rank, Ok(mpi_pod));
    reveal_strlit("wren.giar.dev/job-name=");
    reveal_strlit("wren.giar.dev/job-name");
    reveal_strlit("bubo.io/job-name=");
    reveal_strlit("bubo.io/job-name");
    reveal_strlit("=");
    assert("wren.giar.dev/job-name="@ =~= "wren.giar.dev/job-name"@ + "="@);
    assert("bubo.io/job-name="@ =~= "bubo.io/job-name"@ + "="@);
    assert(labelled(pod.metadata.labels@, "wren.giar.dev/job-name"@, job_name@));
    assert(labelled(mpi_pod.metadata.labels@, "bubo.io/job-name"@, job_name@));
}

/// The service of a job has no address of its own and leads to its workers.
pub proof fn law_services_lead_to_workers(
    job_name: &str,
    namespace: &str,
    spec: &WrenJobSpec,
    node_name: &str,
    rank: u32,
    user: Option<&UserIdentity>,
    service: Service,
    mpi_service: Service,
    pod: Pod,
)
    requires
        call_ensures(wren::container::build_headless_service, (job_name, namespace), service),
        call_ensures(bubo::container::build_headless_service, (job_name, namespace), mpi_service),
        call_ensures(
            wren::container::build_worker_pod,
            (job_name, namespace, spec, node_name, rank, user),
            Ok(pod),
        ),
    ensures
        is_service_of(service, job_name@, namespace@),
        is_service_of(mpi_service, job_name@, namespace@),
        leads_to(service, pod),
        labelled(service.selector@, "wren.giar.dev/job-name"@, job_name@),
        labelled(mpi_service.selector@, "bubo.io/job-name"@, job_name@),
{
    assert(service.ports.deep_view().len() == service.ports@.len());
    assert(service.ports.deep_view()[0] == service.ports@[0].deep_view());
    assert(mpi_service.ports.deep_view().len() == mpi_service.ports@.len());
    assert(mpi_service.ports.deep_view()[0] == mpi_service.ports@[0].deep_view());
    lemma_leads_to("wren.giar.dev"@, "wren"@, job_name@, rank);
    lemma_label_keys(job_name@);
    law_labels_name_the_job("wren.giar.dev"@, "wren"@, job_name@, "worker"@, None);
    law_labels_name_the_job("bubo.io"@, "bubo"@, job_name@, "worker"@, None);
}

/// A Wren job has a launcher exactly where it says how MPI is started.
pub proof fn law_launchers_are_for_mpi(spec: &WrenJobSpec, r: bool)
    requires
        call_ensures(wren::container::needs_mpi_launcher, (spec,), r),
    ensures
        r <==> spec.mpi is Some,
{
}

} // verus!
