//! Command lines, hostfiles and environments of MPI jobs.

use vstd::prelude::*;
use vstd::slice::*;
use vstd::string::*;
use crate::model::crd::MPISpec;
use crate::string_map::{lemma_push_contains, StringMap};
use crate::text::{dec, decimal, join, joined, lemma_dec_injective, str_eq};

verus! {

/// A line of a hostfile.
pub open spec fn host_line(node: Seq<char>, slots: nat) -> Seq<char> {
    node + " slots="@ + dec(slots)
}

/// A hostfile: a line for each node.
pub open spec fn hostfile(nodes: Seq<Seq<char>>, slots: nat) -> Seq<char> {
    joined(Seq::new(nodes.len(), |i: int| host_line(nodes[i], slots)), "\n"@)
}

/// MPI implementation of a job; `openmpi` unless it names one.
pub open spec fn implementation(mpi: Option<MPISpec>) -> Seq<char> {
    match mpi {
        Some(m) => m.implementation@,
        None => "openmpi"@,
    }
}

/// Network interface that a job names for MPI traffic.
pub open spec fn interface(mpi: Option<MPISpec>) -> Option<Seq<char>> {
    match mpi {
        Some(m) => m.fabric_interface.deep_view(),
        None => None,
    }
}

/// `words`, followed by `more` and the interface, where a job names one.
pub open spec fn with_interface(
    words: Seq<Seq<char>>,
    more: Seq<Seq<char>>,
    mpi: Option<MPISpec>,
) -> Seq<Seq<char>> {
    match interface(mpi) {
        Some(name) => (words + more).push(name),
        None => words,
    }
}

/// `mpirun` with the number of ranks and the hostfile.
pub open spec fn mpirun_base(ranks: nat, path: Seq<char>) -> Seq<Seq<char>> {
    seq!["mpirun"@, "-np"@, dec(ranks), "--hostfile"@, path]
}

/// The `mpirun` prefix inside a container. Open MPI is told to run as root there and,
/// where the job names one, which interface to use.
pub open spec fn mpirun_words(ranks: nat, path: Seq<char>, mpi: Option<MPISpec>) -> Seq<
    Seq<char>,
> {
    if implementation(mpi) == "openmpi"@ {
        with_interface(
            mpirun_base(ranks, path).push("--allow-run-as-root"@),
            seq!["--mca"@, "btl_tcp_if_include"@],
            mpi,
        )
    } else {
        mpirun_base(ranks, path)
    }
}

/// `srun` with nodes, tasks and hostfile, and the interface where the job names one.
pub open spec fn srun_words(
    nodes: nat,
    tasks: nat,
    path: Seq<char>,
    mpi: Option<MPISpec>,
) -> Seq<Seq<char>> {
    with_interface(
        seq![
            "srun"@,
            "--nodes"@,
            dec(nodes),
            "--ntasks-per-node"@,
            dec(tasks),
            "--hostfile"@,
            path,
        ],
        seq!["--network"@],
        mpi,
    )
}

/// The launcher on bare metal: `srun` for Cray MPICH, `mpiexec.hydra` for Intel MPI,
/// else `mpirun`, which is not told to run as root there.
pub open spec fn bare_metal_words(
    nodes: nat,
    tasks: nat,
    path: Seq<char>,
    mpi: Option<MPISpec>,
) -> Seq<Seq<char>> {
    if implementation(mpi) == "cray-mpich"@ {
        srun_words(nodes, tasks, path, mpi)
    } else if implementation(mpi) == "intel-mpi"@ {
        with_interface(
            seq![
                "mpiexec.hydra"@,
                "-np"@,
                dec(nodes * tasks),
                "-machinefile"@,
                path,
                "-ppn"@,
                dec(tasks),
            ],
            seq!["-iface"@],
            mpi,
        )
    } else {
        with_interface(
            mpirun_base(nodes * tasks, path),
            seq!["--mca"@, "btl_tcp_if_include"@],
            mpi,
        )
    }
}

/// Variables with names and values.
pub type Variables = Map<Seq<char>, Seq<char>>;

/// `env`, with the interface under `key` where the job names one.
pub open spec fn with_interface_variable(
    env: Variables,
    key: Seq<char>,
    mpi: Option<MPISpec>,
) -> Variables {
    match interface(mpi) {
        Some(name) => env.insert(key, name),
        None => env,
    }
}

/// Environment of MPI on bare metal: job, size and hostfile, and what the
/// implementation needs to know of the network.
pub open spec fn bare_metal_variables(
    job: Seq<char>,
    node_count: nat,
    ranks: nat,
    path: Seq<char>,
    mpi: Option<MPISpec>,
) -> Variables {
    let base = Map::<Seq<char>, Seq<char>>::empty().insert("WREN_JOB_NAME"@, job).insert(
        "WREN_NUM_NODES"@,
        dec(node_count),
    ).insert("WREN_TOTAL_RANKS"@, dec(ranks)).insert("WREN_HOSTFILE"@, path);
    if implementation(mpi) == "cray-mpich"@ {
        with_interface_variable(
            base.insert("MPICH_OFI_STARTUP_CONNECT"@, "1"@).insert("MPICH_OFI_NUM_NICS"@, "1"@),
            "MPICH_OFI_IFNAME"@,
            mpi,
        )
    } else if implementation(mpi) == "intel-mpi"@ {
        with_interface_variable(base, "I_MPI_FABRICS_LIST"@, mpi)
    } else {
        with_interface_variable(base, "UCX_NET_DEVICES"@, mpi)
    }
}

/// Appends a word to a list of words.
pub fn push_word(words: &mut Vec<String>, word: &str)
    ensures
        final(words).deep_view() == old(words).deep_view().push(word@),
{
    let ghost before = words.deep_view();
    words.push(word.to_owned());
    proof {
        assert(words.deep_view() =~= before.push(word@));
    }
}

/// Appends all of `more` to a list of words.
pub fn push_words(words: &mut Vec<String>, more: &Vec<String>)
    ensures
        final(words).deep_view() == old(words).deep_view() + more.deep_view(),
{
    let ghost before = words.deep_view();
    let ghost all = more.deep_view();
    let mut i: usize = 0;
    proof {
        assert(before + all.take(0) =~= before);
    }
    while i < more.len()
        invariant
            i <= more.len(),
            all == more.deep_view(),
            words.deep_view() == before + all.take(i as int),
        decreases more.len() - i,
    {
        push_word(words, more[i].as_str());
        proof {
            assert(before + all.take(i + 1) =~= (before + all.take(i as int)).push(
                all[i as int],
            ));
        }
        i += 1;
    }
    proof {
        assert(all.take(all.len() as int) =~= all);
    }
}

/// A list of its own with the same words.
pub fn copy_words(words: &Vec<String>) -> (r: Vec<String>)
    ensures
        r.deep_view() == words.deep_view(),
{
    let mut r: Vec<String> = Vec::new();
    push_words(&mut r, words);
    proof {
        assert(r.deep_view() =~= words.deep_view());
    }
    r
}

/// Gives a variable a value.
pub fn put(env: &mut StringMap<String>, key: &str, value: &str)
    ensures
        final(env)@ == old(env)@.insert(key@, value@),
{
    env.insert(key.to_owned(), value.to_owned());
}

/// Gives a variable a value unless it has one.
pub open spec fn or_else(env: Variables, key: Seq<char>, value: Seq<char>) -> Variables {
    if env.dom().contains(key) {
        env
    } else {
        env.insert(key, value)
    }
}

/// Gives a variable a value unless it has one.
pub fn put_absent(env: &mut StringMap<String>, key: &str, value: &str)
    ensures
        final(env)@ == or_else(old(env)@, key@, value@),
{
    if !env.contains_key(key) {
        put(env, key, value);
    }
}

/// Takes over all of `more`; its values win.
pub fn put_all(env: &mut StringMap<String>, more: &StringMap<String>)
    ensures
        final(env)@ == old(env)@.union_prefer_right(more@),
{
    let ghost before = env@;
    let n = more.len();
    let ghost keys = more.keys_seq();
    let mut i: usize = 0;
    while i < n
        invariant
            i <= n,
            n == keys.len(),
            keys == more.keys_seq(),
            more.entries_make_map(),
            forall|key: Seq<char>| #[trigger]
                env@.dom().contains(key) <==> before.dom().contains(key) || keys.take(
                    i as int,
                ).contains(key),
            forall|key: Seq<char>| #[trigger]
                env@.dom().contains(key) ==> env@[key] == (if keys.take(i as int).contains(key) {
                    more@[key]
                } else {
                    before[key]
                }),
        decreases n - i,
    {
        let ghost name = keys[i as int];
        put(env, more.key_at(i).as_str(), more.value_at(i).as_str());
        proof {
            assert(keys.take(i + 1) =~= keys.take(i as int).push(name));
            assert forall|key: Seq<char>| #[trigger]
                keys.take(i + 1).contains(key) <==> keys.take(i as int).contains(key) || key
                    == name by {
                lemma_push_contains(keys.take(i as int), name, key);
            }
        }
        i += 1;
    }
    proof {
        assert(keys.take(keys.len() as int) =~= keys);
        assert forall|key: Seq<char>| keys.contains(key) <==> more@.dom().contains(key) by {
            assert(keys.to_set().contains(key) <==> more@.dom().contains(key));
        }
        assert(env@ =~= before.union_prefer_right(more@));
    }
}

/// A hostfile from node names.
pub fn hostfile_text(nodes: &[String], tasks_per_node: u32) -> (r: String)
    ensures
        r@ == hostfile(nodes.deep_view(), tasks_per_node as nat),
{
    let ghost names = nodes.deep_view();
    let mut lines: Vec<String> = Vec::new();
    let mut i: usize = 0;
    while i < nodes.len()
        invariant
            i <= nodes@.len(),
            names == nodes.deep_view(),
            lines.len() == i,
            forall|k: int|
                0 <= k < i ==> #[trigger] lines[k]@ == host_line(names[k], tasks_per_node as nat),
        decreases nodes@.len() - i,
    {
        let mut line = nodes[i].clone();
        line.append(" slots=");
        line.append(decimal(tasks_per_node as u64).as_str());
        lines.push(line);
        i += 1;
    }
    proof {
        assert(lines.deep_view() =~= Seq::new(
            names.len(),
            |i: int| host_line(names[i], tasks_per_node as nat),
        ));
    }
    join(&lines, "\n")
}

fn implementation_name(mpi: &Option<MPISpec>) -> (r: &str)
    ensures
        r@ == implementation(*mpi),
{
    match mpi {
        Some(m) => m.implementation.as_str(),
        None => "openmpi",
    }
}

fn interface_name(mpi: &Option<MPISpec>) -> (r: Option<&String>)
    ensures
        r.deep_view() == interface(*mpi),
{
    match mpi {
        Some(m) => m.fabric_interface.as_ref(),
        None => None,
    }
}

fn base_words(ranks: u32, path: &str) -> (r: Vec<String>)
    ensures
        r.deep_view() == mpirun_base(ranks as nat, path@),
{
    let mut words: Vec<String> = Vec::new();
    push_word(&mut words, "mpirun");
    push_word(&mut words, "-np");
    push_word(&mut words, decimal(ranks as u64).as_str());
    push_word(&mut words, "--hostfile");
    push_word(&mut words, path);
    proof {
        assert(words.deep_view() =~= mpirun_base(ranks as nat, path@));
    }
    words
}

/// The `mpirun` prefix inside a container.
pub fn mpirun(ranks: u32, path: &str, mpi: &Option<MPISpec>) -> (r: Vec<String>)
    ensures
        r.deep_view() == mpirun_words(ranks as nat, path@, *mpi),
{
    let mut words = base_words(ranks, path);
    if str_eq(implementation_name(mpi), "openmpi") {
        push_word(&mut words, "--allow-run-as-root");
        let ghost base = words.deep_view();
        match interface_name(mpi) {
            Some(name) => {
                push_word(&mut words, "--mca");
                push_word(&mut words, "btl_tcp_if_include");
                push_word(&mut words, name.as_str());
                proof {
                    assert(words.deep_view() =~= (base + seq![
                        "--mca"@,
                        "btl_tcp_if_include"@,
                    ]).push(name@));
                }
            },
            None => {},
        }
    }
    words
}

/// `srun` for Cray MPICH on bare metal.
pub fn srun(nodes: u32, tasks: u32, path: &str, mpi: &Option<MPISpec>) -> (r: Vec<String>)
    ensures
        r.deep_view() == srun_words(nodes as nat, tasks as nat, path@, *mpi),
{
    let mut words: Vec<String> = Vec::new();
    push_word(&mut words, "srun");
    push_word(&mut words, "--nodes");
    push_word(&mut words, decimal(nodes as u64).as_str());
    push_word(&mut words, "--ntasks-per-node");
    push_word(&mut words, decimal(tasks as u64).as_str());
    push_word(&mut words, "--hostfile");
    push_word(&mut words, path);
    let ghost base = words.deep_view();
    proof {
        assert(base =~= seq![
            "srun"@,
            "--nodes"@,
            dec(nodes as nat),
            "--ntasks-per-node"@,
            dec(tasks as nat),
            "--hostfile"@,
            path@,
        ]);
    }
    match interface_name(mpi) {
        Some(name) => {
            push_word(&mut words, "--network");
            push_word(&mut words, name.as_str());
            proof {
                assert(words.deep_view() =~= (base + seq!["--network"@]).push(name@));
            }
        },
        None => {},
    }
    words
}

/// The launcher on bare metal.
pub fn bare_metal_launcher(
    nodes: u32,
    tasks: u32,
    path: &str,
    mpi: &Option<MPISpec>,
) -> (r: Vec<String>)
    requires
        implementation(*mpi) != "cray-mpich"@ ==> nodes * tasks <= u32::MAX,
    ensures
        r.deep_view() == bare_metal_words(nodes as nat, tasks as nat, path@, *mpi),
{
    let name = implementation_name(mpi);
    if str_eq(name, "cray-mpich") {
        return srun(nodes, tasks, path, mpi);
    }
    let ranks = nodes * tasks;
    if str_eq(name, "intel-mpi") {
        let mut words: Vec<String> = Vec::new();
        push_word(&mut words, "mpiexec.hydra");
        push_word(&mut words, "-np");
        push_word(&mut words, decimal(ranks as u64).as_str());
        push_word(&mut words, "-machinefile");
        push_word(&mut words, path);
        push_word(&mut words, "-ppn");
        push_word(&mut words, decimal(tasks as u64).as_str());
        let ghost base = words.deep_view();
        proof {
            assert(base =~= seq![
                "mpiexec.hydra"@,
                "-np"@,
                dec(nodes as nat * tasks as nat),
                "-machinefile"@,
                path@,
                "-ppn"@,
                dec(tasks as nat),
            ]);
        }
        match interface_name(mpi) {
            Some(iface) => {
                push_word(&mut words, "-iface");
                push_word(&mut words, iface.as_str());
                proof {
                    assert(words.deep_view() =~= (base + seq!["-iface"@]).push(iface@));
                }
            },
            None => {},
        }
        return words;
    }
    let mut words = base_words(ranks, path);
    let ghost base = words.deep_view();
    match interface_name(mpi) {
        Some(iface) => {
            push_word(&mut words, "--mca");
            push_word(&mut words, "btl_tcp_if_include");
            push_word(&mut words, iface.as_str());
            proof {
                assert(words.deep_view() =~= (base + seq!["--mca"@, "btl_tcp_if_include"@]).push(
                    iface@,
                ));
            }
        },
        None => {},
    }
    words
}

/// Environment of MPI on bare metal.
pub fn bare_metal_environment(
    job: &str,
    node_count: usize,
    ranks: u32,
    path: &str,
    mpi: &Option<MPISpec>,
) -> (r: StringMap<String>)
    ensures
        r@ == bare_metal_variables(job@, node_count as nat, ranks as nat, path@, *mpi),
{
    let mut env: StringMap<String> = StringMap::new();
    put(&mut env, "WREN_JOB_NAME", job);
    put(&mut env, "WREN_NUM_NODES", decimal(node_count as u64).as_str());
    put(&mut env, "WREN_TOTAL_RANKS", decimal(ranks as u64).as_str());
    put(&mut env, "WREN_HOSTFILE", path);
    let name = implementation_name(mpi);
    let key = if str_eq(name, "cray-mpich") {
        put(&mut env, "MPICH_OFI_STARTUP_CONNECT", "1");
        put(&mut env, "MPICH_OFI_NUM_NICS", "1");
        "MPICH_OFI_IFNAME"
    } else if str_eq(name, "intel-mpi") {
        "I_MPI_FABRICS_LIST"
    } else {
        "UCX_NET_DEVICES"
    };
    match interface_name(mpi) {
        Some(iface) => {
            put(&mut env, key, iface.as_str());
        },
        None => {},
    }
    env
}

/// The standard labels of what is created for a job, under the label domain `prefix`.
pub open spec fn labels_under(
    prefix: Seq<char>,
    manager: Seq<char>,
    job: Seq<char>,
    role: Seq<char>,
    rank: Option<u32>,
) -> Variables {
    let base = Map::<Seq<char>, Seq<char>>::empty().insert(
        "app.kubernetes.io/managed-by"@,
        manager,
    ).insert(prefix + "/job-name"@, job).insert(prefix + "/role"@, role);
    match rank {
        Some(r) => base.insert(prefix + "/rank"@, dec(r as nat)),
        None => base,
    }
}

fn put_under(labels: &mut StringMap<String>, prefix: &str, key: &str, value: &str)
    ensures
        final(labels)@ == old(labels)@.insert(prefix@ + key@, value@),
{
    let mut name = prefix.to_owned();
    name.append(key);
    labels.insert(name, value.to_owned());
}

/// The standard labels of what is created for a job.
pub fn standard_labels(
    prefix: &str,
    manager: &str,
    job: &str,
    role: &str,
    rank: Option<u32>,
) -> (r: StringMap<String>)
    ensures
        r@ == labels_under(prefix@, manager@, job@, role@, rank),
{
    let mut labels: StringMap<String> = StringMap::new();
    put(&mut labels, "app.kubernetes.io/managed-by", manager);
    put_under(&mut labels, prefix, "/job-name", job);
    put_under(&mut labels, prefix, "/role", role);
    match rank {
        Some(r) => {
            put_under(&mut labels, prefix, "/rank", decimal(r as u64).as_str());
        },
        None => {},
    }
    labels
}

/// A string followed by another.
pub fn concat(a: &str, b: &str) -> (r: String)
    ensures
        r@ == a@ + b@,
{
    let mut r = a.to_owned();
    r.append(b);
    r
}

/// Workers of different ranks have pods of different names.
pub proof fn law_worker_names_are_distinct(job: Seq<char>, a: nat, b: nat)
    requires
        a != b,
    ensures
        job + "-worker-"@ + dec(a) != job + "-worker-"@ + dec(b),
{
    let stem = job + "-worker-"@;
    if stem + dec(a) == stem + dec(b) {
        assert((stem + dec(a)).skip(stem.len() as int) =~= dec(a));
        assert((stem + dec(b)).skip(stem.len() as int) =~= dec(b));
        lemma_dec_injective(a, b);
    }
}

/// The launcher's pod bears the name of no worker's pod.
pub proof fn law_launcher_name_is_its_own(job: Seq<char>, rank: nat)
    ensures
        job + "-launcher"@ != job + "-worker-"@ + dec(rank),
{
    reveal_strlit("-launcher");
    reveal_strlit("-worker-");
    let at = job.len() as int + 1;
    let a = job + "-launcher"@;
    let b = job + "-worker-"@ + dec(rank);
    assert(a[at] == "-launcher"@[1]);
    assert(b[at] == (job + "-worker-"@)[at]);
    assert(b[at] == "-worker-"@[1]);
}

/// What is labelled for a job bears the name of the job and its role, and its rank
/// where it has one.
pub proof fn law_labels_name_the_job(
    prefix: Seq<char>,
    manager: Seq<char>,
    job: Seq<char>,
    role: Seq<char>,
    rank: Option<u32>,
)
    ensures
        ({
            let labels = labels_under(prefix, manager, job, role, rank);
            &&& labels.dom().contains(prefix + "/job-name"@)
            &&& labels[prefix + "/job-name"@] == job
            &&& labels.dom().contains(prefix + "/role"@)
            &&& labels[prefix + "/role"@] == role
            &&& rank is Some ==> labels.dom().contains(prefix + "/rank"@) && labels[prefix
                + "/rank"@] == dec(rank->0 as nat)
        }),
{
    reveal_strlit("/job-name");
    reveal_strlit("/role");
    reveal_strlit("/rank");
    let n = prefix.len() as int;
    let a = prefix + "/job-name"@;
    let b = prefix + "/role"@;
    let c = prefix + "/rank"@;
    assert(a.len() == n + 9 && b.len() == n + 5 && c.len() == n + 5);
    assert(b[n + 2] == 'o' && c[n + 2] == 'a') by {
        assert(b[n + 2] == "/role"@[2]);
        assert(c[n + 2] == "/rank"@[2]);
    }
}

/// On bare metal Open MPI is started as in a
/// container, but for the one word that allows it to run as root.
pub proof fn law_bare_metal_does_not_run_as_root(
    nodes: nat,
    tasks: nat,
    path: Seq<char>,
    mpi: Option<MPISpec>,
)
    requires
        implementation(mpi) == "openmpi"@,
    ensures
        bare_metal_words(nodes, tasks, path, mpi) == mpirun_words(nodes * tasks, path, mpi).remove(
            5,
        ),
        mpirun_words(nodes * tasks, path, mpi)[5] == "--allow-run-as-root"@,
{
    reveal_strlit("openmpi");
    reveal_strlit("cray-mpich");
    reveal_strlit("intel-mpi");
    assert("openmpi"@.len() == 7 && "cray-mpich"@.len() == 10 && "intel-mpi"@.len() == 9);
    assert(bare_metal_words(nodes, tasks, path, mpi) =~= mpirun_words(
        nodes * tasks,
        path,
        mpi,
    ).remove(5));
}

} // verus!
