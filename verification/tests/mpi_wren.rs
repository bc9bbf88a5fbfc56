//! MPI bootstrap of Wren jobs.

use wren::model::crd::MPISpec;
use wren::model::types::ExecutionBackendType;
use wren::scheduler::gang::Placement;
use wren::scheduler::topology::PlacementScore;
use wren::string_map::StringMap;
use wren::wren::crd::WrenJobSpec;
use wren::wren::mpi::{
    bare_metal_env_vars, bare_metal_mpirun_args, generate_bare_metal_hostfile, generate_hostfile,
    headless_service_name, hostfile_configmap_name, job_labels, launcher_pod_name, mpirun_args,
    srun_args, ssh_secret_name, total_ranks, worker_pod_name,
};

fn at<'a>(map: &'a StringMap<String>, key: &str) -> &'a str {
    map.get(key).unwrap()
}

fn make_placement(nodes: &[&str]) -> Placement {
    Placement {
        nodes: nodes.iter().map(|s| s.to_string()).collect(),
        score: PlacementScore { points: 1, out_of: 1 },
    }
}

fn make_spec(nodes: u32, tasks_per_node: u32) -> WrenJobSpec {
    WrenJobSpec {
        queue: "default".to_string(),
        priority: 50,
        walltime: None,
        nodes,
        tasks_per_node,
        backend: ExecutionBackendType::Container,
        container: None,
        reaper: None,
        mpi: Some(MPISpec {
            implementation: "openmpi".to_string(),
            ssh_auth: true,
            fabric_interface: None,
        }),
        topology: None,
        dependencies: vec![],
        project: None,
    }
}

#[test]
fn mpi_test_generate_hostfile() {
    let placement = make_placement(&["node-0", "node-1", "node-2"]);
    let hostfile = generate_hostfile(&placement, 4);
    assert_eq!(
        hostfile,
        "node-0 slots=4\nnode-1 slots=4\nnode-2 slots=4"
    );
}

#[test]
fn mpi_test_total_ranks() {
    let spec = make_spec(4, 8);
    assert_eq!(total_ranks(&spec), 32);
}

#[test]
fn mpi_test_mpirun_args_openmpi() {
    let spec = make_spec(2, 4);
    let args = mpirun_args(&spec, "/etc/wren/hostfile");
    assert!(args.contains(&"mpirun".to_string()));
    assert!(args.contains(&"8".to_string())); // np = 2*4
    assert!(args.contains(&"--hostfile".to_string()));
    assert!(args.contains(&"--allow-run-as-root".to_string()));
}

#[test]
fn mpi_test_mpirun_args_with_fabric_interface() {
    let mut spec = make_spec(2, 4);
    spec.mpi = Some(MPISpec {
        implementation: "openmpi".to_string(),
        ssh_auth: true,
        fabric_interface: Some("hsn0".to_string()),
    });
    let args = mpirun_args(&spec, "/etc/wren/hostfile");
    assert!(args.contains(&"btl_tcp_if_include".to_string()));
    assert!(args.contains(&"hsn0".to_string()));
}

#[test]
fn mpi_test_job_labels() {
    let labels = job_labels("my-sim", "worker", Some(3));
    assert_eq!(at(&labels, "wren.io/job-name"), "my-sim");
    assert_eq!(at(&labels, "wren.io/role"), "worker");
    assert_eq!(at(&labels, "wren.io/rank"), "3");
}

#[test]
fn mpi_test_naming_conventions() {
    assert_eq!(headless_service_name("sim"), "sim-workers");
    assert_eq!(hostfile_configmap_name("sim"), "sim-hostfile");
    assert_eq!(ssh_secret_name("sim"), "sim-ssh");
    assert_eq!(worker_pod_name("sim", 0), "sim-worker-0");
    assert_eq!(launcher_pod_name("sim"), "sim-launcher");
}

// --- bare-metal helpers ---

fn make_nodes(names: &[&str]) -> Vec<String> {
    names.iter().map(|s| s.to_string()).collect()
}

fn make_cray_spec(nodes: u32, tasks_per_node: u32, iface: Option<&str>) -> WrenJobSpec {
    WrenJobSpec {
        queue: "default".to_string(),
        priority: 50,
        walltime: None,
        nodes,
        tasks_per_node,
        backend: ExecutionBackendType::Reaper,
        container: None,
        reaper: None,
        mpi: Some(MPISpec {
            implementation: "cray-mpich".to_string(),
            ssh_auth: false,
            fabric_interface: iface.map(|s| s.to_string()),
        }),
        topology: None,
        dependencies: vec![],
        project: None,
    }
}

fn make_intel_spec(nodes: u32, tasks_per_node: u32, iface: Option<&str>) -> WrenJobSpec {
    WrenJobSpec {
        queue: "default".to_string(),
        priority: 50,
        walltime: None,
        nodes,
        tasks_per_node,
        backend: ExecutionBackendType::Reaper,
        container: None,
        reaper: None,
        mpi: Some(MPISpec {
            implementation: "intel-mpi".to_string(),
            ssh_auth: false,
            fabric_interface: iface.map(|s| s.to_string()),
        }),
        topology: None,
        dependencies: vec![],
        project: None,
    }
}

#[test]
fn test_generate_bare_metal_hostfile() {
    let nodes = make_nodes(&["compute-01", "compute-02", "compute-03"]);
    let hostfile = generate_bare_metal_hostfile(&nodes, 4);
    assert_eq!(
        hostfile,
        "compute-01 slots=4\ncompute-02 slots=4\ncompute-03 slots=4"
    );
}

#[test]
fn test_generate_bare_metal_hostfile_single_slot() {
    let nodes = make_nodes(&["node-a"]);
    let hostfile = generate_bare_metal_hostfile(&nodes, 1);
    assert_eq!(hostfile, "node-a slots=1");
}

#[test]
fn test_bare_metal_mpirun_args_cray_mpich() {
    let spec = make_cray_spec(2, 4, None);
    let args = bare_metal_mpirun_args(&spec, "/etc/wren/hostfile");
    // cray-mpich delegates to srun
    assert_eq!(args[0], "srun");
    assert!(args.contains(&"--nodes".to_string()));
    assert!(args.contains(&"2".to_string()));
    assert!(args.contains(&"--ntasks-per-node".to_string()));
    assert!(args.contains(&"4".to_string()));
    assert!(args.contains(&"--hostfile".to_string()));
    assert!(args.contains(&"/etc/wren/hostfile".to_string()));
    // no --allow-run-as-root for bare-metal
    assert!(!args.contains(&"--allow-run-as-root".to_string()));
}

#[test]
fn test_bare_metal_mpirun_args_openmpi_no_allow_run_as_root() {
    let spec = make_spec(2, 4);
    let args = bare_metal_mpirun_args(&spec, "/etc/wren/hostfile");
    assert_eq!(args[0], "mpirun");
    assert!(args.contains(&"8".to_string())); // np = 2*4
    assert!(!args.contains(&"--allow-run-as-root".to_string()));
}

#[test]
fn test_bare_metal_mpirun_args_openmpi_with_fabric() {
    let mut spec = make_spec(2, 4);
    spec.mpi = Some(MPISpec {
        implementation: "openmpi".to_string(),
        ssh_auth: false,
        fabric_interface: Some("hsn0".to_string()),
    });
    let args = bare_metal_mpirun_args(&spec, "/etc/wren/hostfile");
    assert!(args.contains(&"btl_tcp_if_include".to_string()));
    assert!(args.contains(&"hsn0".to_string()));
}

#[test]
fn test_bare_metal_mpirun_args_intel_mpi() {
    let spec = make_intel_spec(4, 2, None);
    let args = bare_metal_mpirun_args(&spec, "/etc/wren/hostfile");
    assert_eq!(args[0], "mpiexec.hydra");
    assert!(args.contains(&"-np".to_string()));
    assert!(args.contains(&"8".to_string())); // 4*2
    assert!(args.contains(&"-machinefile".to_string()));
    assert!(args.contains(&"-ppn".to_string()));
    assert!(args.contains(&"2".to_string()));
}

#[test]
fn test_bare_metal_mpirun_args_intel_mpi_with_fabric() {
    let spec = make_intel_spec(4, 2, Some("hsn0"));
    let args = bare_metal_mpirun_args(&spec, "/etc/wren/hostfile");
    assert!(args.contains(&"-iface".to_string()));
    assert!(args.contains(&"hsn0".to_string()));
}

#[test]
fn test_bare_metal_env_vars_common_fields() {
    let spec = make_spec(2, 4);
    let nodes = make_nodes(&["n0", "n1"]);
    let env = bare_metal_env_vars("my-job", &spec, &nodes, "/etc/wren/hostfile");
    assert_eq!(at(&env, "WREN_JOB_NAME"), "my-job");
    assert_eq!(at(&env, "WREN_NUM_NODES"), "2");
    assert_eq!(at(&env, "WREN_TOTAL_RANKS"), "8");
    assert_eq!(at(&env, "WREN_HOSTFILE"), "/etc/wren/hostfile");
}

#[test]
fn test_bare_metal_env_vars_cray_mpich() {
    let spec = make_cray_spec(4, 8, None);
    let nodes = make_nodes(&["n0", "n1", "n2", "n3"]);
    let env = bare_metal_env_vars("sim", &spec, &nodes, "/hostfile");
    assert_eq!(at(&env, "MPICH_OFI_STARTUP_CONNECT"), "1");
    assert_eq!(at(&env, "MPICH_OFI_NUM_NICS"), "1");
    assert!(!env.contains_key("MPICH_OFI_IFNAME"));
}

#[test]
fn test_bare_metal_env_vars_cray_mpich_with_fabric() {
    let spec = make_cray_spec(4, 8, Some("hsn0"));
    let nodes = make_nodes(&["n0", "n1", "n2", "n3"]);
    let env = bare_metal_env_vars("sim", &spec, &nodes, "/hostfile");
    assert_eq!(at(&env, "MPICH_OFI_IFNAME"), "hsn0");
}

#[test]
fn test_bare_metal_env_vars_intel_mpi_with_fabric() {
    let spec = make_intel_spec(2, 4, Some("hsn0"));
    let nodes = make_nodes(&["n0", "n1"]);
    let env = bare_metal_env_vars("sim", &spec, &nodes, "/hostfile");
    assert_eq!(at(&env, "I_MPI_FABRICS_LIST"), "hsn0");
    assert!(!env.contains_key("UCX_NET_DEVICES"));
}

#[test]
fn test_bare_metal_env_vars_openmpi_with_fabric() {
    let mut spec = make_spec(2, 4);
    spec.mpi = Some(MPISpec {
        implementation: "openmpi".to_string(),
        ssh_auth: false,
        fabric_interface: Some("hsn0".to_string()),
    });
    let nodes = make_nodes(&["n0", "n1"]);
    let env = bare_metal_env_vars("sim", &spec, &nodes, "/hostfile");
    assert_eq!(at(&env, "UCX_NET_DEVICES"), "hsn0");
    assert!(!env.contains_key("I_MPI_FABRICS_LIST"));
}

#[test]
fn test_srun_args_basic() {
    let spec = make_cray_spec(4, 8, None);
    let args = srun_args(&spec, "/etc/wren/hostfile");
    assert_eq!(args[0], "srun");
    assert!(args.contains(&"--nodes".to_string()));
    assert!(args.contains(&"4".to_string()));
    assert!(args.contains(&"--ntasks-per-node".to_string()));
    assert!(args.contains(&"8".to_string()));
    assert!(args.contains(&"--hostfile".to_string()));
    assert!(args.contains(&"/etc/wren/hostfile".to_string()));
    assert!(!args.contains(&"--network".to_string()));
}

#[test]
fn test_srun_args_with_fabric_interface() {
    let spec = make_cray_spec(4, 8, Some("hsn0"));
    let args = srun_args(&spec, "/etc/wren/hostfile");
    assert!(args.contains(&"--network".to_string()));
    assert!(args.contains(&"hsn0".to_string()));
}

#[test]
fn command_lines_are_exact() {
    let mut spec = make_spec(2, 4);
    spec.mpi.as_mut().unwrap().fabric_interface = Some("hsn0".to_string());
    assert_eq!(
        mpirun_args(&spec, "/h").join(" "),
        "mpirun -np 8 --hostfile /h --allow-run-as-root --mca btl_tcp_if_include hsn0"
    );
    assert_eq!(
        bare_metal_mpirun_args(&spec, "/h").join(" "),
        "mpirun -np 8 --hostfile /h --mca btl_tcp_if_include hsn0"
    );
    assert_eq!(
        srun_args(&spec, "/h").join(" "),
        "srun --nodes 2 --ntasks-per-node 4 --hostfile /h --network hsn0"
    );
    spec.mpi.as_mut().unwrap().implementation = "intel-mpi".to_string();
    assert_eq!(
        bare_metal_mpirun_args(&spec, "/h").join(" "),
        "mpiexec.hydra -np 8 -machinefile /h -ppn 4 -iface hsn0"
    );
    assert_eq!(mpirun_args(&spec, "/h").join(" "), "mpirun -np 8 --hostfile /h");
    spec.mpi.as_mut().unwrap().implementation = "cray-mpich".to_string();
    assert_eq!(bare_metal_mpirun_args(&spec, "/h"), srun_args(&spec, "/h"));
    spec.mpi = None;
    assert_eq!(
        mpirun_args(&spec, "/h").join(" "),
        "mpirun -np 8 --hostfile /h --allow-run-as-root"
    );
}

#[test]
fn worker_names_differ_from_each_other_and_the_launcher() {
    let names: Vec<String> = (0..12).map(|rank| worker_pod_name("sim", rank)).collect();
    for (i, name) in names.iter().enumerate() {
        assert_ne!(*name, launcher_pod_name("sim"));
        for other in &names[i + 1..] {
            assert_ne!(name, other);
        }
    }
    assert_eq!(names[11], "sim-worker-11");
}
