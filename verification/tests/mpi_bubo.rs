//! MPI bootstrap of MPI jobs.

use wren::bubo::mpi::{
    generate_hostfile, headless_service_name, hostfile_configmap_name, job_labels,
    launcher_pod_name, mpirun_args, ssh_secret_name, total_ranks, worker_pod_name,
};
use wren::model::crd::{MPIJobSpec, MPISpec};
use wren::model::types::ExecutionBackendType;
use wren::scheduler::gang::Placement;
use wren::scheduler::topology::PlacementScore;
use wren::string_map::StringMap;

fn at<'a>(map: &'a StringMap<String>, key: &str) -> &'a str {
    map.get(key).unwrap()
}

fn make_placement(nodes: &[&str]) -> Placement {
    Placement {
        nodes: nodes.iter().map(|s| s.to_string()).collect(),
        score: PlacementScore { points: 1, out_of: 1 },
    }
}

fn make_spec(nodes: u32, tasks_per_node: u32) -> MPIJobSpec {
    MPIJobSpec {
        queue: "default".to_string(),
        priority: 50,
        walltime: None,
        nodes,
        tasks_per_node,
        backend: ExecutionBackendType::Container,
        container: None,
        reaper: None,
        mpi: Some(MPISpec {
            implementation: "openmpi".to_string(),
            ssh_auth: true,
            fabric_interface: None,
        }),
        topology: None,
        dependencies: vec![],
    }
}

#[test]
fn test_generate_hostfile() {
    let placement = make_placement(&["node-0", "node-1", "node-2"]);
    let hostfile = generate_hostfile(&placement, 4);
    assert_eq!(
        hostfile,
        "node-0 slots=4\nnode-1 slots=4\nnode-2 slots=4"
    );
}

#[test]
fn test_total_ranks() {
    let spec = make_spec(4, 8);
    assert_eq!(total_ranks(&spec), 32);
}

#[test]
fn test_mpirun_args_openmpi() {
    let spec = make_spec(2, 4);
    let args = mpirun_args(&spec, "/etc/bubo/hostfile");
    assert!(args.contains(&"mpirun".to_string()));
    assert!(args.contains(&"8".to_string())); // np = 2*4
    assert!(args.contains(&"--hostfile".to_string()));
    assert!(args.contains(&"--allow-run-as-root".to_string()));
}

#[test]
fn test_mpirun_args_with_fabric_interface() {
    let mut spec = make_spec(2, 4);
    spec.mpi = Some(MPISpec {
        implementation: "openmpi".to_string(),
        ssh_auth: true,
        fabric_interface: Some("hsn0".to_string()),
    });
    let args = mpirun_args(&spec, "/etc/bubo/hostfile");
    assert!(args.contains(&"btl_tcp_if_include".to_string()));
    assert!(args.contains(&"hsn0".to_string()));
}

#[test]
fn test_job_labels() {
    let labels = job_labels("my-sim", "worker", Some(3));
    assert_eq!(at(&labels, "bubo.io/job-name"), "my-sim");
    assert_eq!(at(&labels, "bubo.io/role"), "worker");
    assert_eq!(at(&labels, "bubo.io/rank"), "3");
}

#[test]
fn test_naming_conventions() {
    assert_eq!(headless_service_name("sim"), "sim-workers");
    assert_eq!(hostfile_configmap_name("sim"), "sim-hostfile");
    assert_eq!(ssh_secret_name("sim"), "sim-ssh");
    assert_eq!(worker_pod_name("sim", 0), "sim-worker-0");
    assert_eq!(launcher_pod_name("sim"), "sim-launcher");
}
