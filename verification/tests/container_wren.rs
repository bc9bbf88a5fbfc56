//! Wren jobs in containers.

use wren::controller::manifest::{LaunchPlan, LaunchStep, Pod, PodReport};
use wren::model::backend::BackendJobStatus;
use wren::model::crd::{ContainerSpec, EnvVar, MPISpec};
use wren::model::error::WrenError;
use wren::model::types::ExecutionBackendType;
use wren::scheduler::gang::Placement;
use wren::scheduler::topology::PlacementScore;
use wren::string_map::StringMap;
use wren::wren::container::{
    build_headless_service, build_hostfile_configmap, build_launcher_pod, build_worker_pod,
    interpret_pod_status, needs_mpi_launcher, plan_launch, pod_selector,
};
use wren::wren::crd::{UserIdentity, WrenJobSpec};

fn at<'a>(map: &'a StringMap<String>, key: &str) -> &'a str {
    map.get(key).unwrap()
}

fn make_spec_no_mpi() -> WrenJobSpec {
    WrenJobSpec {
        queue: "default".to_string(),
        priority: 50,
        walltime: None,
        nodes: 2,
        tasks_per_node: 1,
        backend: ExecutionBackendType::Container,
        container: Some(ContainerSpec {
            image: "busybox".to_string(),
            command: vec!["sleep".to_string(), "infinity".to_string()],
            args: vec![],
            resources: None,
            host_network: false,
            volume_mounts: vec![],
            env: vec![],
        }),
        reaper: None,
        mpi: None,
        topology: None,
        dependencies: vec![],
        project: None,
    }
}

fn make_spec_with_mpi() -> WrenJobSpec {
    WrenJobSpec {
        queue: "default".to_string(),
        priority: 50,
        walltime: None,
        nodes: 4,
        tasks_per_node: 8,
        backend: ExecutionBackendType::Container,
        container: Some(ContainerSpec {
            image: "openmpi:latest".to_string(),
            command: vec![],
            args: vec![],
            resources: None,
            host_network: true,
            volume_mounts: vec![],
            env: vec![],
        }),
        reaper: None,
        mpi: Some(MPISpec {
            implementation: "openmpi".to_string(),
            ssh_auth: true,
            fabric_interface: None,
        }),
        topology: None,
        dependencies: vec![],
        project: None,
    }
}

fn make_placement(nodes: &[&str]) -> Placement {
    Placement {
        nodes: nodes.iter().map(|s| s.to_string()).collect(),
        score: PlacementScore { points: 1, out_of: 1 },
    }
}

fn make_pod(role: &str, rank: Option<u32>, phase: &str) -> PodReport {
    let mut labels = StringMap::new();
    labels.insert("wren.giar.dev/role".to_string(), role.to_string());
    labels.insert("wren.giar.dev/job-name".to_string(), "test-job".to_string());
    if let Some(r) = rank {
        labels.insert("wren.giar.dev/rank".to_string(), r.to_string());
    }
    PodReport { labels: Some(labels), phase: Some(phase.to_string()), message: None }
}

// --- needs_mpi_launcher tests ---

#[test]
fn test_needs_mpi_launcher_without_mpi_spec_returns_false() {
    let spec = make_spec_no_mpi();
    assert!(!needs_mpi_launcher(&spec));
}

#[test]
fn test_needs_mpi_launcher_with_mpi_spec_returns_true() {
    let spec = make_spec_with_mpi();
    assert!(needs_mpi_launcher(&spec));
}

#[test]
fn test_needs_mpi_launcher_mpi_none_is_false() {
    let mut spec = make_spec_with_mpi();
    spec.mpi = None;
    assert!(!needs_mpi_launcher(&spec));
}

#[test]
fn test_needs_mpi_launcher_cray_mpich_is_true() {
    let mut spec = make_spec_with_mpi();
    spec.mpi = Some(MPISpec {
        implementation: "cray-mpich".to_string(),
        ssh_auth: false,
        fabric_interface: Some("hsn0".to_string()),
    });
    assert!(needs_mpi_launcher(&spec));
}

// --- build_headless_service tests ---

#[test]
fn test_build_headless_service_name_and_namespace() {
    let svc = build_headless_service("my-job", "my-ns");
    assert_eq!(svc.metadata.name, "my-job-workers");
    assert_eq!(svc.metadata.namespace, "my-ns");
}

#[test]
fn test_build_headless_service_cluster_ip_none() {
    let svc = build_headless_service("my-job", "default");
    assert_eq!(svc.cluster_ip, "None");
}

#[test]
fn test_build_headless_service_labels() {
    let svc = build_headless_service("my-job", "default");
    let labels = svc.metadata.labels;
    assert_eq!(at(&labels, "wren.giar.dev/job-name"), "my-job");
    assert_eq!(at(&labels, "wren.giar.dev/role"), "worker");
    assert_eq!(at(&labels, "app.kubernetes.io/managed-by"), "wren");
}

#[test]
fn test_build_headless_service_ports() {
    let svc = build_headless_service("my-job", "default");
    let ports = svc.ports;
    assert_eq!(ports.len(), 1);
    assert_eq!(ports[0].port, 22);
    assert_eq!(ports[0].name, "ssh");
}

// --- build_hostfile_configmap tests ---

#[test]
fn test_build_hostfile_configmap_single_node() {
    let placement = make_placement(&["node-0"]);
    let cm = build_hostfile_configmap("my-job", "default", &placement, 1);
    let data = cm.data;
    assert_eq!(at(&data, "hostfile"), "node-0 slots=1");
}

#[test]
fn test_build_hostfile_configmap_multi_node() {
    let placement = make_placement(&["node-0", "node-1", "node-2", "node-3"]);
    let cm = build_hostfile_configmap("sim", "hpc", &placement, 8);
    let data = cm.data;
    assert_eq!(
        at(&data, "hostfile"),
        "node-0 slots=8\nnode-1 slots=8\nnode-2 slots=8\nnode-3 slots=8"
    );
}

#[test]
fn test_build_hostfile_configmap_labels() {
    let placement = make_placement(&["node-0"]);
    let cm = build_hostfile_configmap("my-job", "default", &placement, 1);
    let labels = cm.metadata.labels;
    assert_eq!(at(&labels, "wren.giar.dev/job-name"), "my-job");
    assert_eq!(at(&labels, "wren.giar.dev/role"), "config");
    assert_eq!(at(&labels, "app.kubernetes.io/managed-by"), "wren");
}

#[test]
fn test_build_hostfile_configmap_name() {
    let placement = make_placement(&["node-0"]);
    let cm = build_hostfile_configmap("my-job", "default", &placement, 1);
    assert_eq!(cm.metadata.name, "my-job-hostfile");
}

// --- build_worker_pod tests ---

#[test]
fn test_build_worker_pod_name_and_labels() {
    let spec = make_spec_no_mpi();
    let pod = build_worker_pod("my-job", "default", &spec, "node-0", 0, None).unwrap();
    assert_eq!(pod.metadata.name, "my-job-worker-0");
    let labels = pod.metadata.labels;
    assert_eq!(at(&labels, "wren.giar.dev/job-name"), "my-job");
    assert_eq!(at(&labels, "wren.giar.dev/role"), "worker");
    assert_eq!(at(&labels, "wren.giar.dev/rank"), "0");
}

#[test]
fn test_build_worker_pod_node_affinity() {
    let spec = make_spec_no_mpi();
    let pod = build_worker_pod("my-job", "default", &spec, "node-42", 0, None).unwrap();
    let pod_spec = pod;
    assert_eq!(pod_spec.node_name.as_deref(), Some("node-42"));
}

#[test]
fn test_build_worker_pod_env_vars() {
    let spec = make_spec_no_mpi();
    let pod = build_worker_pod("my-job", "default", &spec, "node-0", 3, None).unwrap();
    let pod_spec = pod;
    let env = &pod_spec.container.env;
    let rank_var = env.iter().find(|e| e.name == "WREN_RANK").unwrap();
    assert_eq!(rank_var.value, "3");
    let job_var = env.iter().find(|e| e.name == "WREN_JOB_NAME").unwrap();
    assert_eq!(job_var.value, "my-job");
}

#[test]
fn test_build_worker_pod_user_env_vars() {
    let mut spec = make_spec_no_mpi();
    spec.container = Some(ContainerSpec {
        image: "busybox".to_string(),
        command: vec![],
        args: vec![],
        resources: None,
        host_network: false,
        volume_mounts: vec![],
        env: vec![EnvVar {
            name: "MY_VAR".to_string(),
            value: "hello".to_string(),
        }],
    });
    let pod = build_worker_pod("my-job", "default", &spec, "node-0", 0, None).unwrap();
    let pod_spec = pod;
    let env = &pod_spec.container.env;
    let user_var = env.iter().find(|e| e.name == "MY_VAR").unwrap();
    assert_eq!(user_var.value, "hello");
}

#[test]
fn test_build_worker_pod_host_network_true() {
    let mut spec = make_spec_no_mpi();
    spec.container.as_mut().unwrap().host_network = true;
    let pod = build_worker_pod("my-job", "default", &spec, "node-0", 0, None).unwrap();
    let pod_spec = pod;
    assert_eq!(pod_spec.host_network, Some(true));
}

#[test]
fn test_build_worker_pod_host_network_false() {
    let spec = make_spec_no_mpi(); // host_network = false
    let pod = build_worker_pod("my-job", "default", &spec, "node-0", 0, None).unwrap();
    let pod_spec = pod;
    assert_eq!(pod_spec.host_network, None);
}

#[test]
fn test_build_worker_pod_no_container_spec() {
    let mut spec = make_spec_no_mpi();
    spec.container = None;
    let result = build_worker_pod("my-job", "default", &spec, "node-0", 0, None);
    assert!(matches!(result, Err(WrenError::ValidationError { .. })));
}

#[test]
fn test_build_worker_pod_empty_command() {
    let mut spec = make_spec_no_mpi();
    spec.container.as_mut().unwrap().command = vec![];
    let pod = build_worker_pod("my-job", "default", &spec, "node-0", 0, None).unwrap();
    let pod_spec = pod;
    assert_eq!(pod_spec.container.command, None);
}

#[test]
fn test_build_worker_pod_with_command() {
    let spec = make_spec_no_mpi(); // command = ["sleep", "infinity"]
    let pod = build_worker_pod("my-job", "default", &spec, "node-0", 0, None).unwrap();
    let pod_spec = pod;
    assert_eq!(
        pod_spec.container.command,
        Some(vec!["sleep".to_string(), "infinity".to_string()])
    );
}

#[test]
fn test_build_worker_pod_restart_policy() {
    let spec = make_spec_no_mpi();
    let pod = build_worker_pod("my-job", "default", &spec, "node-0", 0, None).unwrap();
    let pod_spec = pod;
    assert_eq!(pod_spec.restart_policy, "Never");
}

#[test]
fn test_build_worker_pod_subdomain() {
    let spec = make_spec_no_mpi();
    let pod = build_worker_pod("my-job", "default", &spec, "node-0", 0, None).unwrap();
    let pod_spec = pod;
    assert_eq!(pod_spec.subdomain.as_deref(), Some("my-job-workers"));
}

// --- build_launcher_pod tests ---

#[test]
fn test_build_launcher_pod_name_and_labels() {
    let spec = make_spec_with_mpi();
    let placement = make_placement(&["node-0", "node-1"]);
    let pod = build_launcher_pod("my-job", "default", &spec, &placement, None).unwrap();
    assert_eq!(pod.metadata.name, "my-job-launcher");
    let labels = pod.metadata.labels;
    assert_eq!(at(&labels, "wren.giar.dev/role"), "launcher");
    assert_eq!(at(&labels, "wren.giar.dev/job-name"), "my-job");
    assert!(!labels.contains_key("wren.giar.dev/rank"));
}

#[test]
fn test_build_launcher_pod_mpirun_command() {
    let spec = make_spec_with_mpi();
    let placement = make_placement(&["node-0", "node-1"]);
    let pod = build_launcher_pod("my-job", "default", &spec, &placement, None).unwrap();
    let pod_spec = pod;
    let cmd = pod_spec.container.command.as_ref().unwrap();
    assert_eq!(cmd[0], "mpirun");
    assert!(cmd.contains(&"-np".to_string()));
    assert!(cmd.contains(&"--hostfile".to_string()));
}

#[test]
fn test_build_launcher_pod_env_vars() {
    let spec = make_spec_with_mpi();
    let placement = make_placement(&["node-0", "node-1", "node-2", "node-3"]);
    let pod = build_launcher_pod("my-job", "default", &spec, &placement, None).unwrap();
    let pod_spec = pod;
    let env = &pod_spec.container.env;
    let job_name_var = env.iter().find(|e| e.name == "WREN_JOB_NAME").unwrap();
    assert_eq!(job_name_var.value, "my-job");
    let num_nodes_var = env.iter().find(|e| e.name == "WREN_NUM_NODES").unwrap();
    assert_eq!(num_nodes_var.value, "4");
    let total_ranks_var = env.iter().find(|e| e.name == "WREN_TOTAL_RANKS").unwrap();
    assert_eq!(total_ranks_var.value, "32"); // 4 nodes * 8 tasks_per_node
}

#[test]
fn test_build_launcher_pod_node_placement() {
    let spec = make_spec_with_mpi();
    let placement = make_placement(&["first-node", "second-node"]);
    let pod = build_launcher_pod("my-job", "default", &spec, &placement, None).unwrap();
    let pod_spec = pod;
    assert_eq!(pod_spec.node_name.as_deref(), Some("first-node"));
}

#[test]
fn test_build_launcher_pod_no_container_spec() {
    let mut spec = make_spec_with_mpi();
    spec.container = None;
    let placement = make_placement(&["node-0"]);
    let result = build_launcher_pod("my-job", "default", &spec, &placement, None);
    assert!(matches!(result, Err(WrenError::ValidationError { .. })));
}

#[test]
fn test_build_launcher_pod_user_command_appended() {
    let mut spec = make_spec_with_mpi();
    spec.container.as_mut().unwrap().command = vec!["./my_app".to_string()];
    spec.container.as_mut().unwrap().args = vec!["--input".to_string(), "data.h5".to_string()];
    let placement = make_placement(&["node-0"]);
    let pod = build_launcher_pod("my-job", "default", &spec, &placement, None).unwrap();
    let pod_spec = pod;
    let cmd = pod_spec.container.command.as_ref().unwrap();
    // mpirun args come first, then user command/args
    assert_eq!(cmd[0], "mpirun");
    assert!(cmd.contains(&"./my_app".to_string()));
    assert!(cmd.contains(&"--input".to_string()));
    assert!(cmd.contains(&"data.h5".to_string()));
    // user command comes after mpirun flags
    let mpirun_idx = cmd.iter().position(|s| s == "mpirun").unwrap();
    let app_idx = cmd.iter().position(|s| s == "./my_app").unwrap();
    assert!(app_idx > mpirun_idx);
}

// --- interpret_pod_status tests ---

#[test]
fn test_interpret_pod_status_empty_pods() {
    assert_eq!(interpret_pod_status(&[]), BackendJobStatus::NotFound);
}

#[test]
fn test_interpret_pod_status_launcher_succeeded() {
    let pods = vec![
        make_pod("worker", Some(0), "Running"),
        make_pod("launcher", None, "Succeeded"),
    ];
    assert_eq!(interpret_pod_status(&pods), BackendJobStatus::Succeeded);
}

#[test]
fn test_interpret_pod_status_launcher_failed() {
    let pods = vec![
        make_pod("worker", Some(0), "Running"),
        make_pod("launcher", None, "Failed"),
    ];
    let status = interpret_pod_status(&pods);
    assert!(matches!(status, BackendJobStatus::Failed { .. }));
    if let BackendJobStatus::Failed { message } = status {
        assert!(!message.is_empty());
    }
}

#[test]
fn test_interpret_pod_status_launcher_running_all_workers_ready() {
    let pods = vec![
        make_pod("worker", Some(0), "Running"),
        make_pod("worker", Some(1), "Running"),
        make_pod("launcher", None, "Running"),
    ];
    assert_eq!(interpret_pod_status(&pods), BackendJobStatus::Running);
}

#[test]
fn test_interpret_pod_status_launcher_running_some_workers_pending() {
    let pods = vec![
        make_pod("worker", Some(0), "Running"),
        make_pod("worker", Some(1), "Pending"),
        make_pod("launcher", None, "Running"),
    ];
    let status = interpret_pod_status(&pods);
    assert_eq!(status, BackendJobStatus::Launching { ready: 1, total: 2 });
}

#[test]
fn test_interpret_pod_status_no_launcher_all_succeeded() {
    let pods = vec![
        make_pod("worker", Some(0), "Succeeded"),
        make_pod("worker", Some(1), "Succeeded"),
    ];
    assert_eq!(interpret_pod_status(&pods), BackendJobStatus::Succeeded);
}

#[test]
fn test_interpret_pod_status_no_launcher_some_failed() {
    let pods = vec![
        make_pod("worker", Some(0), "Succeeded"),
        make_pod("worker", Some(1), "Failed"),
    ];
    let status = interpret_pod_status(&pods);
    assert!(matches!(status, BackendJobStatus::Failed { .. }));
}

#[test]
fn test_interpret_pod_status_no_launcher_some_running() {
    let pods = vec![
        make_pod("worker", Some(0), "Running"),
        make_pod("worker", Some(1), "Pending"),
    ];
    assert_eq!(interpret_pod_status(&pods), BackendJobStatus::Running);
}

#[test]
fn test_interpret_pod_status_no_launcher_all_pending() {
    let pods = vec![
        make_pod("worker", Some(0), "Pending"),
        make_pod("worker", Some(1), "Pending"),
    ];
    assert_eq!(
        interpret_pod_status(&pods),
        BackendJobStatus::Launching { ready: 0, total: 2 }
    );
}

// --- user identity tests ---

fn make_user_identity() -> UserIdentity {
    UserIdentity {
        username: "miguel".to_string(),
        uid: 1001,
        gid: 1001,
        supplemental_groups: vec![1001, 5000],
        home_dir: Some("/home/miguel".to_string()),
        default_project: Some("climate-sim".to_string()),
    }
}

#[test]
fn test_build_worker_pod_with_user_identity_sets_security_context() {
    let spec = make_spec_no_mpi();
    let user = make_user_identity();
    let pod = build_worker_pod("my-job", "default", &spec, "node-0", 0, Some(&user)).unwrap();
    let pod_spec = pod;
    let sc = pod_spec.security_context.unwrap();
    assert_eq!(sc.run_as_user, 1001);
    assert_eq!(sc.run_as_group, 1001);
    assert_eq!(sc.supplemental_groups, Some(vec![1001, 5000]));
}

#[test]
fn test_build_worker_pod_with_user_identity_sets_env_vars() {
    let spec = make_spec_no_mpi();
    let user = make_user_identity();
    let pod = build_worker_pod("my-job", "default", &spec, "node-0", 0, Some(&user)).unwrap();
    let pod_spec = pod;
    let env = &pod_spec.container.env;
    let user_var = env.iter().find(|e| e.name == "USER").unwrap();
    assert_eq!(user_var.value, "miguel");
    let logname_var = env.iter().find(|e| e.name == "LOGNAME").unwrap();
    assert_eq!(logname_var.value, "miguel");
    let home_var = env.iter().find(|e| e.name == "HOME").unwrap();
    assert_eq!(home_var.value, "/home/miguel");
}

#[test]
fn test_build_worker_pod_without_user_no_security_context() {
    let spec = make_spec_no_mpi();
    let pod = build_worker_pod("my-job", "default", &spec, "node-0", 0, None).unwrap();
    let pod_spec = pod;
    assert!(pod_spec.security_context.is_none());
}

#[test]
fn test_build_worker_pod_without_user_no_user_env_vars() {
    let spec = make_spec_no_mpi();
    let pod = build_worker_pod("my-job", "default", &spec, "node-0", 0, None).unwrap();
    let pod_spec = pod;
    let env = &pod_spec.container.env;
    assert!(env.iter().all(|e| e.name != "USER"));
    assert!(env.iter().all(|e| e.name != "LOGNAME"));
    assert!(env.iter().all(|e| e.name != "HOME"));
}

#[test]
fn test_build_launcher_pod_with_user_identity() {
    let spec = make_spec_with_mpi();
    let placement = make_placement(&["node-0", "node-1"]);
    let user = make_user_identity();
    let pod = build_launcher_pod("my-job", "default", &spec, &placement, Some(&user)).unwrap();
    let pod_spec = pod;
    let sc = pod_spec.security_context.unwrap();
    assert_eq!(sc.run_as_user, 1001);
    assert_eq!(sc.run_as_group, 1001);
    let env = &pod_spec.container.env;
    assert!(env
        .iter()
        .any(|e| e.name == "USER" && e.value == "miguel"));
    assert!(env
        .iter()
        .any(|e| e.name == "HOME" && e.value == "/home/miguel"));
}

#[test]
fn test_build_worker_pod_user_no_home_dir() {
    let spec = make_spec_no_mpi();
    let user = UserIdentity {
        username: "test".to_string(),
        uid: 2000,
        gid: 2000,
        supplemental_groups: vec![],
        home_dir: None,
        default_project: None,
    };
    let pod = build_worker_pod("my-job", "default", &spec, "node-0", 0, Some(&user)).unwrap();
    let pod_spec = pod;
    let env = &pod_spec.container.env;
    assert!(env.iter().any(|e| e.name == "USER"));
    assert!(env.iter().all(|e| e.name != "HOME"));
    let sc = pod_spec.security_context.unwrap();
    assert!(sc.supplemental_groups.is_none());
}

// --- launches ---

fn make_n_placement(n: usize) -> Placement {
    Placement {
        nodes: (0..n).map(|i| format!("node-{}", i)).collect(),
        score: PlacementScore { points: 1, out_of: 1 },
    }
}

fn pods_of(plan: &LaunchPlan) -> Vec<&Pod> {
    let mut pods = Vec::new();
    for step in &plan.steps {
        if let LaunchStep::Pod(pod) = step {
            pods.push(pod);
        }
    }
    pods
}

#[test]
fn test_launch_mpi_job_creates_all_resources() {
    let spec = make_spec_with_mpi();
    let plan = plan_launch("mpi-job", "default", &spec, &make_n_placement(2), None);
    let launch = plan.outcome.as_ref().unwrap();
    assert!(!launch.resource_ids.is_empty());
    // Service, hostfile, two workers and the launcher.
    assert_eq!(plan.steps.len(), 5);
    assert!(matches!(plan.steps[0], LaunchStep::Service(_)));
    assert!(matches!(plan.steps[1], LaunchStep::ConfigMap(_)));
    assert_eq!(launch.message, "launched 2 worker pods + launcher on 2 nodes");
    let pods = pods_of(&plan);
    assert_eq!(pods[0].metadata.name, "mpi-job-worker-0");
    assert_eq!(pods[0].node_name.as_deref(), Some("node-0"));
    assert_eq!(pods[1].metadata.name, "mpi-job-worker-1");
    assert_eq!(pods[1].node_name.as_deref(), Some("node-1"));
    assert_eq!(pods[2].metadata.name, "mpi-job-launcher");
    assert_eq!(pods[2].node_name.as_deref(), Some("node-0"));
}

#[test]
fn test_launch_simple_job_no_launcher() {
    let spec = make_spec_no_mpi();
    let plan = plan_launch("simple-job", "default", &spec, &make_n_placement(2), None);
    let launch = plan.outcome.as_ref().unwrap();
    assert_eq!(launch.resource_ids.len(), 2);
    assert_eq!(plan.steps.len(), 2);
    assert_eq!(
        launch.message,
        "launched 2 worker pods (no MPI launcher) on 2 nodes"
    );
}

#[test]
fn test_launch_with_user_identity() {
    let spec = make_spec_no_mpi();
    let user = UserIdentity {
        username: "alice".to_string(),
        uid: 1001,
        gid: 1001,
        supplemental_groups: vec![2000],
        home_dir: Some("/home/alice".to_string()),
        default_project: None,
    };
    let plan = plan_launch("user-job", "default", &spec, &make_n_placement(1), Some(&user));
    assert!(plan.outcome.is_ok());
    let pods = pods_of(&plan);
    let context = pods[0].security_context.as_ref().unwrap();
    assert_eq!(context.run_as_user, 1001);
    assert_eq!(context.supplemental_groups, Some(vec![2000]));
}

#[test]
fn test_launch_returns_resource_ids() {
    let spec = make_spec_with_mpi();
    let plan = plan_launch("id-job", "default", &spec, &make_n_placement(3), None);
    assert_eq!(
        plan.outcome.unwrap().resource_ids,
        vec!["id-job-worker-0", "id-job-worker-1", "id-job-worker-2", "id-job-launcher"]
    );
}

#[test]
fn launch_without_container_fails() {
    let mut spec = make_spec_with_mpi();
    spec.container = None;
    let plan = plan_launch("job", "default", &spec, &make_n_placement(2), None);
    assert_eq!(plan.steps.len(), 2);
    assert_eq!(
        plan.outcome.unwrap_err(),
        WrenError::ValidationError {
            reason: "container spec required for container backend".to_string()
        }
    );
    spec.mpi = None;
    let plan = plan_launch("job", "default", &spec, &make_n_placement(2), None);
    assert_eq!(plan.steps.len(), 0);
    assert!(plan.outcome.is_err());
    let plan = plan_launch("job", "default", &spec, &make_n_placement(0), None);
    assert!(plan.outcome.is_ok());
}

#[test]
fn status_messages_are_exact() {
    let pods = vec![
        make_pod("worker", Some(0), "Failed"),
        make_pod("worker", Some(1), "Failed"),
        make_pod("worker", Some(2), "Running"),
    ];
    assert_eq!(
        interpret_pod_status(&pods),
        BackendJobStatus::Failed { message: "2 of 3 worker pods failed".to_string() }
    );
    let mut launcher = make_pod("launcher", None, "Failed");
    assert_eq!(
        interpret_pod_status(&[launcher.clone()]),
        BackendJobStatus::Failed { message: "launcher pod failed".to_string() }
    );
    launcher.message = Some("evicted".to_string());
    assert_eq!(
        interpret_pod_status(&[launcher]),
        BackendJobStatus::Failed { message: "evicted".to_string() }
    );
    assert_eq!(
        interpret_pod_status(&[make_pod("launcher", None, "Running")]),
        BackendJobStatus::Launching { ready: 0, total: 0 }
    );
}

#[test]
fn pods_are_selected_by_job() {
    assert_eq!(pod_selector("sim"), "wren.giar.dev/job-name=sim");
}
