//! MPI jobs in containers and on the agents of nodes, with exact results.

use wren::bubo::container::{
    build_headless_service, build_hostfile_configmap, build_launcher_pod, build_worker_pod,
    interpret_pod_status, plan_launch, pod_selector,
};
use wren::bubo::reaper::{PollReply, ReaperBackend, ReaperJobState};
use wren::controller::manifest::{LaunchStep, PodReport};
use wren::model::backend::BackendJobStatus;
use wren::model::crd::{ContainerSpec, EnvVar, MPIJobSpec};
use wren::model::error::BuboError;
use wren::scheduler::gang::Placement;
use wren::scheduler::topology::PlacementScore;
use wren::string_map::StringMap;

fn at<'a>(map: &'a StringMap<String>, key: &str) -> &'a str {
    map.get(key).unwrap()
}

fn make_placement(nodes: &[&str]) -> Placement {
    Placement {
        nodes: nodes.iter().map(|s| s.to_string()).collect(),
        score: PlacementScore { points: 1, out_of: 1 },
    }
}

fn make_spec(nodes: u32) -> MPIJobSpec {
    let mut spec = MPIJobSpec::with_nodes(nodes);
    spec.tasks_per_node = 2;
    spec.container = Some(ContainerSpec {
        image: "app:1".to_string(),
        command: vec!["./app".to_string()],
        args: vec!["-v".to_string()],
        resources: None,
        host_network: true,
        volume_mounts: vec![],
        env: vec![EnvVar { name: "A".to_string(), value: "1".to_string() }],
    });
    spec
}

#[test]
fn service_and_hostfile_of_an_mpi_job() {
    let service = build_headless_service("sim", "hpc");
    assert_eq!(service.metadata.name, "sim-workers");
    assert_eq!(service.metadata.namespace, "hpc");
    assert_eq!(service.cluster_ip, "None");
    assert_eq!(at(&service.selector, "bubo.io/role"), "worker");
    assert_eq!(service.ports[0].port, 22);
    let map = build_hostfile_configmap("sim", "hpc", &make_placement(&["a", "b"]), 2);
    assert_eq!(map.metadata.name, "sim-hostfile");
    assert_eq!(at(&map.metadata.labels, "bubo.io/role"), "config");
    assert_eq!(at(&map.data, "hostfile"), "a slots=2\nb slots=2");
}

#[test]
fn worker_of_an_mpi_job() {
    let pod = build_worker_pod("sim", "hpc", &make_spec(2), "b", 1).unwrap();
    assert_eq!(pod.metadata.name, "sim-worker-1");
    assert_eq!(pod.hostname.as_deref(), Some("sim-worker-1"));
    assert_eq!(pod.subdomain.as_deref(), Some("sim-workers"));
    assert_eq!(pod.node_name.as_deref(), Some("b"));
    assert_eq!(pod.host_network, Some(true));
    assert_eq!(pod.container.command, Some(vec!["./app".to_string()]));
    let env: Vec<(&str, &str)> =
        pod.container.env.iter().map(|e| (e.name.as_str(), e.value.as_str())).collect();
    assert_eq!(env, vec![("A", "1"), ("BUBO_RANK", "1"), ("BUBO_JOB_NAME", "sim")]);
    assert!(pod.security_context.is_none());
}

#[test]
fn launcher_of_an_mpi_job() {
    let placement = make_placement(&["a", "b"]);
    let pod = build_launcher_pod("sim", "hpc", &make_spec(2), &placement).unwrap();
    assert_eq!(pod.metadata.name, "sim-launcher");
    assert_eq!(pod.node_name.as_deref(), Some("a"));
    assert_eq!(
        pod.container.command.unwrap().join(" "),
        "mpirun -np 4 --hostfile /etc/bubo/hostfile --allow-run-as-root ./app -v"
    );
    let env: Vec<(&str, &str)> =
        pod.container.env.iter().map(|e| (e.name.as_str(), e.value.as_str())).collect();
    assert_eq!(
        env,
        vec![("BUBO_JOB_NAME", "sim"), ("BUBO_NUM_NODES", "2"), ("BUBO_TOTAL_RANKS", "4")]
    );
    let pod = build_launcher_pod("sim", "hpc", &make_spec(2), &make_placement(&[])).unwrap();
    assert_eq!(pod.node_name, None);
}

#[test]
fn launch_of_an_mpi_job() {
    let placement = make_placement(&["a", "b"]);
    let plan = plan_launch("sim", "hpc", &make_spec(2), &placement);
    assert_eq!(plan.steps.len(), 5);
    assert!(matches!(&plan.steps[4], LaunchStep::Pod(pod) if pod.metadata.name == "sim-launcher"));
    let launched = plan.outcome.unwrap();
    assert_eq!(launched.resource_ids, vec!["sim-worker-0", "sim-worker-1", "sim-launcher"]);
    assert_eq!(launched.message, "launched 2 worker pods + launcher on 2 nodes");
    let missing = BuboError::ValidationError {
        reason: "container spec required for container backend".to_string(),
    };
    let plan = plan_launch("sim", "hpc", &MPIJobSpec::with_nodes(2), &placement);
    assert_eq!(plan.steps.len(), 2);
    assert_eq!(plan.outcome.unwrap_err(), missing);
    let bare = MPIJobSpec::with_nodes(2);
    assert_eq!(build_worker_pod("sim", "hpc", &bare, "a", 0).unwrap_err(), missing);
    assert_eq!(build_launcher_pod("sim", "hpc", &bare, &placement).unwrap_err(), missing);
}

fn report(role: &str, phase: &str) -> PodReport {
    let mut labels = StringMap::new();
    labels.insert("bubo.io/role".to_string(), role.to_string());
    PodReport { labels: Some(labels), phase: Some(phase.to_string()), message: None }
}

#[test]
fn status_of_an_mpi_job_by_its_pods() {
    assert_eq!(interpret_pod_status(&[]), BackendJobStatus::NotFound);
    let pods = [report("worker", "Running"), report("worker", "Pending")];
    assert_eq!(interpret_pod_status(&pods), BackendJobStatus::Launching { ready: 1, total: 2 });
    let pods = [report("worker", "Running"), report("launcher", "Running")];
    assert_eq!(interpret_pod_status(&pods), BackendJobStatus::Running);
    let pods = [report("worker", "Failed"), report("launcher", "Succeeded")];
    assert_eq!(interpret_pod_status(&pods), BackendJobStatus::Succeeded);
    let pods = [report("launcher", "Failed")];
    assert_eq!(
        interpret_pod_status(&pods),
        BackendJobStatus::Failed { message: "launcher pod failed".to_string() }
    );
    assert_eq!(pod_selector("sim"), "bubo.io/job-name=sim");
}

#[test]
fn agents_are_reached_as_set() {
    let backend = ReaperBackend::new(Some("9000"), Some("https"));
    assert_eq!(backend.agent_url("n"), "https://n:9000");
    assert_eq!(backend.jobs_url("n"), "https://n:9000/api/v1/jobs");
    assert_eq!(backend.job_url("n", "j1"), "https://n:9000/api/v1/jobs/j1");
    for port in ["", "x", "65536", "-1"] {
        assert_eq!(ReaperBackend::new(Some(port), None).agent_port, 8443);
    }
}

#[test]
fn replies_of_agents() {
    assert!(ReaperBackend::check_submission("n", 201, "201 Created", "").is_ok());
    assert_eq!(
        ReaperBackend::check_submission("n", 503, "503 Service Unavailable", "busy").unwrap_err(),
        BuboError::BackendError {
            message: "Reaper agent on n returned 503 Service Unavailable: busy".to_string()
        }
    );
    assert!(matches!(ReaperBackend::check_poll("n", "j", 200, "200 OK", "{}"), PollReply::Body));
    match ReaperBackend::check_poll("n", "j", 404, "404 Not Found", "") {
        PollReply::Known(status) => {
            assert_eq!(status.job_id, "j");
            assert_eq!(status.status, ReaperJobState::Unknown);
            assert_eq!(status.message.as_deref(), Some("job not found on agent"));
        }
        _ => panic!("expected a status"),
    }
    match ReaperBackend::check_poll("n", "j", 500, "500 Internal Server Error", "oops") {
        PollReply::Refused(error) => assert_eq!(
            error,
            BuboError::BackendError {
                message: "Reaper agent on n returned 500 Internal Server Error for status poll: oops"
                    .to_string()
            }
        ),
        _ => panic!("expected an error"),
    }
}

#[test]
fn agents_jobs_are_kept_until_they_are_forgotten() {
    let mut backend = ReaperBackend::default();
    let placement = make_placement(&["a", "b"]);
    assert_eq!(ReaperBackend::launcher_node(&placement).unwrap(), "a");
    assert_eq!(
        ReaperBackend::launcher_node(&make_placement(&[])).unwrap_err(),
        BuboError::ValidationError {
            reason: "placement must contain at least one node".to_string()
        }
    );
    let ids = vec!["x".to_string(), "y".to_string()];
    let launched = backend.record_launch("sim", &placement, &ids);
    assert_eq!(launched.resource_ids, vec!["a:x", "b:y"]);
    assert_eq!(launched.message, "submitted job to 2 Reaper agents; launcher on a");
    assert_eq!(backend.status_source("sim"), Some(("a".to_string(), "x".to_string())));
    assert_eq!(
        backend.termination("sim"),
        (vec!["a".to_string(), "b".to_string()], "x".to_string())
    );
    backend.forget("sim");
    assert_eq!(backend.status_source("sim"), None);
    assert_eq!(backend.termination("sim"), (vec![], "sim".to_string()));
}
