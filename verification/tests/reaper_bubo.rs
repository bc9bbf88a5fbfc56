//! MPI jobs on bare metal.

use wren::bubo::reaper::{
    map_reaper_state, ReaperBackend, ReaperJobState, ReaperJobStatus, DEFAULT_REAPER_AGENT_PORT,
};
use wren::model::backend::BackendJobStatus;
use wren::model::crd::{MPIJobSpec, MPISpec, ReaperSpec};
use wren::model::error::BuboError;
use wren::model::types::ExecutionBackendType;
use wren::scheduler::gang::Placement;
use wren::scheduler::topology::PlacementScore;
use wren::string_map::StringMap;

fn at<'a>(map: &'a StringMap<String>, key: &str) -> &'a str {
    map.get(key).unwrap()
}

// -------------------------------------------------------------------------
// Helpers
// -------------------------------------------------------------------------

fn make_placement(nodes: &[&str]) -> Placement {
    Placement {
        nodes: nodes.iter().map(|s| s.to_string()).collect(),
        score: PlacementScore { points: 1, out_of: 1 },
    }
}

fn make_reaper_spec(nodes: u32, tasks_per_node: u32) -> MPIJobSpec {
    let mut env = StringMap::new();
    env.insert("SCRATCH".to_string(), "/scratch/project".to_string());

    MPIJobSpec {
        queue: "default".to_string(),
        priority: 50,
        walltime: None,
        nodes,
        tasks_per_node,
        backend: ExecutionBackendType::Reaper,
        container: None,
        reaper: Some(ReaperSpec {
            script: "#!/bin/bash\nmpirun ./app".to_string(),
            environment: env,
            working_dir: Some("/scratch/project".to_string()),
        }),
        mpi: None,
        topology: None,
        dependencies: vec![],
    }
}

// -------------------------------------------------------------------------
// Construction & configuration
// -------------------------------------------------------------------------

#[test]
fn test_default_construction() {
    let backend = ReaperBackend::new(None, None);
    assert_eq!(backend.agent_port, DEFAULT_REAPER_AGENT_PORT);
    assert_eq!(backend.agent_scheme, "http");
}

#[test]
fn test_construction_reads_env_vars() {
    // Without settings the defaults hold.
    let backend = ReaperBackend::new(None, None);
    assert_eq!(backend.agent_port, 8443);
    assert_eq!(backend.agent_scheme, "http");
}

#[test]
fn the_scheme_is_http_unless_it_is_set_to_https() {
    assert_eq!(ReaperBackend::new(None, Some("https")).agent_scheme, "https");
    assert_eq!(ReaperBackend::new(None, Some("http")).agent_scheme, "http");
    assert_eq!(ReaperBackend::new(None, Some("ftp")).agent_scheme, "http");
    assert_eq!(ReaperBackend::new(None, Some("")).agent_scheme, "http");
}

// -------------------------------------------------------------------------
// Agent URL generation
// -------------------------------------------------------------------------

#[test]
fn test_agent_url_default_scheme_and_port() {
    let backend = ReaperBackend::new(None, None);
    assert_eq!(
        backend.agent_url("node-42"),
        "http://node-42:8443"
    );
}

#[test]
fn test_agent_url_custom_port() {
    let mut backend = ReaperBackend::new(None, None);
    backend.agent_port = 9000;
    assert_eq!(backend.agent_url("worker-1"), "http://worker-1:9000");
}

#[test]
fn test_agent_url_https_scheme() {
    let mut backend = ReaperBackend::new(None, None);
    backend.agent_scheme = "https".to_string();
    assert_eq!(backend.agent_url("gpu-node"), "https://gpu-node:8443");
}

#[test]
fn test_agent_url_preserves_fqdn() {
    let backend = ReaperBackend::new(None, None);
    assert_eq!(
        backend.agent_url("node-0.cluster.internal"),
        "http://node-0.cluster.internal:8443"
    );
}

// -------------------------------------------------------------------------
// Status mapping
// -------------------------------------------------------------------------

#[test]
fn test_map_pending_to_launching() {
    let status = ReaperJobStatus {
        job_id: "j1".to_string(),
        status: ReaperJobState::Pending,
        exit_code: None,
        message: None,
    };
    assert_eq!(
        map_reaper_state(&status),
        BackendJobStatus::Launching { ready: 0, total: 1 }
    );
}

#[test]
fn test_map_running() {
    let status = ReaperJobStatus {
        job_id: "j1".to_string(),
        status: ReaperJobState::Running,
        exit_code: None,
        message: None,
    };
    assert_eq!(map_reaper_state(&status), BackendJobStatus::Running);
}

#[test]
fn test_map_succeeded() {
    let status = ReaperJobStatus {
        job_id: "j1".to_string(),
        status: ReaperJobState::Succeeded,
        exit_code: Some(0),
        message: None,
    };
    assert_eq!(map_reaper_state(&status), BackendJobStatus::Succeeded);
}

#[test]
fn test_map_failed_with_message() {
    let status = ReaperJobStatus {
        job_id: "j1".to_string(),
        status: ReaperJobState::Failed,
        exit_code: Some(2),
        message: Some("segfault".to_string()),
    };
    assert_eq!(
        map_reaper_state(&status),
        BackendJobStatus::Failed {
            message: "segfault".to_string()
        }
    );
}

#[test]
fn test_map_failed_without_message_uses_exit_code() {
    let status = ReaperJobStatus {
        job_id: "j1".to_string(),
        status: ReaperJobState::Failed,
        exit_code: Some(137),
        message: None,
    };
    match map_reaper_state(&status) {
        BackendJobStatus::Failed { message } => {
            assert!(message.contains("137"), "exit code should appear in message: {message}");
        }
        other => panic!("expected Failed, got {other:?}"),
    }
}

#[test]
fn test_map_failed_without_message_or_exit_code() {
    let status = ReaperJobStatus {
        job_id: "j1".to_string(),
        status: ReaperJobState::Failed,
        exit_code: None,
        message: None,
    };
    match map_reaper_state(&status) {
        BackendJobStatus::Failed { message } => {
            assert!(message.contains("-1"), "should fall back to -1: {message}");
        }
        other => panic!("expected Failed, got {other:?}"),
    }
}

#[test]
fn test_map_unknown_to_not_found() {
    let status = ReaperJobStatus {
        job_id: "j1".to_string(),
        status: ReaperJobState::Unknown,
        exit_code: None,
        message: None,
    };
    assert_eq!(map_reaper_state(&status), BackendJobStatus::NotFound);
}

// -------------------------------------------------------------------------
// Job request building
// -------------------------------------------------------------------------

#[test]
fn test_build_job_request_injects_mpi_env() {
    let backend = ReaperBackend::new(None, None);
    let spec = make_reaper_spec(4, 2);
    let placement = make_placement(&["n0", "n1", "n2", "n3"]);

    let req = backend.build_job_request(&spec, &placement, 0).unwrap();

    // MPI env vars injected
    assert_eq!(at(&req.environment, "BUBO_MPI_RANK"), "0");
    assert_eq!(at(&req.environment, "BUBO_TOTAL_RANKS"), "8"); // 4 * 2
    assert_eq!(at(&req.environment, "BUBO_NUM_NODES"), "4");
    assert!(req.environment.contains_key("BUBO_HOSTFILE"));
    // User-provided env preserved
    assert_eq!(at(&req.environment, "SCRATCH"), "/scratch/project");
}

#[test]
fn test_build_job_request_rank_varies() {
    let backend = ReaperBackend::new(None, None);
    let spec = make_reaper_spec(2, 4);
    let placement = make_placement(&["n0", "n1"]);

    let req0 = backend.build_job_request(&spec, &placement, 0).unwrap();
    let req1 = backend.build_job_request(&spec, &placement, 1).unwrap();

    assert_eq!(at(&req0.environment, "BUBO_MPI_RANK"), "0");
    assert_eq!(at(&req1.environment, "BUBO_MPI_RANK"), "1");
    // Hostfile and total ranks are the same for all ranks
    assert_eq!(
        at(&req0.environment, "BUBO_HOSTFILE"),
        at(&req1.environment, "BUBO_HOSTFILE")
    );
}

#[test]
fn test_build_job_request_working_dir_forwarded() {
    let backend = ReaperBackend::new(None, None);
    let spec = make_reaper_spec(1, 1);
    let placement = make_placement(&["n0"]);

    let req = backend.build_job_request(&spec, &placement, 0).unwrap();
    assert_eq!(req.working_dir, Some("/scratch/project".to_string()));
}

#[test]
fn test_build_job_request_error_without_reaper_spec() {
    let backend = ReaperBackend::new(None, None);
    let spec = MPIJobSpec {
        queue: "default".to_string(),
        priority: 50,
        walltime: None,
        nodes: 1,
        tasks_per_node: 1,
        backend: ExecutionBackendType::Reaper,
        container: None,
        reaper: None, // missing!
        mpi: None,
        topology: None,
        dependencies: vec![],
    };
    let placement = make_placement(&["n0"]);
    let result = backend.build_job_request(&spec, &placement, 0);
    assert!(result.is_err());
    match result.unwrap_err() {
        BuboError::ValidationError { reason } => {
            assert!(reason.contains("reaper spec"), "unexpected: {reason}");
        }
        e => panic!("expected ValidationError, got {e:?}"),
    }
}

#[test]
fn test_build_job_request_hostfile_format() {
    let backend = ReaperBackend::new(None, None);
    let spec = make_reaper_spec(3, 4);
    let placement = make_placement(&["node-0", "node-1", "node-2"]);

    let req = backend.build_job_request(&spec, &placement, 0).unwrap();
    let hostfile = at(&req.environment, "BUBO_HOSTFILE");
    assert_eq!(
        hostfile,
        "node-0 slots=4\nnode-1 slots=4\nnode-2 slots=4"
    );
}

#[test]
fn test_build_job_request_with_mpi_spec() {
    let backend = ReaperBackend::new(None, None);
    let mut spec = make_reaper_spec(2, 1);
    spec.mpi = Some(MPISpec {
        implementation: "cray-mpich".to_string(),
        ssh_auth: false,
        fabric_interface: Some("hsn0".to_string()),
    });
    let placement = make_placement(&["node-0", "node-1"]);

    let req = backend.build_job_request(&spec, &placement, 0).unwrap();
    assert_eq!(at(&req.environment, "BUBO_MPI_IMPL"), "cray-mpich");
    assert_eq!(at(&req.environment, "BUBO_FABRIC_INTERFACE"), "hsn0");
}
