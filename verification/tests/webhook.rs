//! Admission of jobs and queues.

use wren::model::crd::{ContainerSpec, DependencyType, JobDependency};
use wren::model::types::ExecutionBackendType;
use wren::wren::crd::{ReaperSpec, WrenJobSpec, WrenQueueSpec};
use wren::wren::webhook::{
    admission_allowed, admission_denied, review_wrenjob, review_wrenqueue, validate_wrenjob,
    validate_wrenqueue, AdmissionRequest, AdmissionReview,
};


fn container_spec(image: &str) -> ContainerSpec {
    ContainerSpec {
        image: image.to_string(),
        command: vec![],
        args: vec![],
        resources: None,
        host_network: false,
        volume_mounts: vec![],
        env: vec![],
    }
}

fn valid_wrenjob_spec() -> WrenJobSpec {
    WrenJobSpec {
        queue: "default".to_string(),
        priority: 50,
        walltime: None,
        nodes: 4,
        tasks_per_node: 1,
        backend: ExecutionBackendType::Container,
        container: Some(container_spec("pytorch:latest")),
        reaper: None,
        mpi: None,
        topology: None,
        dependencies: vec![],
        project: None,
    }
}

fn valid_wrenqueue_spec() -> WrenQueueSpec {
    WrenQueueSpec {
        max_nodes: 128,
        max_walltime: None,
        max_jobs_per_user: None,
        default_priority: 50,
        backfill: None,
        fair_share: None,
    }
}

// --- WrenJob tests ---

#[test]
fn test_wrenjob_valid_container() {
    assert!(validate_wrenjob(&valid_wrenjob_spec()).is_ok());
}

#[test]
fn test_wrenjob_nodes_zero() {
    let mut spec = valid_wrenjob_spec();
    spec.nodes = 0;
    let errs = validate_wrenjob(&spec).unwrap_err();
    assert!(errs
        .iter()
        .any(|e| e.contains("nodes must be greater than 0")));
}

#[test]
fn test_wrenjob_tasks_per_node_zero() {
    let mut spec = valid_wrenjob_spec();
    spec.tasks_per_node = 0;
    let errs = validate_wrenjob(&spec).unwrap_err();
    assert!(errs.iter().any(|e| e.contains("tasksPerNode")));
}

#[test]
fn test_wrenjob_invalid_walltime() {
    let mut spec = valid_wrenjob_spec();
    spec.walltime = Some("4x".to_string());
    let errs = validate_wrenjob(&spec).unwrap_err();
    assert!(errs.iter().any(|e| e.contains("walltime")));
}

#[test]
fn test_wrenjob_valid_walltime() {
    let mut spec = valid_wrenjob_spec();
    spec.walltime = Some("2h30m".to_string());
    assert!(validate_wrenjob(&spec).is_ok());
}

#[test]
fn test_wrenjob_container_backend_missing_spec() {
    let mut spec = valid_wrenjob_spec();
    spec.backend = ExecutionBackendType::Container;
    spec.container = None;
    let errs = validate_wrenjob(&spec).unwrap_err();
    assert!(errs.iter().any(|e| e.contains("container spec")));
}

#[test]
fn test_wrenjob_container_backend_empty_image() {
    let mut spec = valid_wrenjob_spec();
    spec.container = Some(container_spec("  "));
    let errs = validate_wrenjob(&spec).unwrap_err();
    assert!(errs.iter().any(|e| e.contains("container.image")));
}

#[test]
fn test_wrenjob_reaper_backend_valid() {
    let spec = WrenJobSpec {
        backend: ExecutionBackendType::Reaper,
        container: None,
        reaper: Some(ReaperSpec {
            script: Some("#!/bin/bash\nsrun ./app".to_string()),
            ..Default::default()
        }),
        ..valid_wrenjob_spec()
    };
    assert!(validate_wrenjob(&spec).is_ok());
}

#[test]
fn test_wrenjob_reaper_backend_missing_spec() {
    let spec = WrenJobSpec {
        backend: ExecutionBackendType::Reaper,
        container: None,
        reaper: None,
        ..valid_wrenjob_spec()
    };
    let errs = validate_wrenjob(&spec).unwrap_err();
    assert!(errs.iter().any(|e| e.contains("reaper spec")));
}

#[test]
fn test_wrenjob_reaper_backend_empty_script() {
    let spec = WrenJobSpec {
        backend: ExecutionBackendType::Reaper,
        container: None,
        reaper: Some(ReaperSpec {
            script: Some("   ".to_string()),
            ..Default::default()
        }),
        ..valid_wrenjob_spec()
    };
    let errs = validate_wrenjob(&spec).unwrap_err();
    assert!(errs.iter().any(|e| e.contains("reaper.script")));
}

#[test]
fn test_wrenjob_priority_out_of_range_high() {
    let mut spec = valid_wrenjob_spec();
    spec.priority = 10001;
    let errs = validate_wrenjob(&spec).unwrap_err();
    assert!(errs.iter().any(|e| e.contains("priority")));
}

#[test]
fn test_wrenjob_priority_out_of_range_low() {
    let mut spec = valid_wrenjob_spec();
    spec.priority = -10001;
    let errs = validate_wrenjob(&spec).unwrap_err();
    assert!(errs.iter().any(|e| e.contains("priority")));
}

#[test]
fn test_wrenjob_priority_boundary_values_valid() {
    let mut spec = valid_wrenjob_spec();
    spec.priority = -10000;
    assert!(validate_wrenjob(&spec).is_ok());
    spec.priority = 10000;
    assert!(validate_wrenjob(&spec).is_ok());
}

#[test]
fn test_wrenjob_empty_queue() {
    let mut spec = valid_wrenjob_spec();
    spec.queue = "  ".to_string();
    let errs = validate_wrenjob(&spec).unwrap_err();
    assert!(errs.iter().any(|e| e.contains("queue")));
}

#[test]
fn test_wrenjob_empty_dependency_job_name() {
    let mut spec = valid_wrenjob_spec();
    spec.dependencies = vec![JobDependency {
        dep_type: DependencyType::AfterOk,
        job: "".to_string(),
    }];
    let errs = validate_wrenjob(&spec).unwrap_err();
    assert!(errs.iter().any(|e| e.contains("dependencies[0].job")));
}

#[test]
fn test_wrenjob_valid_dependency() {
    let mut spec = valid_wrenjob_spec();
    spec.dependencies = vec![JobDependency {
        dep_type: DependencyType::AfterOk,
        job: "previous-sim".to_string(),
    }];
    assert!(validate_wrenjob(&spec).is_ok());
}

#[test]
fn test_wrenjob_multiple_errors_collected() {
    let spec = WrenJobSpec {
        queue: "".to_string(),
        priority: 99999,
        walltime: Some("bad".to_string()),
        nodes: 0,
        tasks_per_node: 0,
        backend: ExecutionBackendType::Container,
        container: None,
        reaper: None,
        mpi: None,
        topology: None,
        dependencies: vec![],
        project: None,
    };
    let errs = validate_wrenjob(&spec).unwrap_err();
    assert!(errs.len() >= 4, "expected multiple errors, got: {:?}", errs);
}

// --- WrenQueue tests ---

#[test]
fn test_wrenqueue_valid() {
    assert!(validate_wrenqueue(&valid_wrenqueue_spec()).is_ok());
}

#[test]
fn test_wrenqueue_max_nodes_zero() {
    let mut spec = valid_wrenqueue_spec();
    spec.max_nodes = 0;
    let errs = validate_wrenqueue(&spec).unwrap_err();
    assert!(errs.iter().any(|e| e.contains("maxNodes")));
}

#[test]
fn test_wrenqueue_invalid_max_walltime() {
    let mut spec = valid_wrenqueue_spec();
    spec.max_walltime = Some("notavalid".to_string());
    let errs = validate_wrenqueue(&spec).unwrap_err();
    assert!(errs.iter().any(|e| e.contains("maxWalltime")));
}

#[test]
fn test_wrenqueue_valid_max_walltime() {
    let mut spec = valid_wrenqueue_spec();
    spec.max_walltime = Some("24h".to_string());
    assert!(validate_wrenqueue(&spec).is_ok());
}

#[test]
fn test_wrenqueue_default_priority_out_of_range() {
    let mut spec = valid_wrenqueue_spec();
    spec.default_priority = -20000;
    let errs = validate_wrenqueue(&spec).unwrap_err();
    assert!(errs.iter().any(|e| e.contains("defaultPriority")));
}

#[test]
fn test_wrenqueue_max_jobs_per_user_zero() {
    let mut spec = valid_wrenqueue_spec();
    spec.max_jobs_per_user = Some(0);
    let errs = validate_wrenqueue(&spec).unwrap_err();
    assert!(errs.iter().any(|e| e.contains("maxJobsPerUser")));
}

#[test]
fn test_wrenqueue_max_jobs_per_user_valid() {
    let mut spec = valid_wrenqueue_spec();
    spec.max_jobs_per_user = Some(10);
    assert!(validate_wrenqueue(&spec).is_ok());
}

#[test]
fn test_wrenqueue_max_jobs_per_user_none_is_valid() {
    let mut spec = valid_wrenqueue_spec();
    spec.max_jobs_per_user = None;
    assert!(validate_wrenqueue(&spec).is_ok());
}

#[test]
fn test_wrenqueue_priority_boundary_values_valid() {
    let mut spec = valid_wrenqueue_spec();
    spec.default_priority = 10000;
    assert!(validate_wrenqueue(&spec).is_ok());
    spec.default_priority = -10000;
    assert!(validate_wrenqueue(&spec).is_ok());
}

// --- admission response helpers ---

#[test]
fn test_admission_allowed_response() {
    let resp = admission_allowed("uid-123".to_string());
    assert_eq!(resp.api_version, "admission.k8s.io/v1");
    assert_eq!(resp.kind, "AdmissionReview");
    assert_eq!(resp.response.uid, "uid-123");
    assert!(resp.response.allowed);
    assert!(resp.response.status.is_none());
}

#[test]
fn test_admission_denied_response() {
    let errors = vec![
        "nodes must be > 0".to_string(),
        "queue is empty".to_string(),
    ];
    let resp = admission_denied("uid-456".to_string(), errors);
    assert_eq!(resp.response.uid, "uid-456");
    assert!(!resp.response.allowed);
    let status = resp.response.status.unwrap();
    assert_eq!(status.code, 422);
    assert!(status.message.contains("nodes must be > 0"));
    assert!(status.message.contains("queue is empty"));
    assert!(status.message.contains("; "));
}

#[test]
fn test_admission_denied_single_error() {
    let errors = vec!["single error".to_string()];
    let resp = admission_denied("uid-789".to_string(), errors);
    assert!(!resp.response.allowed);
    let status = resp.response.status.unwrap();
    assert_eq!(status.message, "single error");
}

// --- reviews ---

fn review<T>(uid: &str, object: T) -> AdmissionReview<T> {
    AdmissionReview {
        api_version: "admission.k8s.io/v1".to_string(),
        kind: "AdmissionReview".to_string(),
        request: AdmissionRequest { uid: uid.to_string(), object },
    }
}

#[test]
fn test_validate_wrenjob_handler_valid() {
    let resp = review_wrenjob(&review("test-uid-1", valid_wrenjob_spec()));
    assert!(resp.response.allowed);
    assert_eq!(resp.response.uid, "test-uid-1");
}

#[test]
fn test_validate_wrenjob_handler_invalid() {
    let mut spec = valid_wrenjob_spec();
    spec.nodes = 0;
    let resp = review_wrenjob(&review("test-uid-2", spec));
    assert!(!resp.response.allowed);
    assert!(resp.response.status.unwrap().message.contains("nodes"));
}

#[test]
fn test_validate_wrenqueue_handler_valid() {
    let resp = review_wrenqueue(&review("test-uid-3", valid_wrenqueue_spec()));
    assert!(resp.response.allowed);
    assert_eq!(resp.response.uid, "test-uid-3");
}

#[test]
fn test_validate_wrenqueue_handler_invalid() {
    let mut spec = valid_wrenqueue_spec();
    spec.max_nodes = 0;
    let resp = review_wrenqueue(&review("test-uid-4", spec));
    assert!(!resp.response.allowed);
}

#[test]
fn all_faults_of_a_job_are_named_in_order() {
    let mut spec = valid_wrenjob_spec();
    spec.nodes = 0;
    spec.tasks_per_node = 0;
    spec.walltime = Some(" soon ".to_string());
    spec.container = None;
    spec.priority = -10001;
    spec.queue = "\t".to_string();
    for name in ["", "ok", " "] {
        spec.dependencies.push(JobDependency {
            dep_type: DependencyType::AfterAny,
            job: name.to_string(),
        });
    }
    let resp = review_wrenjob(&review("uid", spec));
    assert_eq!(
        resp.response.status.unwrap().message,
        "nodes must be greater than 0; \
         tasksPerNode must be greater than 0; \
         walltime ' soon ' is invalid; use formats like '4h', '30m', '1d', '2h30m'; \
         backend 'container' requires a container spec to be provided; \
         priority -10001 is out of range; must be between -10000 and 10000; \
         queue must not be empty; \
         dependencies[0].job must not be empty; \
         dependencies[2].job must not be empty"
    );
}

#[test]
fn all_faults_of_a_queue_are_named_in_order() {
    let spec = WrenQueueSpec {
        max_nodes: 0,
        max_walltime: Some("x".to_string()),
        max_jobs_per_user: Some(0),
        default_priority: 10001,
        backfill: None,
        fair_share: None,
    };
    assert_eq!(
        validate_wrenqueue(&spec).unwrap_err(),
        vec![
            "maxNodes must be greater than 0",
            "maxWalltime 'x' is invalid; use formats like '4h', '30m', '1d', '2h30m'",
            "defaultPriority 10001 is out of range; must be between -10000 and 10000",
            "maxJobsPerUser must be greater than 0 if set",
        ]
    );
}

#[test]
fn bare_metal_jobs_need_a_script() {
    let mut spec = valid_wrenjob_spec();
    spec.backend = ExecutionBackendType::Reaper;
    spec.reaper = Some(ReaperSpec::default());
    assert_eq!(validate_wrenjob(&spec).unwrap_err(), vec!["reaper.script must not be empty"]);
}
