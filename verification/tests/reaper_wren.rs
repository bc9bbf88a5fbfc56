//! Wren jobs on bare metal.

use wren::model::backend::BackendJobStatus;
use wren::model::crd::MPISpec;
use wren::model::error::WrenError;
use wren::model::types::ExecutionBackendType;
use wren::scheduler::gang::Placement;
use wren::scheduler::topology::PlacementScore;
use wren::string_map::StringMap;
use wren::wren::crd::{ReaperSpec, ReaperVolumeSpec, UserIdentity, WrenJobSpec};
use wren::wren::reaper::{
    build_rank_env, build_reaper_pod, job_status, map_phase_to_status, plan_launch, rank_pod_name,
    rank_selector, ReaperPod, ReaperPodStatus, API_VERSION, KIND,
};

fn at<'a>(map: &'a StringMap<String>, key: &str) -> &'a str {
    map.get(key).unwrap()
}
/// Minimal `WrenJobSpec` with a command-based `ReaperSpec`.
fn make_spec(nodes: u32) -> WrenJobSpec {
    WrenJobSpec {
        nodes,
        tasks_per_node: 1,
        backend: ExecutionBackendType::Reaper,
        reaper: Some(ReaperSpec {
            command: vec!["python3".to_string(), "/opt/train.py".to_string()],
            args: vec!["--epochs".to_string(), "5".to_string()],
            ..Default::default()
        }),
        ..WrenJobSpec::with_nodes(nodes)
    }
}

/// Placement with `count` sequentially-named nodes.
fn make_placement(count: usize) -> Placement {
    Placement {
        nodes: (0..count).map(|i| format!("node-{}", i)).collect(),
        score: PlacementScore { points: 1, out_of: 1 },
    }
}

/// A `UserIdentity` representing a typical HPC user.
fn make_user() -> UserIdentity {
    UserIdentity {
        username: "alice".to_string(),
        uid: 1001,
        gid: 1001,
        supplemental_groups: vec![2000, 3000],
        home_dir: Some("/home/alice".to_string()),
        default_project: None,
    }
}

// -------------------------------------------------------------------------
// ReaperPod phase mapping
// -------------------------------------------------------------------------

#[test]
fn test_map_phase_succeeded() {
    let s = ReaperPodStatus {
        phase: Some("Succeeded".to_string()),
        exit_code: Some(0),
        ..Default::default()
    };
    assert_eq!(map_phase_to_status(&s), BackendJobStatus::Succeeded);
}

#[test]
fn test_map_phase_failed() {
    let s = ReaperPodStatus {
        phase: Some("Failed".to_string()),
        exit_code: Some(1),
        message: Some("OOM".to_string()),
        ..Default::default()
    };
    assert_eq!(
        map_phase_to_status(&s),
        BackendJobStatus::Failed {
            message: "OOM".to_string()
        }
    );
}

#[test]
fn test_map_phase_failed_uses_exit_code_when_no_message() {
    let s = ReaperPodStatus {
        phase: Some("Failed".to_string()),
        exit_code: Some(2),
        message: None,
        ..Default::default()
    };
    assert_eq!(
        map_phase_to_status(&s),
        BackendJobStatus::Failed {
            message: "job exited with code 2".to_string()
        }
    );
}

#[test]
fn test_map_phase_failed_uses_minus_one_when_no_exit_code_and_no_message() {
    let s = ReaperPodStatus {
        phase: Some("Failed".to_string()),
        exit_code: None,
        message: None,
        ..Default::default()
    };
    assert_eq!(
        map_phase_to_status(&s),
        BackendJobStatus::Failed {
            message: "job exited with code -1".to_string()
        }
    );
}

#[test]
fn test_map_phase_running() {
    let s = ReaperPodStatus {
        phase: Some("Running".to_string()),
        ..Default::default()
    };
    assert_eq!(map_phase_to_status(&s), BackendJobStatus::Running);
}

#[test]
fn test_map_phase_pending() {
    let s = ReaperPodStatus {
        phase: Some("Pending".to_string()),
        ..Default::default()
    };
    assert_eq!(
        map_phase_to_status(&s),
        BackendJobStatus::Launching { ready: 0, total: 1 }
    );
}

#[test]
fn test_map_phase_none() {
    let s = ReaperPodStatus::default();
    assert_eq!(
        map_phase_to_status(&s),
        BackendJobStatus::Launching { ready: 0, total: 1 }
    );
}

#[test]
fn test_map_phase_unknown_string_treated_as_launching() {
    let s = ReaperPodStatus {
        phase: Some("Initializing".to_string()),
        ..Default::default()
    };
    assert_eq!(
        map_phase_to_status(&s),
        BackendJobStatus::Launching { ready: 0, total: 1 }
    );
}

// -------------------------------------------------------------------------
// build_reaper_pod — metadata and top-level structure
// -------------------------------------------------------------------------

#[test]
fn test_build_reaper_pod_returns_correct_api_version_and_kind() {
    let spec = make_spec(2);
    let placement = make_placement(2);
    let pod = build_reaper_pod("myjob", "default", &spec, &placement, 0, "node-0", None)
        .unwrap();

    assert_eq!(API_VERSION, "reaper.io/v1alpha1");
    assert_eq!(KIND, "ReaperPod");
}

#[test]
fn test_build_reaper_pod_metadata_name_encodes_job_name_and_rank() {
    let spec = make_spec(4);
    let placement = make_placement(4);
    let pod = build_reaper_pod("training-job", "hpc", &spec, &placement, 3, "node-3", None)
        .unwrap();

    assert_eq!(pod.metadata.name, "training-job-rank-3");
}

#[test]
fn test_build_reaper_pod_metadata_namespace_matches_argument() {
    let spec = make_spec(1);
    let placement = make_placement(1);
    let pod = build_reaper_pod("myjob", "team-ns", &spec, &placement, 0, "node-0", None)
        .unwrap();

    assert_eq!(pod.metadata.namespace, "team-ns");
}

#[test]
fn test_build_reaper_pod_labels_contain_job_name_and_rank() {
    let spec = make_spec(3);
    let placement = make_placement(3);
    let pod = build_reaper_pod("sim-job", "default", &spec, &placement, 1, "node-1", None)
        .unwrap();

    let labels = &pod.metadata.labels;
    assert_eq!(at(labels, "wren.giar.dev/job"), "sim-job");
    assert_eq!(at(labels, "wren.giar.dev/rank"), "1");
    assert_eq!(at(labels, "wren.giar.dev/role"), "worker");
    assert_eq!(at(labels, "app.kubernetes.io/managed-by"), "wren");
}

// -------------------------------------------------------------------------
// build_reaper_pod — spec.command and spec.args
// -------------------------------------------------------------------------

#[test]
fn test_build_reaper_pod_command_taken_from_reaper_spec() {
    let spec = make_spec(1);
    let placement = make_placement(1);
    let pod = build_reaper_pod("myjob", "default", &spec, &placement, 0, "node-0", None)
        .unwrap();

    let cmd = &pod.command;
    assert_eq!(cmd[0], "python3");
    assert_eq!(cmd[1], "/opt/train.py");
}

#[test]
fn test_build_reaper_pod_args_taken_from_reaper_spec() {
    let spec = make_spec(1);
    let placement = make_placement(1);
    let pod = build_reaper_pod("myjob", "default", &spec, &placement, 0, "node-0", None)
        .unwrap();

    let args = &pod.args;
    assert_eq!(args[0], "--epochs");
    assert_eq!(args[1], "5");
}

#[test]
fn test_build_reaper_pod_script_wraps_in_sh_c_when_no_command() {
    let mut spec = make_spec(1);
    spec.reaper = Some(ReaperSpec {
        command: vec![],
        script: Some("#!/bin/bash\necho hello".to_string()),
        ..Default::default()
    });
    let placement = make_placement(1);
    let pod = build_reaper_pod("myjob", "default", &spec, &placement, 0, "node-0", None)
        .unwrap();

    let cmd = &pod.command;
    assert_eq!(cmd[0], "/bin/sh");
    assert_eq!(cmd[1], "-c");

    let args = &pod.args;
    assert!(args[0].contains("echo hello"));
}

#[test]
fn test_build_reaper_pod_errors_when_neither_command_nor_script_provided() {
    let mut spec = make_spec(1);
    spec.reaper = Some(ReaperSpec {
        command: vec![],
        script: None,
        ..Default::default()
    });
    let placement = make_placement(1);
    let result = build_reaper_pod("myjob", "default", &spec, &placement, 0, "node-0", None);

    assert!(result.is_err());
}

// -------------------------------------------------------------------------
// build_reaper_pod — spec.nodeName
// -------------------------------------------------------------------------

#[test]
fn test_build_reaper_pod_node_name_matches_placement_node_argument() {
    let spec = make_spec(2);
    let placement = make_placement(2);
    let pod = build_reaper_pod("myjob", "default", &spec, &placement, 1, "node-1", None)
        .unwrap();

    assert_eq!(pod.node_name, "node-1");
}

// -------------------------------------------------------------------------
// build_reaper_pod — user identity fields
// -------------------------------------------------------------------------

#[test]
fn test_build_reaper_pod_sets_run_as_user_and_group_when_user_provided() {
    let spec = make_spec(1);
    let placement = make_placement(1);
    let user = make_user();
    let pod = build_reaper_pod(
            "myjob",
            "default",
            &spec,
            &placement,
            0,
            "node-0",
            Some(&user),
        )
        .unwrap();

    assert_eq!(pod.identity.as_ref().unwrap().run_as_user, 1001);
    assert_eq!(pod.identity.as_ref().unwrap().run_as_group, 1001);
}

#[test]
fn test_build_reaper_pod_sets_supplemental_groups_when_user_provided() {
    let spec = make_spec(1);
    let placement = make_placement(1);
    let user = make_user();
    let pod = build_reaper_pod(
            "myjob",
            "default",
            &spec,
            &placement,
            0,
            "node-0",
            Some(&user),
        )
        .unwrap();

    let groups = pod.identity.unwrap().supplemental_groups.unwrap();
    assert!(groups.contains(&2000));
    assert!(groups.contains(&3000));
}

#[test]
fn test_build_reaper_pod_omits_identity_fields_when_no_user() {
    let spec = make_spec(1);
    let placement = make_placement(1);
    let pod = build_reaper_pod("myjob", "default", &spec, &placement, 0, "node-0", None)
        .unwrap();

    assert!(pod.identity.is_none());
}

#[test]
fn test_build_reaper_pod_omits_supplemental_groups_when_user_has_none() {
    let spec = make_spec(1);
    let placement = make_placement(1);
    let user = UserIdentity {
        supplemental_groups: vec![],
        ..make_user()
    };
    let pod = build_reaper_pod(
            "myjob",
            "default",
            &spec,
            &placement,
            0,
            "node-0",
            Some(&user),
        )
        .unwrap();

    assert!(pod.identity.unwrap().supplemental_groups.is_none());
}

// -------------------------------------------------------------------------
// build_reaper_pod — environment variables
// -------------------------------------------------------------------------

fn env_value(pod: &ReaperPod, key: &str) -> Option<String> {
    pod.env.get(key).cloned()
}

#[test]
fn test_build_reaper_pod_env_contains_rank_and_world_size() {
    let mut spec = make_spec(4);
    spec.nodes = 4;
    spec.tasks_per_node = 1;
    let placement = make_placement(4);
    let pod = build_reaper_pod("myjob", "default", &spec, &placement, 2, "node-2", None)
        .unwrap();

    assert_eq!(env_value(&pod, "RANK").as_deref(), Some("2"));
    assert_eq!(env_value(&pod, "WORLD_SIZE").as_deref(), Some("4"));
    assert_eq!(env_value(&pod, "LOCAL_RANK").as_deref(), Some("0"));
}

#[test]
fn test_build_reaper_pod_env_master_addr_is_first_placement_node() {
    let spec = make_spec(3);
    let placement = make_placement(3);
    let pod = build_reaper_pod("myjob", "default", &spec, &placement, 0, "node-0", None)
        .unwrap();

    // MASTER_ADDR is always the first node in the placement
    assert_eq!(env_value(&pod, "MASTER_ADDR").as_deref(), Some("node-0"));
    assert_eq!(env_value(&pod, "MASTER_PORT").as_deref(), Some("29500"));
}

#[test]
fn test_build_reaper_pod_env_contains_user_home_logname_when_user_provided() {
    let spec = make_spec(1);
    let placement = make_placement(1);
    let user = make_user();
    let pod = build_reaper_pod(
            "myjob",
            "default",
            &spec,
            &placement,
            0,
            "node-0",
            Some(&user),
        )
        .unwrap();

    assert_eq!(env_value(&pod, "USER").as_deref(), Some("alice"));
    assert_eq!(env_value(&pod, "LOGNAME").as_deref(), Some("alice"));
    assert_eq!(env_value(&pod, "HOME").as_deref(), Some("/home/alice"));
}

#[test]
fn test_build_reaper_pod_env_omits_home_when_user_has_no_home_dir() {
    let spec = make_spec(1);
    let placement = make_placement(1);
    let user = UserIdentity {
        home_dir: None,
        ..make_user()
    };
    let pod = build_reaper_pod(
            "myjob",
            "default",
            &spec,
            &placement,
            0,
            "node-0",
            Some(&user),
        )
        .unwrap();

    assert_eq!(env_value(&pod, "USER").as_deref(), Some("alice"));
    // HOME should not appear when not set
    assert!(env_value(&pod, "HOME").is_none());
}

#[test]
fn test_build_reaper_pod_env_omits_user_vars_when_no_user() {
    let spec = make_spec(1);
    let placement = make_placement(1);
    let pod = build_reaper_pod("myjob", "default", &spec, &placement, 0, "node-0", None)
        .unwrap();

    assert!(env_value(&pod, "USER").is_none());
    assert!(env_value(&pod, "LOGNAME").is_none());
    assert!(env_value(&pod, "HOME").is_none());
}

#[test]
fn test_build_reaper_pod_env_contains_wren_job_name() {
    let spec = make_spec(1);
    let placement = make_placement(1);
    let pod = build_reaper_pod("my-sim", "default", &spec, &placement, 0, "node-0", None)
        .unwrap();

    assert_eq!(env_value(&pod, "WREN_JOB_NAME").as_deref(), Some("my-sim"));
}

#[test]
fn test_build_reaper_pod_env_contains_wren_mpi_rank() {
    let spec = make_spec(2);
    let placement = make_placement(2);
    let pod = build_reaper_pod("myjob", "default", &spec, &placement, 1, "node-1", None)
        .unwrap();

    assert_eq!(env_value(&pod, "WREN_MPI_RANK").as_deref(), Some("1"));
}

#[test]
fn test_build_reaper_pod_env_contains_wren_hostfile_content() {
    let spec = make_spec(2);
    let placement = make_placement(2);
    let pod = build_reaper_pod("myjob", "default", &spec, &placement, 0, "node-0", None)
        .unwrap();

    let content = env_value(&pod, "WREN_HOSTFILE_CONTENT").unwrap();
    assert!(content.contains("node-0"));
    assert!(content.contains("node-1"));
}

// -------------------------------------------------------------------------
// build_reaper_pod — MPI hostfile volume
// -------------------------------------------------------------------------

#[test]
fn test_build_reaper_pod_adds_hostfile_volume_when_mpi_configured() {
    let mut spec = make_spec(2);
    spec.mpi = Some(MPISpec {
        implementation: "openmpi".to_string(),
        ssh_auth: false,
        fabric_interface: None,
    });
    let placement = make_placement(2);
    let pod = build_reaper_pod("myjob", "default", &spec, &placement, 0, "node-0", None)
        .unwrap();

    let volumes = &pod.volumes;
    let hostfile_vol = volumes.iter().find(|v| v.name == "hostfile");
    assert!(hostfile_vol.is_some(), "hostfile volume should be present");
    let hv = hostfile_vol.unwrap();
    assert_eq!(hv.config_map.as_deref(), Some("myjob-hostfile"));
    assert!(hv.read_only);
}

#[test]
fn test_build_reaper_pod_omits_hostfile_volume_when_no_mpi() {
    let spec = make_spec(2);
    let placement = make_placement(2);
    let pod = build_reaper_pod("myjob", "default", &spec, &placement, 0, "node-0", None)
        .unwrap();

    let volumes = &pod.volumes;
    let hostfile_vol = volumes.iter().find(|v| v.name == "hostfile");
    assert!(hostfile_vol.is_none(), "hostfile volume should be absent");
}

// -------------------------------------------------------------------------
// build_reaper_pod — user-defined volumes
// -------------------------------------------------------------------------

#[test]
fn test_build_reaper_pod_includes_configmap_volume_from_reaper_spec() {
    let mut spec = make_spec(1);
    spec.reaper = Some(ReaperSpec {
        command: vec!["./app".to_string()],
        volumes: vec![ReaperVolumeSpec {
            name: "training-data".to_string(),
            mount_path: "/data".to_string(),
            read_only: true,
            config_map: Some("my-cm".to_string()),
            secret: None,
            host_path: None,
            empty_dir: false,
        }],
        ..Default::default()
    });
    let placement = make_placement(1);
    let pod = build_reaper_pod("myjob", "default", &spec, &placement, 0, "node-0", None)
        .unwrap();

    let volumes = &pod.volumes;
    let data_vol = volumes.iter().find(|v| v.name == "training-data");
    assert!(data_vol.is_some());
    let dv = data_vol.unwrap();
    assert_eq!(dv.mount_path, "/data");
    assert!(dv.read_only);
    assert_eq!(dv.config_map.as_deref(), Some("my-cm"));
}

#[test]
fn test_build_reaper_pod_includes_secret_volume_from_reaper_spec() {
    let mut spec = make_spec(1);
    spec.reaper = Some(ReaperSpec {
        command: vec!["./app".to_string()],
        volumes: vec![ReaperVolumeSpec {
            name: "creds".to_string(),
            mount_path: "/etc/creds".to_string(),
            read_only: true,
            config_map: None,
            secret: Some("my-secret".to_string()),
            host_path: None,
            empty_dir: false,
        }],
        ..Default::default()
    });
    let placement = make_placement(1);
    let pod = build_reaper_pod("myjob", "default", &spec, &placement, 0, "node-0", None)
        .unwrap();

    let volumes = &pod.volumes;
    let sec_vol = volumes.iter().find(|v| v.name == "creds");
    assert!(sec_vol.is_some());
    assert_eq!(sec_vol.unwrap().secret.as_deref(), Some("my-secret"));
}

#[test]
fn test_build_reaper_pod_includes_host_path_volume_from_reaper_spec() {
    let mut spec = make_spec(1);
    spec.reaper = Some(ReaperSpec {
        command: vec!["./app".to_string()],
        volumes: vec![ReaperVolumeSpec {
            name: "scratch".to_string(),
            mount_path: "/scratch".to_string(),
            read_only: false,
            config_map: None,
            secret: None,
            host_path: Some("/mnt/nvme".to_string()),
            empty_dir: false,
        }],
        ..Default::default()
    });
    let placement = make_placement(1);
    let pod = build_reaper_pod("myjob", "default", &spec, &placement, 0, "node-0", None)
        .unwrap();

    let volumes = &pod.volumes;
    let hp_vol = volumes.iter().find(|v| v.name == "scratch");
    assert!(hp_vol.is_some());
    assert_eq!(hp_vol.unwrap().host_path.as_deref(), Some("/mnt/nvme"));
}

#[test]
fn test_build_reaper_pod_includes_empty_dir_volume_from_reaper_spec() {
    let mut spec = make_spec(1);
    spec.reaper = Some(ReaperSpec {
        command: vec!["./app".to_string()],
        volumes: vec![ReaperVolumeSpec {
            name: "tmpwork".to_string(),
            mount_path: "/tmp/work".to_string(),
            read_only: false,
            config_map: None,
            secret: None,
            host_path: None,
            empty_dir: true,
        }],
        ..Default::default()
    });
    let placement = make_placement(1);
    let pod = build_reaper_pod("myjob", "default", &spec, &placement, 0, "node-0", None)
        .unwrap();

    let volumes = &pod.volumes;
    let ed_vol = volumes.iter().find(|v| v.name == "tmpwork");
    assert!(ed_vol.is_some());
    assert!(ed_vol.unwrap().empty_dir);
}

// -------------------------------------------------------------------------
// build_reaper_pod — optional spec fields: dnsMode, overlayName, workingDir
// -------------------------------------------------------------------------

#[test]
fn test_build_reaper_pod_sets_dns_mode_when_provided() {
    let mut spec = make_spec(1);
    spec.reaper = Some(ReaperSpec {
        command: vec!["./app".to_string()],
        dns_mode: Some("kubernetes".to_string()),
        ..Default::default()
    });
    let placement = make_placement(1);
    let pod = build_reaper_pod("myjob", "default", &spec, &placement, 0, "node-0", None)
        .unwrap();

    assert_eq!(pod.dns_mode.as_deref(), Some("kubernetes"));
}

#[test]
fn test_build_reaper_pod_omits_dns_mode_when_not_provided() {
    let spec = make_spec(1);
    let placement = make_placement(1);
    let pod = build_reaper_pod("myjob", "default", &spec, &placement, 0, "node-0", None)
        .unwrap();

    assert!(pod.dns_mode.is_none());
}

#[test]
fn test_build_reaper_pod_sets_overlay_name_when_provided() {
    let mut spec = make_spec(1);
    spec.reaper = Some(ReaperSpec {
        command: vec!["./app".to_string()],
        overlay_name: Some("shared-team".to_string()),
        ..Default::default()
    });
    let placement = make_placement(1);
    let pod = build_reaper_pod("myjob", "default", &spec, &placement, 0, "node-0", None)
        .unwrap();

    assert_eq!(pod.overlay_name.as_deref(), Some("shared-team"));
}

#[test]
fn test_build_reaper_pod_omits_overlay_name_when_not_provided() {
    let spec = make_spec(1);
    let placement = make_placement(1);
    let pod = build_reaper_pod("myjob", "default", &spec, &placement, 0, "node-0", None)
        .unwrap();

    assert!(pod.overlay_name.is_none());
}

#[test]
fn test_build_reaper_pod_sets_working_dir_when_provided() {
    let mut spec = make_spec(1);
    spec.reaper = Some(ReaperSpec {
        command: vec!["./app".to_string()],
        working_dir: Some("/workspace".to_string()),
        ..Default::default()
    });
    let placement = make_placement(1);
    let pod = build_reaper_pod("myjob", "default", &spec, &placement, 0, "node-0", None)
        .unwrap();

    assert_eq!(pod.working_dir.as_deref(), Some("/workspace"));
}

#[test]
fn test_build_reaper_pod_omits_working_dir_when_not_provided() {
    let spec = make_spec(1);
    let placement = make_placement(1);
    let pod = build_reaper_pod("myjob", "default", &spec, &placement, 0, "node-0", None)
        .unwrap();

    assert!(pod.working_dir.is_none());
}

// -------------------------------------------------------------------------
// build_reaper_pod — spec invariants
// -------------------------------------------------------------------------

#[test]
fn test_build_reaper_pod_restart_policy_is_never() {
    let spec = make_spec(1);
    let placement = make_placement(1);
    let pod = build_reaper_pod("myjob", "default", &spec, &placement, 0, "node-0", None)
        .unwrap();

    assert_eq!(pod.restart_policy, "Never");
}

#[test]
fn test_build_reaper_pod_errors_when_reaper_spec_missing() {
    // WrenJobSpec with no reaper section
    let spec = WrenJobSpec::with_nodes(1);
    let placement = make_placement(1);
    let result = build_reaper_pod("myjob", "default", &spec, &placement, 0, "node-0", None);

    assert!(result.is_err());
}

// -------------------------------------------------------------------------
// build_rank_env — validation
// -------------------------------------------------------------------------

#[test]
fn test_build_rank_env_errors_when_neither_command_nor_script() {
    let mut spec = make_spec(1);
    spec.reaper = Some(ReaperSpec {
        command: vec![],
        script: None,
        ..Default::default()
    });
    let placement = make_placement(1);
    let result = build_rank_env("myjob", &spec, &placement, 0, None);
    assert!(result.is_err());
}

#[test]
fn test_build_rank_env_errors_when_reaper_spec_missing() {
    let spec = WrenJobSpec::with_nodes(1);
    let placement = make_placement(1);
    let result = build_rank_env("myjob", &spec, &placement, 0, None);
    assert!(result.is_err());
}

#[test]
fn test_build_rank_env_succeeds_with_script_and_no_command() {
    let mut spec = make_spec(1);
    spec.reaper = Some(ReaperSpec {
        command: vec![],
        script: Some("echo hi".to_string()),
        ..Default::default()
    });
    let placement = make_placement(1);
    let result = build_rank_env("myjob", &spec, &placement, 0, None);
    assert!(result.is_ok());
}

#[test]
fn test_build_rank_env_user_env_vars_override_defaults() {
    let mut spec = make_spec(1);
    let mut user_env = StringMap::new();
    user_env.insert("CUSTOM_VAR".to_string(), "custom_value".to_string());
    spec.reaper = Some(ReaperSpec {
        command: vec!["./app".to_string()],
        environment: user_env,
        ..Default::default()
    });
    let placement = make_placement(1);
    let env = build_rank_env("myjob", &spec, &placement, 0, None)
        .unwrap();

    assert_eq!(at(&env, "CUSTOM_VAR"), "custom_value");
}

// -------------------------------------------------------------------------
// Launches
// -------------------------------------------------------------------------

fn make_mpi(implementation: &str) -> MPISpec {
    MPISpec {
        implementation: implementation.to_string(),
        ssh_auth: true,
        fabric_interface: None,
    }
}

#[test]
fn test_launch_creates_reaper_pods_for_each_rank() {
    let spec = make_spec(3);
    let user = make_user();
    let plan = plan_launch("rjob", "default", &spec, &make_placement(3), Some(&user));
    assert!(plan.hostfile.is_none());
    assert_eq!(plan.pods.len(), 3);
    assert_eq!(plan.pods[2].node_name, "node-2");
    let launch = plan.outcome.unwrap();
    assert_eq!(launch.resource_ids.len(), 3);
    assert_eq!(launch.message, "created 3 ReaperPod CRDs across 3 nodes");
}

#[test]
fn test_launch_creates_hostfile_for_mpi_job() {
    let mut spec = make_spec(2);
    spec.mpi = Some(make_mpi("openmpi"));
    let plan = plan_launch("mpi-rjob", "default", &spec, &make_placement(2), None);
    let hostfile = plan.hostfile.unwrap();
    assert_eq!(hostfile.metadata.name, "mpi-rjob-hostfile");
    assert_eq!(at(&hostfile.metadata.labels, "wren.giar.dev/job"), "mpi-rjob");
    assert_eq!(at(&hostfile.data, "hostfile"), "node-0 slots=1\nnode-1 slots=1");
    assert_eq!(plan.pods.len(), 2);
    assert!(plan.outcome.is_ok());
}

#[test]
fn reaper_launch_names_its_ranks() {
    let plan = plan_launch("id-rjob", "default", &make_spec(4), &make_placement(4), None);
    let launch = plan.outcome.unwrap();
    assert_eq!(launch.resource_ids.len(), 4);
    assert_eq!(launch.resource_ids[0], "id-rjob-rank-0");
    assert_eq!(launch.resource_ids[3], "id-rjob-rank-3");
    assert_eq!(plan.pods[3].metadata.name, "id-rjob-rank-3");
    assert_eq!(rank_pod_name("id-rjob", 3), "id-rjob-rank-3");
    assert_eq!(rank_selector("id-rjob"), "wren.giar.dev/job=id-rjob");
}

#[test]
fn reaper_launch_without_anything_to_run_fails() {
    let mut spec = WrenJobSpec::with_nodes(2);
    let plan = plan_launch("job", "default", &spec, &make_placement(2), None);
    assert_eq!(plan.pods.len(), 0);
    assert_eq!(
        plan.outcome.unwrap_err(),
        WrenError::ValidationError { reason: "reaper spec required for reaper backend".to_string() }
    );
    spec.reaper = Some(ReaperSpec::default());
    let plan = plan_launch("job", "default", &spec, &make_placement(2), None);
    assert_eq!(
        plan.outcome.unwrap_err(),
        WrenError::ValidationError {
            reason: "reaper spec requires either 'command' or 'script'".to_string()
        }
    );
    assert!(plan_launch("job", "default", &spec, &make_placement(0), None).outcome.is_ok());
}

#[test]
fn mpi_ranks_know_their_launcher_and_place() {
    let mut spec = make_spec(2);
    spec.mpi = Some(make_mpi("cray-mpich"));
    let own = &mut spec.reaper.as_mut().unwrap().environment;
    own.insert("RANK".to_string(), "mine".to_string());
    own.insert("WREN_JOB_NAME".to_string(), "mine".to_string());
    let env = build_rank_env("sim", &spec, &make_placement(2), 1, None).unwrap();
    assert_eq!(at(&env, "RANK"), "1");
    assert_eq!(at(&env, "WORLD_SIZE"), "2");
    assert_eq!(at(&env, "WREN_JOB_NAME"), "sim");
    assert_eq!(at(&env, "WREN_HOSTFILE"), "/tmp/wren-hostfile-sim");
    assert_eq!(at(&env, "MPICH_OFI_STARTUP_CONNECT"), "1");
    assert_eq!(
        at(&env, "WREN_MPI_LAUNCHER"),
        "srun --nodes 2 --ntasks-per-node 1 --hostfile /tmp/wren-hostfile-sim"
    );
    spec.mpi = None;
    let env = build_rank_env("sim", &spec, &make_placement(2), 1, None).unwrap();
    assert_eq!(at(&env, "WREN_JOB_NAME"), "mine");
    assert!(!env.contains_key("WREN_MPI_LAUNCHER"));
}

// -------------------------------------------------------------------------
// Status
// -------------------------------------------------------------------------

#[test]
fn test_status_running() {
    let status = ReaperPodStatus { phase: Some("Running".to_string()), ..Default::default() };
    assert_eq!(job_status(Some(&status)), BackendJobStatus::Running);
}

#[test]
fn test_status_not_found() {
    assert_eq!(job_status(None), BackendJobStatus::NotFound);
}
