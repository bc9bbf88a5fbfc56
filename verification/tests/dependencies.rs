//! Dependencies between jobs, and job arrays.

use std::collections::HashSet;
use wren::model::crd::{DependencyType, JobDependency};
use wren::model::error::BuboError;
use wren::model::types::JobState;
use wren::scheduler::dependencies::{DependencyResolver, DependencyStatus};
use wren::scheduler::job_array::{ExpandedJob, JobArraySpec};


// ------------------------------------------------------------------
// Helper
// ------------------------------------------------------------------

fn reason_of(error: BuboError) -> String {
    match error {
        BuboError::ValidationError { reason } => reason,
        other => panic!("expected ValidationError, got {:?}", other),
    }
}

fn dep(dep_type: DependencyType, job: &str) -> JobDependency {
    JobDependency { dep_type, job: job.to_string() }
}

// ------------------------------------------------------------------
// DependencyResolver — registration and basic checks
// ------------------------------------------------------------------

#[test]
fn test_no_deps_is_satisfied() {
    let mut resolver = DependencyResolver::new();
    resolver.register_job("job-a", vec![]);
    assert_eq!(resolver.check_dependencies("job-a"), DependencyStatus::Satisfied);
}

#[test]
fn test_unknown_job_is_satisfied() {
    let resolver = DependencyResolver::new();
    // A job that was never registered has no deps → Satisfied.
    assert_eq!(resolver.check_dependencies("ghost"), DependencyStatus::Satisfied);
}

// ------------------------------------------------------------------
// AfterOk
// ------------------------------------------------------------------

#[test]
fn test_after_ok_waits_while_pending() {
    let mut resolver = DependencyResolver::new();
    resolver.register_job("dep-job", vec![]);
    resolver.update_job_state("dep-job", JobState::Pending);
    resolver.register_job("my-job", vec![dep(DependencyType::AfterOk, "dep-job")]);

    assert_eq!(
        resolver.check_dependencies("my-job"),
        DependencyStatus::Waiting { pending_deps: vec!["dep-job".to_string()] }
    );
}

#[test]
fn test_after_ok_satisfied_on_succeeded() {
    let mut resolver = DependencyResolver::new();
    resolver.register_job("dep-job", vec![]);
    resolver.update_job_state("dep-job", JobState::Succeeded);
    resolver.register_job("my-job", vec![dep(DependencyType::AfterOk, "dep-job")]);

    assert_eq!(resolver.check_dependencies("my-job"), DependencyStatus::Satisfied);
}

#[test]
fn test_after_ok_fails_when_dep_failed() {
    let mut resolver = DependencyResolver::new();
    resolver.register_job("dep-job", vec![]);
    resolver.update_job_state("dep-job", JobState::Failed);
    resolver.register_job("my-job", vec![dep(DependencyType::AfterOk, "dep-job")]);

    match resolver.check_dependencies("my-job") {
        DependencyStatus::Failed { reason } => {
            assert!(reason.contains("dep-job"));
            assert!(reason.contains("afterOk"));
        }
        other => panic!("expected Failed, got {:?}", other),
    }
}

#[test]
fn test_after_ok_fails_when_dep_cancelled() {
    let mut resolver = DependencyResolver::new();
    resolver.update_job_state("dep-job", JobState::Cancelled);
    resolver.register_job("my-job", vec![dep(DependencyType::AfterOk, "dep-job")]);

    assert!(matches!(resolver.check_dependencies("my-job"), DependencyStatus::Failed { .. }));
}

#[test]
fn test_after_ok_fails_when_dep_walltime_exceeded() {
    let mut resolver = DependencyResolver::new();
    resolver.update_job_state("dep-job", JobState::WalltimeExceeded);
    resolver.register_job("my-job", vec![dep(DependencyType::AfterOk, "dep-job")]);

    assert!(matches!(resolver.check_dependencies("my-job"), DependencyStatus::Failed { .. }));
}

// ------------------------------------------------------------------
// AfterAny
// ------------------------------------------------------------------

#[test]
fn test_after_any_satisfied_on_succeeded() {
    let mut resolver = DependencyResolver::new();
    resolver.update_job_state("dep-job", JobState::Succeeded);
    resolver.register_job("my-job", vec![dep(DependencyType::AfterAny, "dep-job")]);

    assert_eq!(resolver.check_dependencies("my-job"), DependencyStatus::Satisfied);
}

#[test]
fn test_after_any_satisfied_on_failed() {
    let mut resolver = DependencyResolver::new();
    resolver.update_job_state("dep-job", JobState::Failed);
    resolver.register_job("my-job", vec![dep(DependencyType::AfterAny, "dep-job")]);

    assert_eq!(resolver.check_dependencies("my-job"), DependencyStatus::Satisfied);
}

#[test]
fn test_after_any_satisfied_on_cancelled() {
    let mut resolver = DependencyResolver::new();
    resolver.update_job_state("dep-job", JobState::Cancelled);
    resolver.register_job("my-job", vec![dep(DependencyType::AfterAny, "dep-job")]);

    assert_eq!(resolver.check_dependencies("my-job"), DependencyStatus::Satisfied);
}

#[test]
fn test_after_any_waits_while_running() {
    let mut resolver = DependencyResolver::new();
    resolver.update_job_state("dep-job", JobState::Running);
    resolver.register_job("my-job", vec![dep(DependencyType::AfterAny, "dep-job")]);

    assert!(matches!(
        resolver.check_dependencies("my-job"),
        DependencyStatus::Waiting { .. }
    ));
}

// ------------------------------------------------------------------
// AfterNotOk
// ------------------------------------------------------------------

#[test]
fn test_after_not_ok_satisfied_on_failed() {
    let mut resolver = DependencyResolver::new();
    resolver.update_job_state("dep-job", JobState::Failed);
    resolver.register_job("my-job", vec![dep(DependencyType::AfterNotOk, "dep-job")]);

    assert_eq!(resolver.check_dependencies("my-job"), DependencyStatus::Satisfied);
}

#[test]
fn test_after_not_ok_fails_when_dep_succeeded() {
    let mut resolver = DependencyResolver::new();
    resolver.update_job_state("dep-job", JobState::Succeeded);
    resolver.register_job("my-job", vec![dep(DependencyType::AfterNotOk, "dep-job")]);

    match resolver.check_dependencies("my-job") {
        DependencyStatus::Failed { reason } => {
            assert!(reason.contains("dep-job"));
            assert!(reason.contains("afterNotOk"));
        }
        other => panic!("expected Failed, got {:?}", other),
    }
}

#[test]
fn test_after_not_ok_waits_while_scheduling() {
    let mut resolver = DependencyResolver::new();
    resolver.update_job_state("dep-job", JobState::Scheduling);
    resolver.register_job("my-job", vec![dep(DependencyType::AfterNotOk, "dep-job")]);

    assert!(matches!(
        resolver.check_dependencies("my-job"),
        DependencyStatus::Waiting { .. }
    ));
}

// ------------------------------------------------------------------
// Multiple dependencies
// ------------------------------------------------------------------

#[test]
fn test_multiple_deps_all_satisfied() {
    let mut resolver = DependencyResolver::new();
    resolver.update_job_state("a", JobState::Succeeded);
    resolver.update_job_state("b", JobState::Failed);
    resolver.register_job(
        "c",
        vec![
            dep(DependencyType::AfterOk, "a"),
            dep(DependencyType::AfterNotOk, "b"),
        ],
    );

    assert_eq!(resolver.check_dependencies("c"), DependencyStatus::Satisfied);
}

#[test]
fn test_multiple_deps_one_pending() {
    let mut resolver = DependencyResolver::new();
    resolver.update_job_state("a", JobState::Succeeded);
    resolver.update_job_state("b", JobState::Running);
    resolver.register_job(
        "c",
        vec![
            dep(DependencyType::AfterOk, "a"),
            dep(DependencyType::AfterAny, "b"),
        ],
    );

    match resolver.check_dependencies("c") {
        DependencyStatus::Waiting { pending_deps } => {
            assert_eq!(pending_deps, vec!["b".to_string()]);
        }
        other => panic!("expected Waiting, got {:?}", other),
    }
}

// ------------------------------------------------------------------
// Unknown dependency job (state not yet set)
// ------------------------------------------------------------------

#[test]
fn test_unknown_dep_job_treated_as_waiting() {
    let mut resolver = DependencyResolver::new();
    // "dep-job" is never registered or updated — no state entry.
    resolver.register_job("my-job", vec![dep(DependencyType::AfterOk, "dep-job")]);

    assert!(matches!(
        resolver.check_dependencies("my-job"),
        DependencyStatus::Waiting { .. }
    ));
}

// ------------------------------------------------------------------
// ready_jobs
// ------------------------------------------------------------------

#[test]
fn test_ready_jobs() {
    let mut resolver = DependencyResolver::new();
    resolver.register_job("no-deps", vec![]);
    resolver.update_job_state("a", JobState::Succeeded);
    resolver.register_job("after-a", vec![dep(DependencyType::AfterOk, "a")]);
    resolver.update_job_state("b", JobState::Running);
    resolver.register_job("after-b", vec![dep(DependencyType::AfterOk, "b")]);

    let mut ready = resolver.ready_jobs();
    ready.sort();
    assert_eq!(ready, vec!["after-a".to_string(), "no-deps".to_string()]);
}

// ------------------------------------------------------------------
// Cycle detection
// ------------------------------------------------------------------

#[test]
fn test_no_cycle_linear_chain() {
    let mut resolver = DependencyResolver::new();
    resolver.register_job("a", vec![]);
    resolver.register_job("b", vec![dep(DependencyType::AfterOk, "a")]);
    resolver.register_job("c", vec![dep(DependencyType::AfterOk, "b")]);

    assert!(resolver.validate_no_cycles().is_ok());
}

#[test]
fn test_cycle_direct() {
    let mut resolver = DependencyResolver::new();
    // a depends on b AND b depends on a → cycle.
    resolver.register_job("a", vec![dep(DependencyType::AfterOk, "b")]);
    resolver.register_job("b", vec![dep(DependencyType::AfterOk, "a")]);

    let result = resolver.validate_no_cycles();
    assert!(result.is_err());
    let err_msg = reason_of(result.unwrap_err());
    assert!(err_msg.contains("cycle"), "expected 'cycle' in: {}", err_msg);
}

#[test]
fn test_self_dependency_is_cycle() {
    let mut resolver = DependencyResolver::new();
    resolver.register_job("a", vec![dep(DependencyType::AfterOk, "a")]);

    assert!(resolver.validate_no_cycles().is_err());
}

#[test]
fn test_cycle_three_nodes() {
    let mut resolver = DependencyResolver::new();
    resolver.register_job("a", vec![dep(DependencyType::AfterOk, "c")]);
    resolver.register_job("b", vec![dep(DependencyType::AfterOk, "a")]);
    resolver.register_job("c", vec![dep(DependencyType::AfterOk, "b")]);

    assert!(resolver.validate_no_cycles().is_err());
}

// ------------------------------------------------------------------
// remove_job
// ------------------------------------------------------------------

#[test]
fn test_remove_job() {
    let mut resolver = DependencyResolver::new();
    resolver.register_job("a", vec![]);
    resolver.update_job_state("a", JobState::Succeeded);
    resolver.register_job("b", vec![dep(DependencyType::AfterOk, "a")]);

    // b is ready because a succeeded.
    assert_eq!(resolver.check_dependencies("b"), DependencyStatus::Satisfied);

    resolver.remove_job("a");

    // After removal a's state is gone; b now sees unknown dep → Waiting.
    assert!(matches!(
        resolver.check_dependencies("b"),
        DependencyStatus::Waiting { .. }
    ));
}

// ------------------------------------------------------------------
// JobArraySpec — parsing
// ------------------------------------------------------------------

#[test]
fn test_parse_simple_range() {
    let spec = JobArraySpec::parse("0-99").unwrap();
    assert_eq!(spec.start, 0);
    assert_eq!(spec.end, 99);
    assert_eq!(spec.step, 1);
    assert_eq!(spec.max_concurrent, None);
}

#[test]
fn test_parse_range_with_step() {
    let spec = JobArraySpec::parse("1-10:2").unwrap();
    assert_eq!(spec.start, 1);
    assert_eq!(spec.end, 10);
    assert_eq!(spec.step, 2);
    assert_eq!(spec.max_concurrent, None);
}

#[test]
fn test_parse_range_with_max_concurrent() {
    let spec = JobArraySpec::parse("0-99%5").unwrap();
    assert_eq!(spec.start, 0);
    assert_eq!(spec.end, 99);
    assert_eq!(spec.step, 1);
    assert_eq!(spec.max_concurrent, Some(5));
}

#[test]
fn test_parse_range_with_step_and_max_concurrent() {
    let spec = JobArraySpec::parse("1-10:2%3").unwrap();
    assert_eq!(spec.start, 1);
    assert_eq!(spec.end, 10);
    assert_eq!(spec.step, 2);
    assert_eq!(spec.max_concurrent, Some(3));
}

#[test]
fn test_parse_error_missing_dash() {
    assert!(JobArraySpec::parse("099").is_err());
}

#[test]
fn test_parse_error_end_before_start() {
    assert!(JobArraySpec::parse("10-5").is_err());
}

#[test]
fn test_parse_error_zero_step() {
    assert!(JobArraySpec::parse("0-9:0").is_err());
}

#[test]
fn test_parse_error_zero_max_concurrent() {
    assert!(JobArraySpec::parse("0-9%0").is_err());
}

// ------------------------------------------------------------------
// JobArraySpec — task_count and expand
// ------------------------------------------------------------------

#[test]
fn test_task_count_simple() {
    let spec = JobArraySpec::parse("0-99").unwrap();
    assert_eq!(spec.task_count(), 100);
}

#[test]
fn test_task_count_with_step() {
    // 1, 3, 5, 7, 9 → 5 tasks
    let spec = JobArraySpec::parse("1-9:2").unwrap();
    assert_eq!(spec.task_count(), 5);
}

#[test]
fn test_task_count_single_element() {
    let spec = JobArraySpec::parse("5-5").unwrap();
    assert_eq!(spec.task_count(), 1);
}

#[test]
fn test_expand_simple() {
    let spec = JobArraySpec::parse("0-2").unwrap();
    let jobs = spec.expand("my-job");
    assert_eq!(jobs.len(), 3);
    assert_eq!(jobs[0], ExpandedJob { name: "my-job_0".to_string(), array_index: 0, parent_name: "my-job".to_string() });
    assert_eq!(jobs[1], ExpandedJob { name: "my-job_1".to_string(), array_index: 1, parent_name: "my-job".to_string() });
    assert_eq!(jobs[2], ExpandedJob { name: "my-job_2".to_string(), array_index: 2, parent_name: "my-job".to_string() });
}

#[test]
fn test_expand_with_step() {
    let spec = JobArraySpec::parse("1-9:2").unwrap();
    let jobs = spec.expand("sim");
    let indices: Vec<u32> = jobs.iter().map(|j| j.array_index).collect();
    assert_eq!(indices, vec![1, 3, 5, 7, 9]);
    assert!(jobs.iter().all(|j| j.parent_name == "sim"));
}

#[test]
fn test_expand_names_formatted_correctly() {
    let spec = JobArraySpec::parse("0-99").unwrap();
    let jobs = spec.expand("wave-sim");
    assert_eq!(jobs[0].name, "wave-sim_0");
    assert_eq!(jobs[99].name, "wave-sim_99");
}

#[test]
fn test_expand_preserves_max_concurrent_in_spec() {
    // max_concurrent is stored on the spec but not applied during expand —
    // the scheduler layer enforces it. Verify the field round-trips.
    let spec = JobArraySpec::parse("0-9%3").unwrap();
    assert_eq!(spec.max_concurrent, Some(3));
    let jobs = spec.expand("job");
    // All 10 are expanded; the scheduler decides how many to submit at once.
    assert_eq!(jobs.len(), 10);
}

// ------------------------------------------------------------------
// Permanent failure short-circuit (first failure wins)
// ------------------------------------------------------------------

#[test]
fn test_failed_dep_short_circuits_before_waiting_dep() {
    let mut resolver = DependencyResolver::new();
    // a failed (AfterOk → permanent failure) and b is still running (pending).
    resolver.update_job_state("a", JobState::Failed);
    resolver.update_job_state("b", JobState::Running);
    resolver.register_job(
        "c",
        vec![
            dep(DependencyType::AfterOk, "a"), // permanent failure
            dep(DependencyType::AfterAny, "b"), // would be waiting
        ],
    );

    // The first dep causes an immediate Failed return.
    assert!(matches!(resolver.check_dependencies("c"), DependencyStatus::Failed { .. }));
}

// ------------------------------------------------------------------
// HashSet deduplication in ready_jobs (no duplicates from HashMap iter)
// ------------------------------------------------------------------

#[test]
fn test_ready_jobs_no_duplicates() {
    let mut resolver = DependencyResolver::new();
    resolver.register_job("j1", vec![]);
    resolver.register_job("j2", vec![]);

    let ready = resolver.ready_jobs();
    let unique: HashSet<_> = ready.iter().cloned().collect();
    assert_eq!(ready.len(), unique.len());
}
