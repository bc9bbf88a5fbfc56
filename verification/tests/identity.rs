//! Identifiers of jobs and identities of users.

use wren::string_map::StringMap;
use wren::wren::crd::{UserIdentity, WrenUserSpec};
use wren::wren::job_id::{JobIdAllocator, CONFIGMAP_NAME, COUNTER_KEY};
use wren::wren::user_identity::{extract_username, identify};

#[test]
fn test_configmap_name_is_stable() {
    assert_eq!(CONFIGMAP_NAME, "wren-job-id-counter");
}

#[test]
fn test_counter_key_is_stable() {
    assert_eq!(COUNTER_KEY, "next_job_id");
}

fn allocator(counter: &str) -> JobIdAllocator {
    let mut data = StringMap::new();
    data.insert(COUNTER_KEY.to_string(), counter.to_string());
    JobIdAllocator::new(Some(data))
}

fn stored(allocator: &JobIdAllocator) -> &str {
    allocator.data.as_ref().unwrap().get(COUNTER_KEY).unwrap()
}

#[test]
fn test_allocate_returns_current_and_increments() {
    let mut allocator = allocator("42");
    assert_eq!(allocator.allocate(), 42);
    assert_eq!(stored(&allocator), "43");
}

#[test]
fn test_allocate_creates_configmap_when_missing() {
    let mut allocator = JobIdAllocator::new(None);
    assert_eq!(allocator.allocate(), 1);
    assert_eq!(stored(&allocator), "2");
}

#[test]
fn test_read_counter_falls_back_on_bad_value() {
    assert_eq!(allocator("not-a-number").allocate(), 1);
    assert_eq!(allocator("-3").read_counter(), 1);
    assert_eq!(allocator("18446744073709551616").read_counter(), 1);
    assert_eq!(JobIdAllocator::new(Some(StringMap::new())).read_counter(), 1);
}

#[test]
fn test_read_counter_reads_existing_value() {
    assert_eq!(allocator("100").allocate(), 100);
}

#[test]
fn job_ids_are_sequential_and_other_data_stay() {
    let mut allocator = allocator("7");
    allocator.data.as_mut().unwrap().insert("other".to_string(), "x".to_string());
    assert_eq!(allocator.allocate(), 7);
    assert_eq!(allocator.allocate(), 8);
    assert_eq!(allocator.allocate(), 9);
    assert_eq!(allocator.data.as_ref().unwrap().get("other").unwrap(), "x");
}

// -------------------------------------------------------------------------
// extract_username tests
// -------------------------------------------------------------------------

#[test]
fn test_extract_username_present() {
    let mut annotations = StringMap::new();
    annotations.insert("wren.giar.dev/user".to_string(), "miguel".to_string());
    assert_eq!(
        extract_username(Some(&annotations)),
        Some("miguel".to_string())
    );
}

#[test]
fn test_extract_username_empty() {
    let mut annotations = StringMap::new();
    annotations.insert("wren.giar.dev/user".to_string(), "".to_string());
    assert_eq!(extract_username(Some(&annotations)), None);
}

#[test]
fn test_extract_username_missing_key() {
    let annotations = StringMap::new();
    assert_eq!(extract_username(Some(&annotations)), None);
}

#[test]
fn test_extract_username_no_annotations() {
    assert_eq!(extract_username(None), None);
}

#[test]
fn test_user_identity_fields() {
    let id = UserIdentity {
        username: "miguel".to_string(),
        uid: 1001,
        gid: 1001,
        supplemental_groups: vec![1001, 5000],
        home_dir: Some("/home/miguel".to_string()),
        default_project: Some("climate-sim".to_string()),
    };
    assert_eq!(id.username, "miguel");
    assert_eq!(id.uid, 1001);
    assert_eq!(id.gid, 1001);
    assert_eq!(id.supplemental_groups, vec![1001, 5000]);
    assert_eq!(id.home_dir.as_deref(), Some("/home/miguel"));
    assert_eq!(id.default_project.as_deref(), Some("climate-sim"));
}

fn make_user(uid: u32, gid: u32) -> WrenUserSpec {
    WrenUserSpec {
        uid,
        gid,
        supplemental_groups: vec![2000, 3000],
        home_dir: Some("/home/alice".to_string()),
        default_project: Some("test-project".to_string()),
    }
}

#[test]
fn test_resolve_user_identity_user_found() {
    let identity = identify("alice".to_string(), Some(&make_user(1001, 1002))).unwrap();
    assert_eq!(identity.username, "alice");
    assert_eq!(identity.uid, 1001);
    assert_eq!(identity.gid, 1002);
    assert_eq!(identity.supplemental_groups, vec![2000, 3000]);
    assert_eq!(identity.home_dir.as_deref(), Some("/home/alice"));
    assert_eq!(identity.default_project.as_deref(), Some("test-project"));
}

#[test]
fn test_resolve_user_identity_user_not_found() {
    assert!(identify("bob".to_string(), None).is_none());
}

#[test]
fn test_resolve_user_identity_uid_zero_rejected() {
    assert!(identify("root-user".to_string(), Some(&make_user(0, 0))).is_none());
    assert!(identify("root-group".to_string(), Some(&make_user(1, 0))).is_some());
}
