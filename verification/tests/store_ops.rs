use job_queue::record::JobStatus;
use job_queue::registry::ExecutionContract;
use job_queue::registry::JobError;
use job_queue::registry::JobBehavior;
use job_queue::registry::PanicBehavior;
use job_queue::registry::Registry;
use job_queue::store::QueueStore;

fn payload(msg: &str) -> String {
    format!("{{\"msg\":\"{}\"}}", msg)
}

#[test]
fn insert_assigns_ascending_ids() {
    let mut store = QueueStore::new();
    let a = store.insert("test_job".to_string(), payload("a")).unwrap();
    let b = store.insert("test_job".to_string(), payload("b")).unwrap();
    let c = store.insert("test_job".to_string(), payload("c")).unwrap();
    assert_eq!(a, 0);
    assert_eq!(b, 1);
    assert_eq!(c, 2);
    assert_eq!(store.len(), 3);
    let rec = store.find(b).unwrap();
    assert_eq!(rec.kind, "test_job");
    assert_eq!(rec.status, JobStatus::Waiting);
}

#[test]
fn fetch_respects_batch_bound() {
    let mut store = QueueStore::new();
    for i in 0..15 {
        store.insert("test_job".to_string(), payload(&format!("{}", i))).unwrap();
    }
    let batch = store.fetch_waiting(10);
    assert_eq!(batch.len(), 10);
    for (i, rec) in batch.iter().enumerate() {
        assert_eq!(rec.id, i as u64);
        assert_eq!(rec.status, JobStatus::Waiting);
    }
}

#[test]
fn fetch_returns_only_waiting() {
    let mut store = QueueStore::new();
    let a = store.insert("test_job".to_string(), payload("a")).unwrap();
    let b = store.insert("test_job".to_string(), payload("b")).unwrap();
    store.set_status_where(&vec![a], None, JobStatus::Dead);
    let batch = store.fetch_waiting(10);
    assert_eq!(batch.len(), 1);
    assert_eq!(batch[0].id, b);
}

#[test]
fn status_guard_skips_mismatched_records() {
    let mut store = QueueStore::new();
    let a = store.insert("test_job".to_string(), payload("a")).unwrap();
    store.set_status_where(&vec![a], Some(JobStatus::Running), JobStatus::Waiting);
    assert_eq!(store.find(a).unwrap().status, JobStatus::Waiting);
    store.set_status_where(&vec![a], Some(JobStatus::Waiting), JobStatus::Running);
    assert_eq!(store.find(a).unwrap().status, JobStatus::Running);
}

#[test]
fn delete_removes_record() {
    let mut store = QueueStore::new();
    let a = store.insert("test_job".to_string(), payload("a")).unwrap();
    store.delete(a);
    assert!(store.find(a).is_none());
    assert_eq!(store.len(), 0);
    assert!(store.fetch_waiting(10).is_empty());
}

#[test]
fn deleted_id_never_reused() {
    let mut store = QueueStore::new();
    let a = store.insert("test_job".to_string(), payload("a")).unwrap();
    store.delete(a);
    let b = store.insert("test_job".to_string(), payload("b")).unwrap();
    assert_ne!(a, b);
    assert!(b > a);
    let batch = store.fetch_waiting(10);
    assert_eq!(batch.len(), 1);
    assert_eq!(batch[0].id, b);
}

#[test]
fn register_duplicate_kind_rejected() {
    let mut reg = Registry::new();
    let first = reg.register(
        "test_job".to_string(),
        true,
        JobBehavior::Succeeds,
        ExecutionContract::new(),
    );
    assert!(first.is_ok());
    let second = reg.register(
        "test_job".to_string(),
        false,
        JobBehavior::Fails,
        ExecutionContract::new(),
    );
    assert!(matches!(second, Err(JobError::DuplicateKind)));
}

#[test]
fn should_run_verdicts() {
    let mut reg = Registry::new();
    reg.register("test_job".to_string(), true, JobBehavior::Succeeds, ExecutionContract::new())
        .unwrap();
    reg.register("lazy_job".to_string(), false, JobBehavior::Succeeds, ExecutionContract::new())
        .unwrap();
    let ok = reg.should_run(&"test_job".to_string(), &payload("hi"));
    assert_eq!(ok, Ok(true));
    let lazy = reg.should_run(&"lazy_job".to_string(), &payload("hi"));
    assert_eq!(lazy, Ok(false));
    let bad = reg.should_run(&"test_job".to_string(), &"definitely not json".to_string());
    assert!(matches!(bad, Err(JobError::DeserializeError)));
    let unknown = reg.should_run(&"unknown_kind".to_string(), &payload("hi"));
    assert!(matches!(unknown, Err(JobError::InvalidKind)));
}

#[test]
fn payload_needs_string_msg_field() {
    let mut reg = Registry::new();
    reg.register("test_job".to_string(), true, JobBehavior::Succeeds, ExecutionContract::new())
        .unwrap();
    let not_a_string = reg.should_run(&"test_job".to_string(), &"{\"msg\": 5}".to_string());
    assert!(matches!(not_a_string, Err(JobError::DeserializeError)));
    let missing = reg.should_run(&"test_job".to_string(), &"{\"other\": \"x\"}".to_string());
    assert!(matches!(missing, Err(JobError::DeserializeError)));
}

#[test]
fn default_contract_fails_panics() {
    let contract = ExecutionContract::new();
    assert_eq!(contract.panic, PanicBehavior::Fail);
}
