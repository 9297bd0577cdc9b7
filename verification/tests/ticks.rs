use job_queue::collector::collect_tick;
use job_queue::collector::run_tick;
use job_queue::collector::DEFAULT_BATCH_SIZE;
use job_queue::outcome::apply_outcome;
use job_queue::outcome::decide;
use job_queue::outcome::execute_job;
use job_queue::outcome::JobOutcome;
use job_queue::outcome::OutcomeAction;
use job_queue::record::JobStatus;
use job_queue::registry::ExecutionContract;
use job_queue::registry::JobBehavior;
use job_queue::registry::PanicBehavior;
use job_queue::registry::Registry;
use job_queue::store::QueueStore;

fn payload(msg: &str) -> String {
    format!("{{\"msg\":\"{}\"}}", msg)
}

fn test_job_registry() -> Registry {
    let mut reg = Registry::new();
    reg.register("test_job".to_string(), true, JobBehavior::Succeeds, ExecutionContract::new())
        .unwrap();
    reg
}

#[test]
fn three_valid_jobs_claim_then_delete() {
    let mut store = QueueStore::new();
    let reg = test_job_registry();
    for msg in ["red", "green", "blue"] {
        store.insert("test_job".to_string(), payload(msg)).unwrap();
    }
    let subs = collect_tick(&mut store, &reg, DEFAULT_BATCH_SIZE);
    assert_eq!(subs.len(), 3);
    for id in 0..3u64 {
        assert_eq!(store.find(id).unwrap().status, JobStatus::Running);
    }
    for sub in &subs {
        let outcome = execute_job(&reg, &sub.kind, &sub.data);
        assert_eq!(outcome, JobOutcome::Success);
        let contract = reg.lookup(&sub.kind).unwrap().contract;
        apply_outcome(&mut store, sub.id, outcome, contract);
    }
    assert_eq!(store.len(), 0);
}

#[test]
fn run_tick_deletes_successful_jobs() {
    let mut store = QueueStore::new();
    let reg = test_job_registry();
    for msg in ["red", "green", "blue"] {
        store.insert("test_job".to_string(), payload(msg)).unwrap();
    }
    run_tick(&mut store, &reg, DEFAULT_BATCH_SIZE);
    assert_eq!(store.len(), 0);
    assert!(store.fetch_waiting(DEFAULT_BATCH_SIZE).is_empty());
}

#[test]
fn unknown_kind_dead_lettered_without_submission() {
    let mut store = QueueStore::new();
    let reg = test_job_registry();
    let id = store.insert("unknown_kind".to_string(), payload("x")).unwrap();
    let subs = collect_tick(&mut store, &reg, DEFAULT_BATCH_SIZE);
    assert!(subs.is_empty());
    assert_eq!(store.find(id).unwrap().status, JobStatus::Dead);
}

#[test]
fn malformed_payload_dead_and_stays_dead() {
    let mut store = QueueStore::new();
    let reg = test_job_registry();
    let id = store.insert("test_job".to_string(), "definitely not json".to_string()).unwrap();
    run_tick(&mut store, &reg, DEFAULT_BATCH_SIZE);
    assert_eq!(store.find(id).unwrap().status, JobStatus::Dead);
    run_tick(&mut store, &reg, DEFAULT_BATCH_SIZE);
    assert_eq!(store.find(id).unwrap().status, JobStatus::Dead);
    assert!(store.fetch_waiting(DEFAULT_BATCH_SIZE).is_empty());
}

#[test]
fn panicking_job_with_fail_contract_dies() {
    let mut store = QueueStore::new();
    let mut reg = Registry::new();
    reg.register(
        "boom".to_string(),
        true,
        JobBehavior::Panics,
        ExecutionContract { panic: PanicBehavior::Fail },
    ).unwrap();
    let id = store.insert("boom".to_string(), payload("x")).unwrap();
    run_tick(&mut store, &reg, DEFAULT_BATCH_SIZE);
    assert_eq!(store.find(id).unwrap().status, JobStatus::Dead);
}

#[test]
fn panicking_job_with_retry_contract_requeues() {
    let mut store = QueueStore::new();
    let mut reg = Registry::new();
    reg.register(
        "boom".to_string(),
        true,
        JobBehavior::Panics,
        ExecutionContract { panic: PanicBehavior::Retry },
    ).unwrap();
    let id = store.insert("boom".to_string(), payload("x")).unwrap();
    run_tick(&mut store, &reg, DEFAULT_BATCH_SIZE);
    assert_eq!(store.find(id).unwrap().status, JobStatus::Waiting);
    let refetched = store.fetch_waiting(DEFAULT_BATCH_SIZE);
    assert_eq!(refetched.len(), 1);
    assert_eq!(refetched[0].id, id);
    run_tick(&mut store, &reg, DEFAULT_BATCH_SIZE);
    assert_eq!(store.find(id).unwrap().status, JobStatus::Waiting);
}

#[test]
fn inner_error_is_only_logged() {
    let mut store = QueueStore::new();
    let mut reg = Registry::new();
    reg.register("flaky".to_string(), true, JobBehavior::Fails, ExecutionContract::new())
        .unwrap();
    let id = store.insert("flaky".to_string(), payload("x")).unwrap();
    run_tick(&mut store, &reg, DEFAULT_BATCH_SIZE);
    assert_eq!(store.find(id).unwrap().status, JobStatus::Running);
}

#[test]
fn ineligible_job_left_waiting() {
    let mut store = QueueStore::new();
    let mut reg = Registry::new();
    reg.register("lazy_job".to_string(), false, JobBehavior::Succeeds, ExecutionContract::new())
        .unwrap();
    let id = store.insert("lazy_job".to_string(), payload("x")).unwrap();
    let subs = collect_tick(&mut store, &reg, DEFAULT_BATCH_SIZE);
    assert!(subs.is_empty());
    assert_eq!(store.find(id).unwrap().status, JobStatus::Waiting);
}

#[test]
fn tick_without_waiting_jobs_is_noop() {
    let mut store = QueueStore::new();
    let mut reg = test_job_registry();
    reg.register("flaky".to_string(), true, JobBehavior::Fails, ExecutionContract::new())
        .unwrap();
    let dead = store.insert("unknown_kind".to_string(), payload("x")).unwrap();
    let running = store.insert("flaky".to_string(), payload("y")).unwrap();
    run_tick(&mut store, &reg, DEFAULT_BATCH_SIZE);
    assert_eq!(store.find(dead).unwrap().status, JobStatus::Dead);
    assert_eq!(store.find(running).unwrap().status, JobStatus::Running);
    let before = store.len();
    run_tick(&mut store, &reg, DEFAULT_BATCH_SIZE);
    assert_eq!(store.len(), before);
    assert_eq!(store.find(dead).unwrap().status, JobStatus::Dead);
    assert_eq!(store.find(running).unwrap().status, JobStatus::Running);
}

#[test]
fn succeeded_id_never_refetched() {
    let mut store = QueueStore::new();
    let reg = test_job_registry();
    let done = store.insert("test_job".to_string(), payload("a")).unwrap();
    run_tick(&mut store, &reg, DEFAULT_BATCH_SIZE);
    assert!(store.find(done).is_none());
    let fresh = store.insert("test_job".to_string(), payload("b")).unwrap();
    assert!(fresh > done);
    let batch = store.fetch_waiting(DEFAULT_BATCH_SIZE);
    assert_eq!(batch.len(), 1);
    assert_eq!(batch[0].id, fresh);
}

#[test]
fn batch_bound_holds_across_ticks() {
    let mut store = QueueStore::new();
    let reg = test_job_registry();
    for i in 0..25 {
        store.insert("test_job".to_string(), payload(&format!("{}", i))).unwrap();
    }
    run_tick(&mut store, &reg, DEFAULT_BATCH_SIZE);
    assert_eq!(store.len(), 15);
    run_tick(&mut store, &reg, DEFAULT_BATCH_SIZE);
    assert_eq!(store.len(), 5);
    run_tick(&mut store, &reg, DEFAULT_BATCH_SIZE);
    assert_eq!(store.len(), 0);
}

#[test]
fn decide_maps_outcomes_to_actions() {
    let fail = ExecutionContract { panic: PanicBehavior::Fail };
    let retry = ExecutionContract { panic: PanicBehavior::Retry };
    assert_eq!(decide(JobOutcome::Success, fail), OutcomeAction::Delete);
    assert_eq!(decide(JobOutcome::InnerError, fail), OutcomeAction::Keep);
    assert_eq!(decide(JobOutcome::Panicked, fail), OutcomeAction::Kill);
    assert_eq!(decide(JobOutcome::Panicked, retry), OutcomeAction::Requeue);
    assert_eq!(decide(JobOutcome::DecodeFailed, retry), OutcomeAction::Kill);
    assert_eq!(decide(JobOutcome::InvalidKind, fail), OutcomeAction::Keep);
}
