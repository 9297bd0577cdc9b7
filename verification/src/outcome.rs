//! Outcome handling: interpreting the result the worker pool reports for
//! one job against the job kind's execution contract, and applying the
//! resulting state transition to the queue store.

use vstd::prelude::*;

use crate::record::JobRecord;
use crate::record::JobStatus;
use crate::registry::ExecutionContract;
use crate::registry::JobBehavior;
use crate::registry::PanicBehavior;
use crate::registry::Registry;
use crate::registry::payload_decode_check;
use crate::registry::payload_decodes;
use crate::store::QueueStore;
use crate::store::contains_id;
use crate::store::record_of;
use crate::store::status_matches;
use crate::store::with_status;
use crate::store::lemma_pointwise_per_id;

verus! {

/// The completion classes the worker pool can report for one job. The pool
/// reports exactly one of these per submission, exactly once.
#[derive(Clone, Copy, PartialEq, Eq, Structural, Debug)]
pub enum JobOutcome {
    /// Execution succeeded.
    Success,
    /// `perform` returned a logical error of its own.
    InnerError,
    /// Execution aborted abnormally; the pool contained the fault.
    Panicked,
    /// The payload could not be decoded into the registered type.
    DecodeFailed,
    /// The kind was not registered: a defensive fault, since submission
    /// already rejects unknown kinds synchronously.
    InvalidKind,
}

/// The state transition an outcome demands of the queue store.
#[derive(Clone, Copy, PartialEq, Eq, Structural, Debug)]
pub enum OutcomeAction {
    /// Remove the record: success is recorded by absence, not by a status.
    Delete,
    /// Dead-letter the record.
    Kill,
    /// Return the record to `Waiting` for a later tick.
    Requeue,
    /// Leave the record as it stands.
    Keep,
}

/// Spec: pure dispatch of an outcome against the execution contract.
/// Success deletes the record. A logical error is only logged: the contract
/// governs panics alone, so no state changes. A panic follows the contract.
/// An undecodable payload is killed unconditionally: decoding is
/// deterministic, so a retry could not succeed. An unknown kind at
/// completion time is a defensive fault and changes nothing.
pub open spec fn spec_decide(outcome: JobOutcome, contract: ExecutionContract) -> OutcomeAction {
    match outcome {
        JobOutcome::Success => OutcomeAction::Delete,
        JobOutcome::InnerError => OutcomeAction::Keep,
        JobOutcome::Panicked => if contract.panic == PanicBehavior::Fail {
            OutcomeAction::Kill
        } else {
            OutcomeAction::Requeue
        },
        JobOutcome::DecodeFailed => OutcomeAction::Kill,
        JobOutcome::InvalidKind => OutcomeAction::Keep,
    }
}

/// Dispatch one reported outcome against the execution contract.
pub fn decide(outcome: JobOutcome, contract: ExecutionContract) -> (action: OutcomeAction)
    ensures
        action == spec_decide(outcome, contract),
{
    match outcome {
        JobOutcome::Success => OutcomeAction::Delete,
        JobOutcome::InnerError => OutcomeAction::Keep,
        JobOutcome::Panicked => {
            if contract.panic == PanicBehavior::Fail {
                OutcomeAction::Kill
            } else {
                OutcomeAction::Requeue
            }
        },
        JobOutcome::DecodeFailed => OutcomeAction::Kill,
        JobOutcome::InvalidKind => OutcomeAction::Keep,
    }
}

/// Spec: the outcome that executing `kind` on payload `data` yields: an
/// unregistered kind is the defensive fault, an undecodable payload fails
/// decoding, and otherwise the kind's registered behavior decides.
pub open spec fn spec_execute(reg: Registry, kind: Seq<char>, data: Seq<char>) -> JobOutcome {
    if !reg.spec_registered(kind) {
        JobOutcome::InvalidKind
    } else if !payload_decodes(data) {
        JobOutcome::DecodeFailed
    } else {
        match reg.spec_behavior(kind) {
            JobBehavior::Succeeds => JobOutcome::Success,
            JobBehavior::Fails => JobOutcome::InnerError,
            JobBehavior::Panics => JobOutcome::Panicked,
        }
    }
}

/// The execution step of the worker pool, one submitted job at a time:
/// decode the payload against the registered kind and run it. A behavior
/// that aborts abnormally is reported as `Panicked`, never propagated: the
/// pool isolates the fault and still reports the completion class.
pub fn execute_job(reg: &Registry, kind: &String, data: &String) -> (outcome: JobOutcome)
    requires
        reg.wf(),
    ensures
        outcome == spec_execute(*reg, kind@, data@),
{
    match reg.lookup(kind) {
        None => JobOutcome::InvalidKind,
        Some(entry) => {
            if !payload_decode_check(data) {
                JobOutcome::DecodeFailed
            } else {
                match entry.behavior {
                    JobBehavior::Succeeds => JobOutcome::Success,
                    JobBehavior::Fails => JobOutcome::InnerError,
                    JobBehavior::Panics => JobOutcome::Panicked,
                }
            }
        },
    }
}

/// Spec: a status transition of the single record `id`, guarded by `from`:
/// every identity stays where it was, and only the guarded target record
/// has its status rewritten to `to`.
pub open spec fn status_transition(
    pre: Seq<JobRecord>,
    post: Seq<JobRecord>,
    id: u64,
    from: Option<JobStatus>,
    to: JobStatus,
) -> bool {
    &&& post.len() == pre.len()
    &&& forall|x: u64| contains_id(post, x) <==> contains_id(pre, x)
    &&& contains_id(pre, id) ==> record_of(post, id) == (if status_matches(
        from,
        record_of(pre, id).status,
    ) {
        with_status(record_of(pre, id), to)
    } else {
        record_of(pre, id)
    })
    &&& forall|x: u64|
        x != id && contains_id(pre, x) ==> record_of(post, x) == record_of(pre, x)
}

/// Spec: what applying one outcome's action leaves in the store: deletion
/// removes exactly the target id; a kill dead-letters it unconditionally; a
/// requeue returns it to `Waiting` only out of `Running`; keeping changes
/// nothing.
pub open spec fn apply_post(
    pre: Seq<JobRecord>,
    post: Seq<JobRecord>,
    id: u64,
    action: OutcomeAction,
) -> bool {
    match action {
        OutcomeAction::Delete => {
            &&& !contains_id(post, id)
            &&& forall|x: u64| x != id ==> (contains_id(post, x) <==> contains_id(pre, x))
            &&& forall|x: u64|
                x != id && contains_id(pre, x) ==> record_of(post, x) == record_of(pre, x)
        },
        OutcomeAction::Kill => status_transition(pre, post, id, None, JobStatus::Dead),
        OutcomeAction::Requeue => status_transition(
            pre,
            post,
            id,
            Some(JobStatus::Running),
            JobStatus::Waiting,
        ),
        OutcomeAction::Keep => post == pre,
    }
}

/// The completion callback body: apply the outcome the pool reported for
/// the job with identity `id` to the store, as the execution contract of
/// the job's kind directs.
pub fn apply_outcome(
    store: &mut QueueStore,
    id: u64,
    outcome: JobOutcome,
    contract: ExecutionContract,
)
    requires
        old(store).wf(),
    ensures
        final(store).wf(),
        final(store).spec_next_id() == old(store).spec_next_id(),
        apply_post(old(store)@, final(store)@, id, spec_decide(outcome, contract)),
{
    let action = decide(outcome, contract);
    match action {
        OutcomeAction::Delete => {
            store.delete(id);
        },
        OutcomeAction::Kill => {
            let mut ids: Vec<u64> = Vec::new();
            ids.push(id);
            store.set_status_where(&ids, None, JobStatus::Dead);
            proof {
                lemma_status_rewrite(old(store)@, store@, ids@, None, JobStatus::Dead, id);
            }
        },
        OutcomeAction::Requeue => {
            let mut ids: Vec<u64> = Vec::new();
            ids.push(id);
            store.set_status_where(&ids, Some(JobStatus::Running), JobStatus::Waiting);
            proof {
                lemma_status_rewrite(
                    old(store)@,
                    store@,
                    ids@,
                    Some(JobStatus::Running),
                    JobStatus::Waiting,
                    id,
                );
            }
        },
        OutcomeAction::Keep => {
        },
    }
}

/// A pointwise status rewrite over a singleton id list is exactly the
/// guarded single-record transition of that id.
#[verifier::rlimit(100)]
#[verifier::spinoff_prover]
proof fn lemma_status_rewrite(
    pre: Seq<JobRecord>,
    post: Seq<JobRecord>,
    ids: Seq<u64>,
    from: Option<JobStatus>,
    to: JobStatus,
    id: u64,
)
    requires
        crate::store::ids_ascending(pre),
        ids == seq![id],
        post.len() == pre.len(),
        forall|i: int|
            0 <= i < pre.len() ==> post[i] == (if ids.contains(pre[i].id) && status_matches(
                from,
                pre[i].status,
            ) {
                with_status(pre[i], to)
            } else {
                pre[i]
            }),
    ensures
        status_transition(pre, post, id, from, to),
{
    assert forall|x: u64| ids.contains(x) <==> x == id by {
        assert(ids[0] == id);
        if ids.contains(x) {
            let k = choose|k: int| 0 <= k < ids.len() && ids[k] == x;
            assert(k == 0);
        }
    }
    assert forall|i: int| 0 <= i < pre.len() implies post[i].id == pre[i].id by {
        assert(post[i] == (if ids.contains(pre[i].id) && status_matches(from, pre[i].status) {
            with_status(pre[i], to)
        } else {
            pre[i]
        }));
    }
    lemma_pointwise_per_id(pre, post);
    if contains_id(pre, id) {
        crate::store::lemma_contains_id_witness(pre, id);
        let i = crate::store::idx_of_id(pre, id);
        assert(0 <= i < pre.len() && pre[i].id == id);
        assert(record_of(pre, id) == pre[i]);
        assert(record_of(post, id) == post[i]);
        assert(ids.contains(pre[i].id));
    }
    assert forall|x: u64| x != id && contains_id(pre, x) implies record_of(post, x) == record_of(
        pre,
        x,
    ) by {
        crate::store::lemma_contains_id_witness(pre, x);
        let i = crate::store::idx_of_id(pre, x);
        assert(0 <= i < pre.len() && pre[i].id == x);
        assert(!ids.contains(pre[i].id));
        assert(post[i] == pre[i]);
        assert(record_of(pre, x) == pre[i]);
        assert(record_of(post, x) == post[i]);
    }
}

} // verus!
