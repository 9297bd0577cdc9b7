//! The collector: one iteration per tick. A tick fetches a bounded batch of
//! waiting records in ascending id order, evaluates eligibility through the
//! registry, claims the eligible subset, dead-letters what cannot even be
//! submitted, and hands the submitted records to the worker pool; the
//! completion callbacks then apply each reported outcome to the store.

use vstd::prelude::*;

use crate::record::JobRecord;
use crate::record::JobStatus;
use crate::registry::ExecutionContract;
use crate::registry::PanicBehavior;
use crate::registry::Registry;
use crate::registry::payload_decode_check;
use crate::registry::payload_decodes;
use crate::store::QueueStore;
use crate::store::contains_id;
use crate::store::fetch_spec;
use crate::store::ids_ascending;
use crate::store::record_of;
use crate::store::waiting_records;
use crate::store::with_status;
use crate::store::lemma_fetch_props;
use crate::store::lemma_pointwise_per_id;
use crate::outcome::JobOutcome;
use crate::outcome::OutcomeAction;
use crate::outcome::apply_outcome;
use crate::outcome::apply_post;
use crate::outcome::execute_job;
use crate::outcome::spec_decide;

verus! {

/// How many waiting records one tick fetches at most.
pub const DEFAULT_BATCH_SIZE: usize = 10;

/// The fixed collector period, in seconds: the loop polls at one hertz.
pub const POLL_PERIOD_SECS: u64 = 1;

/// Spec: the record is claimed by the tick that fetches it: its kind is
/// registered, its payload decodes, and its kind's eligibility verdict says
/// to run it.
pub open spec fn tick_claimed(r: JobRecord, reg: Registry) -> bool {
    reg.spec_registered(r.kind@) && payload_decodes(r.data@) && reg.spec_runs(r.kind@)
}

/// Spec: the record cannot even be submitted: its kind is not registered,
/// so submission is rejected synchronously and the record is dead-lettered
/// by the same tick.
pub open spec fn tick_rejected(r: JobRecord, reg: Registry) -> bool {
    !reg.spec_registered(r.kind@)
}

/// Spec: the record is handed to the worker pool: its kind is registered,
/// and either it was claimed, or its payload does not decode, in which case
/// the pool reports the decode failure through the completion callback. A
/// record whose eligibility verdict is negative is neither claimed nor
/// submitted: it simply stays `Waiting` for a later tick.
pub open spec fn tick_submitted(r: JobRecord, reg: Registry) -> bool {
    reg.spec_registered(r.kind@) && (!payload_decodes(r.data@) || reg.spec_runs(r.kind@))
}

/// Spec: the status a fetched record holds when the collect phase is done,
/// before any completion callback has fired.
pub open spec fn collect_status(r: JobRecord, reg: Registry) -> JobStatus {
    if tick_rejected(r, reg) {
        JobStatus::Dead
    } else if tick_claimed(r, reg) {
        JobStatus::Running
    } else {
        JobStatus::Waiting
    }
}

/// Spec: the subsequence of a fetched batch that the tick submits to the
/// worker pool, in batch order.
pub open spec fn submissions_of(batch: Seq<JobRecord>, reg: Registry) -> Seq<JobRecord>
    decreases batch.len(),
{
    if batch.len() == 0 {
        Seq::empty()
    } else {
        let rest = submissions_of(batch.drop_last(), reg);
        if tick_submitted(batch.last(), reg) {
            rest.push(batch.last())
        } else {
            rest
        }
    }
}

/// Spec: the ids of the batch records the tick claims, in batch order.
pub open spec fn claimed_ids_of(batch: Seq<JobRecord>, reg: Registry) -> Seq<u64>
    decreases batch.len(),
{
    if batch.len() == 0 {
        Seq::empty()
    } else {
        let rest = claimed_ids_of(batch.drop_last(), reg);
        if tick_claimed(batch.last(), reg) {
            rest.push(batch.last().id)
        } else {
            rest
        }
    }
}

/// Spec: the ids of the batch records whose submission is rejected, in
/// batch order.
pub open spec fn dead_ids_of(batch: Seq<JobRecord>, reg: Registry) -> Seq<u64>
    decreases batch.len(),
{
    if batch.len() == 0 {
        Seq::empty()
    } else {
        let rest = dead_ids_of(batch.drop_last(), reg);
        if tick_rejected(batch.last(), reg) {
            rest.push(batch.last().id)
        } else {
            rest
        }
    }
}

/// Spec: some record of `batch` has identity `x` and is claimed.
pub open spec fn batch_has_claimed(batch: Seq<JobRecord>, reg: Registry, x: u64) -> bool {
    exists|k: int| 0 <= k < batch.len() && (#[trigger] batch[k]).id == x && tick_claimed(batch[k], reg)
}

/// Spec: some record of `batch` has identity `x` and is rejected.
pub open spec fn batch_has_rejected(batch: Seq<JobRecord>, reg: Registry, x: u64) -> bool {
    exists|k: int| 0 <= k < batch.len() && (#[trigger] batch[k]).id == x && tick_rejected(batch[k], reg)
}

/// One more batch record extends the per-tick id lists and the submission
/// list exactly as its own classification says.
proof fn lemma_tick_lists_snoc(batch: Seq<JobRecord>, r: JobRecord, reg: Registry)
    ensures
        claimed_ids_of(batch.push(r), reg) == (if tick_claimed(r, reg) {
            claimed_ids_of(batch, reg).push(r.id)
        } else {
            claimed_ids_of(batch, reg)
        }),
        dead_ids_of(batch.push(r), reg) == (if tick_rejected(r, reg) {
            dead_ids_of(batch, reg).push(r.id)
        } else {
            dead_ids_of(batch, reg)
        }),
        submissions_of(batch.push(r), reg) == (if tick_submitted(r, reg) {
            submissions_of(batch, reg).push(r)
        } else {
            submissions_of(batch, reg)
        }),
{
    assert(batch.push(r).drop_last() =~= batch);
    assert(batch.push(r).last() == r);
}

/// The claimed-id list holds exactly the ids of the claimed batch records,
/// and the rejected-id list exactly those of the rejected ones.
proof fn lemma_tick_id_lists_props(batch: Seq<JobRecord>, reg: Registry)
    ensures
        forall|x: u64|
            #[trigger] claimed_ids_of(batch, reg).contains(x) <==> batch_has_claimed(batch, reg, x),
        forall|x: u64|
            #[trigger] dead_ids_of(batch, reg).contains(x) <==> batch_has_rejected(batch, reg, x),
    decreases batch.len(),
{
    if batch.len() == 0 {
    } else {
        let d = batch.drop_last();
        lemma_tick_id_lists_props(d, reg);
        let last = batch.last();
        assert(batch[batch.len() - 1] == last);
        assert(forall|k: int| 0 <= k < d.len() ==> d[k] == batch[k]);
        let cd = claimed_ids_of(d, reg);
        let c = claimed_ids_of(batch, reg);
        assert forall|x: u64| #[trigger] c.contains(x) implies batch_has_claimed(batch, reg, x) by {
            let p = choose|p: int| 0 <= p < c.len() && c[p] == x;
            if tick_claimed(last, reg) && p == c.len() - 1 {
                assert(batch[batch.len() - 1].id == x);
            } else {
                assert(cd.contains(x));
                let k = choose|k: int| 0 <= k < d.len() && d[k].id == x && tick_claimed(d[k], reg);
                assert(batch[k].id == x && tick_claimed(batch[k], reg));
            }
        }
        assert forall|x: u64| batch_has_claimed(batch, reg, x) implies #[trigger] c.contains(x) by {
            let k = choose|k: int|
                0 <= k < batch.len() && batch[k].id == x && tick_claimed(batch[k], reg);
            if k == batch.len() - 1 {
                assert(c[c.len() - 1] == x);
            } else {
                assert(d[k].id == x && tick_claimed(d[k], reg));
                assert(cd.contains(x));
                let p = choose|p: int| 0 <= p < cd.len() && cd[p] == x;
                assert(c[p] == x);
            }
        }
        let dd = dead_ids_of(d, reg);
        let dl = dead_ids_of(batch, reg);
        assert forall|x: u64| #[trigger] dl.contains(x) implies batch_has_rejected(batch, reg, x) by {
            let p = choose|p: int| 0 <= p < dl.len() && dl[p] == x;
            if tick_rejected(last, reg) && p == dl.len() - 1 {
                assert(batch[batch.len() - 1].id == x);
            } else {
                assert(dd.contains(x));
                let k = choose|k: int| 0 <= k < d.len() && d[k].id == x && tick_rejected(d[k], reg);
                assert(batch[k].id == x && tick_rejected(batch[k], reg));
            }
        }
        assert forall|x: u64| batch_has_rejected(batch, reg, x) implies #[trigger] dl.contains(
            x,
        ) by {
            let k = choose|k: int|
                0 <= k < batch.len() && batch[k].id == x && tick_rejected(batch[k], reg);
            if k == batch.len() - 1 {
                assert(dl[dl.len() - 1] == x);
            } else {
                assert(d[k].id == x && tick_rejected(d[k], reg));
                assert(dd.contains(x));
                let p = choose|p: int| 0 <= p < dd.len() && dd[p] == x;
                assert(dl[p] == x);
            }
        }
    }
}

/// Submissions are batch records that the tick submits, every such batch
/// record is among them, and they keep the batch's ascending id order.
pub proof fn lemma_submissions_props(batch: Seq<JobRecord>, reg: Registry)
    ensures
        forall|j: int|
            0 <= j < submissions_of(batch, reg).len() ==> batch.contains(
                #[trigger] submissions_of(batch, reg)[j],
            ) && tick_submitted(submissions_of(batch, reg)[j], reg),
        forall|i: int|
            0 <= i < batch.len() && tick_submitted(#[trigger] batch[i], reg) ==> submissions_of(
                batch,
                reg,
            ).contains(batch[i]),
        ids_ascending(batch) ==> ids_ascending(submissions_of(batch, reg)),
    decreases batch.len(),
{
    if batch.len() == 0 {
    } else {
        let d = batch.drop_last();
        lemma_submissions_props(d, reg);
        let last = batch.last();
        assert(batch[batch.len() - 1] == last);
        assert(forall|k: int| 0 <= k < d.len() ==> d[k] == batch[k]);
        let sd = submissions_of(d, reg);
        let s = submissions_of(batch, reg);
        if ids_ascending(batch) {
            assert(ids_ascending(d));
        }
        assert forall|j: int| 0 <= j < sd.len() implies batch.contains(sd[j]) by {
            let k = choose|k: int| 0 <= k < d.len() && d[k] == sd[j];
            assert(batch[k] == sd[j]);
        }
        assert forall|i: int|
            0 <= i < batch.len() && tick_submitted(#[trigger] batch[i], reg) implies s.contains(
            batch[i],
        ) by {
            if i == batch.len() - 1 {
                assert(s[s.len() - 1] == batch[i]);
            } else {
                assert(d[i] == batch[i]);
                assert(sd.contains(batch[i]));
                let p = choose|p: int| 0 <= p < sd.len() && sd[p] == batch[i];
                assert(s[p] == batch[i]);
            }
        }
        if tick_submitted(last, reg) && ids_ascending(batch) {
            assert forall|a: int, b: int| 0 <= a < b < s.len() implies s[a].id < s[b].id by {
                if b < sd.len() {
                    assert(s[a] == sd[a] && s[b] == sd[b]);
                } else {
                    assert(s[b] == last);
                    assert(s[a] == sd[a]);
                    let k = choose|k: int| 0 <= k < d.len() && d[k] == sd[a];
                    assert(batch[k] == sd[a]);
                    assert(batch[k].id < batch[batch.len() - 1].id);
                }
            }
        }
    }
}

/// The collect phase of one tick: fetch up to `batch_size` waiting records,
/// oldest first; claim the eligible subset (`Waiting` to `Running`, guarded
/// so a record claimed elsewhere in the meantime is skipped); dead-letter
/// the records whose kind is unregistered, since their submission is
/// rejected synchronously; and return the records handed to the worker
/// pool. A record that decodes but whose eligibility verdict is negative is
/// neither claimed nor submitted: it stays `Waiting` for a later tick.
pub fn collect_tick(store: &mut QueueStore, reg: &Registry, batch_size: usize) -> (subs: Vec<
    JobRecord,
>)
    requires
        old(store).wf(),
        reg.wf(),
    ensures
        final(store).wf(),
        final(store).spec_next_id() == old(store).spec_next_id(),
        final(store)@.len() == old(store)@.len(),
        subs@ == submissions_of(fetch_spec(old(store)@, batch_size as int), *reg),
        forall|i: int|
            0 <= i < old(store)@.len() ==> final(store)@[i] == (if fetch_spec(
                old(store)@,
                batch_size as int,
            ).contains(old(store)@[i]) {
                with_status(old(store)@[i], collect_status(old(store)@[i], *reg))
            } else {
                old(store)@[i]
            }),
{
    let batch = store.fetch_waiting(batch_size);
    let mut elig: Vec<u64> = Vec::new();
    let mut dead: Vec<u64> = Vec::new();
    let mut subs: Vec<JobRecord> = Vec::new();
    let m = batch.len();
    let mut t: usize = 0;
    while t < m
        invariant
            t <= m,
            m == batch@.len(),
            reg.wf(),
            elig@ == claimed_ids_of(batch@.take(t as int), *reg),
            dead@ == dead_ids_of(batch@.take(t as int), *reg),
            subs@ == submissions_of(batch@.take(t as int), *reg),
        decreases m - t,
    {
        proof {
            assert(batch@.take(t + 1) =~= batch@.take(t as int).push(batch@[t as int]));
            lemma_tick_lists_snoc(batch@.take(t as int), batch@[t as int], *reg);
        }
        let r = &batch[t];
        match reg.lookup(&r.kind) {
            None => {
                dead.push(r.id);
            },
            Some(entry) => {
                if payload_decode_check(&r.data) {
                    if entry.runs {
                        elig.push(r.id);
                        subs.push(r.clone());
                    }
                } else {
                    subs.push(r.clone());
                }
            },
        }
        t += 1;
    }
    proof {
        assert(batch@.take(m as int) =~= batch@);
    }
    store.set_status_where(&elig, Some(JobStatus::Waiting), JobStatus::Running);
    let ghost s_mid = store@;
    store.set_status_where(&dead, None, JobStatus::Dead);
    proof {
        let s0 = old(store)@;
        let f = fetch_spec(s0, batch_size as int);
        lemma_fetch_props(s0, batch_size as int);
        lemma_tick_id_lists_props(f, *reg);
        assert forall|i: int| 0 <= i < s0.len() implies store@[i] == (if f.contains(s0[i]) {
            with_status(s0[i], collect_status(s0[i], *reg))
        } else {
            s0[i]
        }) by {
            let r = s0[i];
            assert(elig@.contains(r.id) <==> batch_has_claimed(f, *reg, r.id));
            assert(dead@.contains(r.id) <==> batch_has_rejected(f, *reg, r.id));
            if batch_has_claimed(f, *reg, r.id) {
                let k = choose|k: int| 0 <= k < f.len() && f[k].id == r.id && tick_claimed(f[k], *reg);
                let n = choose|n: int| 0 <= n < s0.len() && s0[n] == f[k];
                assert(s0[n].id == s0[i].id);
                if n != i {
                    assert(s0[n].id != s0[i].id);
                }
                assert(f[k] == r);
                assert(f.contains(r) && tick_claimed(r, *reg));
            }
            if batch_has_rejected(f, *reg, r.id) {
                let k = choose|k: int| 0 <= k < f.len() && f[k].id == r.id && tick_rejected(f[k], *reg);
                let n = choose|n: int| 0 <= n < s0.len() && s0[n] == f[k];
                assert(s0[n].id == s0[i].id);
                if n != i {
                    assert(s0[n].id != s0[i].id);
                }
                assert(f[k] == r);
                assert(f.contains(r) && tick_rejected(r, *reg));
            }
            if f.contains(r) {
                let k = choose|k: int| 0 <= k < f.len() && f[k] == r;
                assert(f[k].status == JobStatus::Waiting);
                if tick_claimed(r, *reg) {
                    assert(batch_has_claimed(f, *reg, r.id));
                }
                if tick_rejected(r, *reg) {
                    assert(batch_has_rejected(f, *reg, r.id));
                }
            }
            assert(s_mid[i] == (if elig@.contains(r.id) && r.status == JobStatus::Waiting {
                with_status(r, JobStatus::Running)
            } else {
                r
            }));
            assert(store@[i] == (if dead@.contains(s_mid[i].id) {
                with_status(s_mid[i], JobStatus::Dead)
            } else {
                s_mid[i]
            }));
            assert(s_mid[i].id == r.id);
        }
    }
    subs
}

/// Spec: the terminal effect of one full tick on a fetched record. `None`
/// means the record is deleted (success is recorded by absence); `Some(st)`
/// is the status it holds once every completion callback of the tick has
/// fired: dead-lettered if its kind is unregistered or its payload does not
/// decode; still `Waiting` if its eligibility verdict was negative; still
/// `Running` if `perform` returned a logical error, which is only logged;
/// and, for a panic, whatever the kind's execution contract directs.
pub open spec fn tick_final(r: JobRecord, reg: Registry) -> Option<JobStatus> {
    if !reg.spec_registered(r.kind@) {
        Some(JobStatus::Dead)
    } else if !payload_decodes(r.data@) {
        Some(JobStatus::Dead)
    } else if !reg.spec_runs(r.kind@) {
        Some(JobStatus::Waiting)
    } else {
        match reg.spec_behavior(r.kind@) {
            crate::registry::JobBehavior::Succeeds => None,
            crate::registry::JobBehavior::Fails => Some(JobStatus::Running),
            crate::registry::JobBehavior::Panics => if reg.spec_contract(r.kind@).panic
                == PanicBehavior::Fail {
                Some(JobStatus::Dead)
            } else {
                Some(JobStatus::Waiting)
            },
        }
    }
}

/// Spec: the post-tick store shows the record's terminal effect.
pub open spec fn final_state_of(post: Seq<JobRecord>, r: JobRecord, reg: Registry) -> bool {
    match tick_final(r, reg) {
        Some(st) => contains_id(post, r.id) && record_of(post, r.id) == with_status(r, st),
        None => !contains_id(post, r.id),
    }
}

/// Spec: what one full tick owes the store for the record at index `i` of
/// the pre-tick store: a fetched record shows its terminal effect, and any
/// other record is untouched.
pub open spec fn tick_record_post(
    pre: Seq<JobRecord>,
    post: Seq<JobRecord>,
    reg: Registry,
    batch: int,
    i: int,
) -> bool {
    if fetch_spec(pre, batch).contains(pre[i]) {
        final_state_of(post, pre[i], reg)
    } else {
        contains_id(post, pre[i].id) && record_of(post, pre[i].id) == pre[i]
    }
}

/// Spec: everything one full tick does to the store: each pre-tick record
/// meets its per-record clause, and the tick invents no record.
pub open spec fn tick_post(
    pre: Seq<JobRecord>,
    post: Seq<JobRecord>,
    reg: Registry,
    batch: int,
) -> bool {
    &&& forall|i: int| 0 <= i < pre.len() ==> #[trigger] tick_record_post(pre, post, reg, batch, i)
    &&& forall|x: u64| contains_id(post, x) ==> contains_id(pre, x)
}

/// Spec: the completion loop's view of the pre-tick record `r` once the
/// first `k` submissions have completed: untouched if never fetched, final
/// if not submitted or already completed, and otherwise still in the state
/// the collect phase left it.
spec fn loop_state(
    post: Seq<JobRecord>,
    r: JobRecord,
    reg: Registry,
    f: Seq<JobRecord>,
    subs: Seq<JobRecord>,
    k: int,
) -> bool {
    if !f.contains(r) {
        contains_id(post, r.id) && record_of(post, r.id) == r
    } else if !tick_submitted(r, reg) {
        final_state_of(post, r, reg)
    } else if exists|p: int| 0 <= p < k && (#[trigger] subs[p]).id == r.id {
        final_state_of(post, r, reg)
    } else {
        contains_id(post, r.id) && record_of(post, r.id) == with_status(
            r,
            collect_status(r, reg),
        )
    }
}

/// One full tick, completions included: collect and claim, then execute
/// every submission and apply its outcome through the completion callback.
/// In the deployed loop the pool completes jobs asynchronously and in any
/// order; the store transitions applied are the ones proved here, and a
/// tick that finds nothing waiting changes nothing at all.
pub fn run_tick(store: &mut QueueStore, reg: &Registry, batch_size: usize)
    requires
        old(store).wf(),
        reg.wf(),
    ensures
        final(store).wf(),
        final(store).spec_next_id() == old(store).spec_next_id(),
        tick_post(old(store)@, final(store)@, *reg, batch_size as int),
        waiting_records(old(store)@).len() == 0 ==> final(store)@ == old(store)@,
{
    let subs = collect_tick(store, reg, batch_size);
    let ghost s0 = old(store)@;
    let ghost f = fetch_spec(s0, batch_size as int);
    let ghost s_collect = store@;
    proof {
        lemma_fetch_props(s0, batch_size as int);
        lemma_submissions_props(f, *reg);
        lemma_pointwise_per_id(s0, store@);
        assert forall|i: int| 0 <= i < s0.len() implies loop_state(
            store@,
            s0[i],
            *reg,
            f,
            subs@,
            0,
        ) by {
            let r = s0[i];
            assert(record_of(store@, r.id) == store@[i]);
            assert(store@[i] == (if f.contains(r) {
                with_status(r, collect_status(r, *reg))
            } else {
                r
            }));
            if f.contains(r) {
                let q = choose|q: int| 0 <= q < f.len() && f[q] == r;
                assert(f[q].status == JobStatus::Waiting);
                if !tick_submitted(r, *reg) {
                    if tick_rejected(r, *reg) {
                        assert(collect_status(r, *reg) == JobStatus::Dead);
                    } else {
                        assert(collect_status(r, *reg) == JobStatus::Waiting);
                        assert(with_status(r, JobStatus::Waiting) == r);
                    }
                }
            }
        }
        assert forall|x: u64| contains_id(store@, x) implies contains_id(s0, x) by {}
    }
    let n = subs.len();
    let mut k: usize = 0;
    while k < n
        invariant
            k <= n,
            n == subs@.len(),
            reg.wf(),
            store.wf(),
            store.spec_next_id() == old(store).spec_next_id(),
            subs@ == submissions_of(f, *reg),
            f == fetch_spec(s0, batch_size as int),
            ids_ascending(s0),
            forall|i: int|
                0 <= i < s0.len() ==> #[trigger] loop_state(store@, s0[i], *reg, f, subs@, k as int),
            forall|x: u64| contains_id(store@, x) ==> contains_id(s0, x),
            n == 0 ==> store@ == s_collect,
        decreases n - k,
    {
        proof {
            lemma_fetch_props(s0, batch_size as int);
            lemma_submissions_props(f, *reg);
            assert(f.contains(subs@[k as int]) && tick_submitted(subs@[k as int], *reg));
        }
        let sub = &subs[k];
        let outcome = execute_job(reg, &sub.kind, &sub.data);
        let contract = match reg.lookup(&sub.kind) {
            Some(entry) => entry.contract,
            None => {
                proof {
                    assert(false);
                }
                ExecutionContract { panic: PanicBehavior::Fail }
            },
        };
        let ghost s_pre = store@;
        apply_outcome(store, sub.id, outcome, contract);
        proof {
            let sb = subs@[k as int];
            let q = choose|q: int| 0 <= q < f.len() && f[q] == sb;
            let nn = choose|nn: int| 0 <= nn < s0.len() && s0[nn] == f[q];
            assert(s0[nn] == sb);
            assert(loop_state(s_pre, s0[nn], *reg, f, subs@, k as int));
            assert forall|p: int| 0 <= p < k implies (#[trigger] subs@[p]).id != sb.id by {
                assert(subs@[p].id < subs@[k as int].id);
            }
            assert(contains_id(s_pre, sb.id) && record_of(s_pre, sb.id) == with_status(
                sb,
                collect_status(sb, *reg),
            ));
            let action = spec_decide(outcome, contract);
            assert(apply_post(s_pre, store@, sb.id, action));
            assert forall|i: int| 0 <= i < s0.len() implies #[trigger] loop_state(
                store@,
                s0[i],
                *reg,
                f,
                subs@,
                k + 1,
            ) by {
                let r = s0[i];
                assert(loop_state(s_pre, r, *reg, f, subs@, k as int));
                if r.id == sb.id {
                    if i != nn {
                        assert(s0[i].id != s0[nn].id);
                    }
                    assert(r == sb);
                    if tick_claimed(r, *reg) {
                        assert(collect_status(r, *reg) == JobStatus::Running);
                        assert(record_of(s_pre, r.id).status == JobStatus::Running);
                    } else {
                        assert(!payload_decodes(r.data@));
                        assert(outcome == JobOutcome::DecodeFailed);
                        assert(action == OutcomeAction::Kill);
                    }
                    assert(final_state_of(store@, r, *reg));
                    assert(exists|p: int| 0 <= p < k + 1 && (#[trigger] subs@[p]).id == r.id);
                } else {
                    assert(contains_id(s_pre, r.id) ==> record_of(store@, r.id) == record_of(
                        s_pre,
                        r.id,
                    ) && contains_id(store@, r.id));
                    assert(!contains_id(s_pre, r.id) ==> !contains_id(store@, r.id));
                    assert forall|p: int|
                        0 <= p < k + 1 && (#[trigger] subs@[p]).id == r.id implies 0 <= p < k by {
                        if p == k {
                            assert(subs@[p].id == sb.id);
                        }
                    }
                }
            }
            assert forall|x: u64| contains_id(store@, x) implies contains_id(s0, x) by {
                assert(contains_id(s_pre, x) ==> contains_id(s0, x));
                if x != sb.id {
                    assert(contains_id(s_pre, x) <==> contains_id(store@, x));
                }
            }
        }
        k += 1;
    }
    proof {
        lemma_fetch_props(s0, batch_size as int);
        lemma_submissions_props(f, *reg);
        assert forall|i: int| 0 <= i < s0.len() implies #[trigger] tick_record_post(
            s0,
            store@,
            *reg,
            batch_size as int,
            i,
        ) by {
            let r = s0[i];
            assert(loop_state(store@, r, *reg, f, subs@, n as int));
            if f.contains(r) && tick_submitted(r, *reg) {
                let q = choose|q: int| 0 <= q < f.len() && f[q] == r;
                assert(subs@.contains(f[q]));
                let p = choose|p: int| 0 <= p < subs@.len() && subs@[p] == r;
                assert(subs@[p].id == r.id);
            }
        }
        if waiting_records(s0).len() == 0 {
            crate::store::lemma_fetch_spec_bounded(s0, batch_size as int);
            assert(f.len() == 0);
            assert forall|i: int| 0 <= i < s0.len() implies s_collect[i] == s0[i] by {
                if f.contains(s0[i]) {
                    let q = choose|q: int| 0 <= q < f.len() && f[q] == s0[i];
                }
            }
            assert(s_collect =~= s0);
            assert(subs@.len() == 0);
            assert(store@ == s0);
        }
    }
}

/// Law: an undecodable payload is dead-lettered. A fetched record whose
/// kind is registered but whose payload does not decode ends the tick
/// `Dead`; decoding is deterministic, so no retry could change that.
pub proof fn lemma_decode_failure_dead(
    pre: Seq<JobRecord>,
    post: Seq<JobRecord>,
    reg: Registry,
    batch: int,
    i: int,
)
    requires
        tick_post(pre, post, reg, batch),
        0 <= i < pre.len(),
        fetch_spec(pre, batch).contains(pre[i]),
        reg.spec_registered(pre[i].kind@),
        !payload_decodes(pre[i].data@),
    ensures
        contains_id(post, pre[i].id),
        record_of(post, pre[i].id) == with_status(pre[i], JobStatus::Dead),
{
    assert(tick_record_post(pre, post, reg, batch, i));
}

/// Law: `Dead` is terminal. A tick fetches only `Waiting` records, so a
/// record that is already `Dead` is untouched by any tick — in particular
/// it never returns to `Waiting`.
pub proof fn lemma_dead_is_terminal(
    pre: Seq<JobRecord>,
    post: Seq<JobRecord>,
    reg: Registry,
    batch: int,
    i: int,
)
    requires
        tick_post(pre, post, reg, batch),
        0 <= batch,
        0 <= i < pre.len(),
        pre[i].status == JobStatus::Dead,
    ensures
        contains_id(post, pre[i].id),
        record_of(post, pre[i].id) == pre[i],
{
    assert(tick_record_post(pre, post, reg, batch, i));
    let f = fetch_spec(pre, batch);
    if f.contains(pre[i]) {
        lemma_fetch_props(pre, batch);
        let q = choose|q: int| 0 <= q < f.len() && f[q] == pre[i];
        assert(f[q].status == JobStatus::Waiting);
    }
}

/// Law: an unregistered kind is dead-lettered on the first tick that
/// fetches it, and such a record is never handed to the worker pool: every
/// submission of a tick carries a registered kind, so neither eligibility
/// nor execution logic ever runs for it.
pub proof fn lemma_unregistered_dead(
    pre: Seq<JobRecord>,
    post: Seq<JobRecord>,
    reg: Registry,
    batch: int,
    i: int,
)
    requires
        tick_post(pre, post, reg, batch),
        0 <= i < pre.len(),
        fetch_spec(pre, batch).contains(pre[i]),
        !reg.spec_registered(pre[i].kind@),
    ensures
        contains_id(post, pre[i].id),
        record_of(post, pre[i].id) == with_status(pre[i], JobStatus::Dead),
        forall|j: int|
            0 <= j < submissions_of(fetch_spec(pre, batch), reg).len()
                ==> reg.spec_registered(
                (#[trigger] submissions_of(fetch_spec(pre, batch), reg)[j]).kind@,
            ),
{
    assert(tick_record_post(pre, post, reg, batch, i));
    lemma_submissions_props(fetch_spec(pre, batch), reg);
}

/// Law: success is recorded by absence. A claimed record whose behavior
/// succeeds is deleted by its completion callback, so its id is gone from
/// the store after the tick; by `lemma_absent_not_fetched` an absent id is
/// returned by no later fetch.
pub proof fn lemma_success_removes(
    pre: Seq<JobRecord>,
    post: Seq<JobRecord>,
    reg: Registry,
    batch: int,
    i: int,
)
    requires
        tick_post(pre, post, reg, batch),
        0 <= i < pre.len(),
        fetch_spec(pre, batch).contains(pre[i]),
        tick_claimed(pre[i], reg),
        reg.spec_behavior(pre[i].kind@) == crate::registry::JobBehavior::Succeeds,
    ensures
        !contains_id(post, pre[i].id),
{
    assert(tick_record_post(pre, post, reg, batch, i));
}

/// Law: the panic policy of the execution contract. A claimed record whose
/// execution panics ends the tick `Dead` under a `Fail` contract, and back
/// in `Waiting` — eligible for a later tick, at the tick cadence, never in
/// a tight loop — under a `Retry` contract.
pub proof fn lemma_panic_policy(
    pre: Seq<JobRecord>,
    post: Seq<JobRecord>,
    reg: Registry,
    batch: int,
    i: int,
)
    requires
        tick_post(pre, post, reg, batch),
        0 <= i < pre.len(),
        fetch_spec(pre, batch).contains(pre[i]),
        tick_claimed(pre[i], reg),
        reg.spec_behavior(pre[i].kind@) == crate::registry::JobBehavior::Panics,
    ensures
        contains_id(post, pre[i].id),
        reg.spec_contract(pre[i].kind@).panic == PanicBehavior::Fail ==> record_of(
            post,
            pre[i].id,
        ) == with_status(pre[i], JobStatus::Dead),
        reg.spec_contract(pre[i].kind@).panic == PanicBehavior::Retry ==> record_of(
            post,
            pre[i].id,
        ) == with_status(pre[i], JobStatus::Waiting),
{
    assert(tick_record_post(pre, post, reg, batch, i));
}

} // verus!
