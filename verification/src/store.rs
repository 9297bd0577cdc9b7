//! The queue store: the durable table of job records and their lifecycle
//! status, exposed through bounded fetch, guarded bulk status transitions,
//! and deletion on success.

use vstd::prelude::*;

use crate::record::JobRecord;
use crate::record::JobStatus;

verus! {

/// Spec: `s` holds a record whose identity is `id`.
pub open spec fn contains_id(s: Seq<JobRecord>, id: u64) -> bool {
    exists|i: int| 0 <= i < s.len() && s[i].id == id
}

/// Spec: an index at which `id` stands in `s` (unique while ids ascend).
#[verifier::opaque]
pub open spec fn idx_of_id(s: Seq<JobRecord>, id: u64) -> int {
    choose|i: int| 0 <= i < s.len() && s[i].id == id
}

/// Spec: the record of `s` whose identity is `id`.
#[verifier::opaque]
pub open spec fn record_of(s: Seq<JobRecord>, id: u64) -> JobRecord {
    s[idx_of_id(s, id)]
}

/// Spec: `r` with its status replaced by `st`; identity and payload are kept.
pub open spec fn with_status(r: JobRecord, st: JobStatus) -> JobRecord {
    JobRecord { status: st, ..r }
}

/// Spec: record identities strictly increase along `s`: the store keeps
/// ascending id order, which also makes every id unique.
pub open spec fn ids_ascending(s: Seq<JobRecord>) -> bool {
    forall|i: int, j: int| 0 <= i < j < s.len() ==> s[i].id < s[j].id
}

/// Spec: every identity in `s` lies strictly below `bound`.
pub open spec fn ids_below(s: Seq<JobRecord>, bound: u64) -> bool {
    forall|i: int| 0 <= i < s.len() ==> s[i].id < bound
}

/// Spec: does a record's status pass the transition guard? `None` guards
/// nothing; `Some(f)` demands the current status be exactly `f`.
pub open spec fn status_matches(from: Option<JobStatus>, st: JobStatus) -> bool {
    match from {
        None => true,
        Some(f) => st == f,
    }
}

/// Spec: the subsequence of `s` whose records are `Waiting`, in store order.
pub open spec fn waiting_records(s: Seq<JobRecord>) -> Seq<JobRecord>
    decreases s.len(),
{
    if s.len() == 0 {
        Seq::empty()
    } else {
        let rest = waiting_records(s.drop_last());
        if s.last().status == JobStatus::Waiting {
            rest.push(s.last())
        } else {
            rest
        }
    }
}

/// Spec: what one bounded fetch returns: the first `limit` waiting records
/// of `s`, in store order.
pub open spec fn fetch_spec(s: Seq<JobRecord>, limit: int) -> Seq<JobRecord> {
    let w = waiting_records(s);
    if w.len() <= limit {
        w
    } else {
        w.take(limit)
    }
}

/// While ids ascend, a record's id determines its index: `record_of` and
/// `idx_of_id` pick out exactly the record found at any witnessing index.
pub proof fn lemma_record_of_unique(s: Seq<JobRecord>, i: int)
    requires
        ids_ascending(s),
        0 <= i < s.len(),
    ensures
        contains_id(s, s[i].id),
        idx_of_id(s, s[i].id) == i,
        record_of(s, s[i].id) == s[i],
{
    reveal(idx_of_id);
    reveal(record_of);
    assert(contains_id(s, s[i].id));
    let j = idx_of_id(s, s[i].id);
    if j < i {
        assert(s[j].id < s[i].id);
    } else if j > i {
        assert(s[i].id < s[j].id);
    }
}

/// A contained id has a witnessing index, and `record_of` reads it there.
pub proof fn lemma_contains_id_witness(s: Seq<JobRecord>, x: u64)
    requires
        contains_id(s, x),
    ensures
        0 <= idx_of_id(s, x) < s.len(),
        s[idx_of_id(s, x)].id == x,
        record_of(s, x) == s[idx_of_id(s, x)],
{
    reveal(idx_of_id);
    reveal(record_of);
}

/// The waiting subsequence is no longer than the store, holds only records
/// of the store that are `Waiting`, and keeps ascending id order.
pub proof fn lemma_waiting_props(s: Seq<JobRecord>)
    ensures
        waiting_records(s).len() <= s.len(),
        forall|j: int|
            0 <= j < waiting_records(s).len() ==> (#[trigger] waiting_records(s)[j]).status
                == JobStatus::Waiting && s.contains(waiting_records(s)[j]),
        ids_ascending(s) ==> ids_ascending(waiting_records(s)),
    decreases s.len(),
{
    if s.len() == 0 {
    } else {
        let d = s.drop_last();
        lemma_waiting_props(d);
        let wd = waiting_records(d);
        let w = waiting_records(s);
        assert forall|j: int| 0 <= j < wd.len() implies s.contains(wd[j]) by {
            let k = choose|k: int| 0 <= k < d.len() && d[k] == wd[j];
            assert(s[k] == wd[j]);
        }
        if ids_ascending(s) {
            assert(ids_ascending(d)) by {
                assert forall|i: int, j: int| 0 <= i < j < d.len() implies d[i].id < d[j].id by {
                    assert(d[i] == s[i]);
                    assert(d[j] == s[j]);
                }
            }
        }
        if s.last().status == JobStatus::Waiting {
            assert(w == wd.push(s.last()));
            assert(s[s.len() - 1] == s.last());
            if ids_ascending(s) {
                assert forall|i: int, j: int| 0 <= i < j < w.len() implies w[i].id < w[j].id by {
                    if j < wd.len() {
                        assert(w[i] == wd[i] && w[j] == wd[j]);
                    } else {
                        assert(w[j] == s.last());
                        assert(w[i] == wd[i]);
                        let k = choose|k: int| 0 <= k < d.len() && d[k] == wd[i];
                        assert(s[k] == wd[i]);
                        assert(s[k].id < s[s.len() - 1].id);
                    }
                }
            }
        } else {
            assert(w == wd);
        }
    }
}

/// A fetched batch holds only waiting records of the store, never more than
/// the limit, and keeps ascending id order.
pub proof fn lemma_fetch_props(s: Seq<JobRecord>, limit: int)
    requires
        0 <= limit,
    ensures
        fetch_spec(s, limit).len() <= limit || fetch_spec(s, limit) == waiting_records(s),
        fetch_spec(s, limit).len() <= waiting_records(s).len(),
        forall|j: int|
            0 <= j < fetch_spec(s, limit).len() ==> (#[trigger] fetch_spec(s, limit)[j]).status
                == JobStatus::Waiting && s.contains(fetch_spec(s, limit)[j]),
        ids_ascending(s) ==> ids_ascending(fetch_spec(s, limit)),
{
    lemma_waiting_props(s);
    let w = waiting_records(s);
    let f = fetch_spec(s, limit);
    if w.len() <= limit {
    } else {
        assert(f == w.take(limit));
        assert(forall|j: int| 0 <= j < f.len() ==> f[j] == w[j]);
    }
}

/// One tick never fetches more than the batch bound.
pub proof fn lemma_fetch_spec_bounded(s: Seq<JobRecord>, limit: int)
    requires
        0 <= limit,
    ensures
        fetch_spec(s, limit).len() <= limit,
        fetch_spec(s, limit).len() == (if waiting_records(s).len() <= limit {
            waiting_records(s).len() as int
        } else {
            limit
        }),
{
}

/// A status-only rewrite of a store (same length, same ids in place) keeps
/// id order, keeps exactly the same identities, and keeps each id at its
/// index, so per-id lookups read the rewritten record at the same position.
pub proof fn lemma_pointwise_per_id(s0: Seq<JobRecord>, s1: Seq<JobRecord>)
    requires
        ids_ascending(s0),
        s1.len() == s0.len(),
        forall|i: int| 0 <= i < s0.len() ==> s1[i].id == s0[i].id,
    ensures
        ids_ascending(s1),
        forall|x: u64| contains_id(s1, x) <==> contains_id(s0, x),
        forall|i: int|
            0 <= i < s0.len() ==> idx_of_id(s0, #[trigger] s0[i].id) == i && idx_of_id(
                s1,
                s0[i].id,
            ) == i && record_of(s0, s0[i].id) == s0[i] && record_of(s1, s0[i].id) == s1[i],
{
    assert(ids_ascending(s1));
    assert forall|x: u64| contains_id(s1, x) implies contains_id(s0, x) by {
        let i = choose|i: int| 0 <= i < s1.len() && s1[i].id == x;
        assert(s0[i].id == x);
    }
    assert forall|x: u64| contains_id(s0, x) implies contains_id(s1, x) by {
        let i = choose|i: int| 0 <= i < s0.len() && s0[i].id == x;
        assert(s1[i].id == x);
    }
    assert forall|i: int| 0 <= i < s0.len() implies idx_of_id(s0, #[trigger] s0[i].id) == i
        && idx_of_id(s1, s0[i].id) == i && record_of(s0, s0[i].id) == s0[i] && record_of(
        s1,
        s0[i].id,
    ) == s1[i] by {
        lemma_record_of_unique(s0, i);
        lemma_record_of_unique(s1, i);
    }
}

/// A record whose id is absent from the store is returned by no fetch.
pub proof fn lemma_absent_not_fetched(s: Seq<JobRecord>, id: u64, limit: int)
    requires
        0 <= limit,
        !contains_id(s, id),
    ensures
        forall|j: int|
            0 <= j < fetch_spec(s, limit).len() ==> (#[trigger] fetch_spec(s, limit)[j]).id != id,
{
    lemma_fetch_props(s, limit);
    let f = fetch_spec(s, limit);
    assert forall|j: int| 0 <= j < f.len() implies f[j].id != id by {
        let k = choose|k: int| 0 <= k < s.len() && s[k] == f[j];
        assert(s[k].id == f[j].id);
    }
}

/// Appending a record extends the waiting subsequence exactly when the new
/// record is `Waiting`.
pub proof fn lemma_waiting_snoc(s: Seq<JobRecord>, x: JobRecord)
    ensures
        waiting_records(s.push(x)) == (if x.status == JobStatus::Waiting {
            waiting_records(s).push(x)
        } else {
            waiting_records(s)
        }),
{
    assert(s.push(x).drop_last() =~= s);
    assert(s.push(x).last() == x);
}

/// How one more store record changes a bounded fetch: it is appended exactly
/// when it is `Waiting` and the batch is not yet full.
pub proof fn lemma_fetch_spec_snoc(s: Seq<JobRecord>, x: JobRecord, limit: int)
    requires
        0 <= limit,
    ensures
        fetch_spec(s.push(x), limit) == (if x.status == JobStatus::Waiting && waiting_records(
            s,
        ).len() < limit {
            fetch_spec(s, limit).push(x)
        } else {
            fetch_spec(s, limit)
        }),
{
    lemma_waiting_snoc(s, x);
    let w = waiting_records(s);
    let w2 = waiting_records(s.push(x));
    if x.status == JobStatus::Waiting {
        assert(w2 == w.push(x));
        if w.len() < limit {
        } else {
            assert(w2.len() > limit);
            assert(w2.take(limit) =~= (if w.len() <= limit {
                w
            } else {
                w.take(limit)
            }));
        }
    }
}

/// The durable job table. Records are kept in ascending id order; `next_id`
/// is the identity the next inserted record will receive, so ids are never
/// reused, not even after a deletion.
pub struct QueueStore {
    records: Vec<JobRecord>,
    next_id: u64,
}

impl View for QueueStore {
    type V = Seq<JobRecord>;

    closed spec fn view(&self) -> Seq<JobRecord> {
        self.records@
    }
}

impl QueueStore {
    /// Spec: the identity the next inserted record will receive.
    pub closed spec fn spec_next_id(&self) -> u64 {
        self.next_id
    }

    /// Well-formedness: ascending (hence unique) ids, all below `next_id`.
    pub open spec fn wf(&self) -> bool {
        ids_ascending(self@) && ids_below(self@, self.spec_next_id())
    }

    /// An empty store.
    pub fn new() -> (s: QueueStore)
        ensures
            s@ == Seq::<JobRecord>::empty(),
            s.wf(),
            s.spec_next_id() == 0,
    {
        QueueStore { records: Vec::new(), next_id: 0 }
    }

    /// Enqueue a new record in `Waiting` state under a fresh, monotonically
    /// assigned identity. Returns `None` only when the id space is exhausted.
    pub fn insert(&mut self, kind: String, data: String) -> (assigned: Option<u64>)
        requires
            old(self).wf(),
        ensures
            final(self).wf(),
            match assigned {
                Some(id) => {
                    &&& id == old(self).spec_next_id()
                    &&& final(self)@ == old(self)@.push(
                        (JobRecord { id, kind, data, status: JobStatus::Waiting }),
                    )
                    &&& final(self).spec_next_id() == id + 1
                },
                None => *final(self) == *old(self) && old(self).spec_next_id() == u64::MAX,
            },
    {
        if self.next_id == u64::MAX {
            return None;
        }
        let id = self.next_id;
        self.records.push(JobRecord { id, kind, data, status: JobStatus::Waiting });
        self.next_id = id + 1;
        Some(id)
    }

    /// Bulk status transition: every record whose id is listed in `ids` and
    /// whose current status passes the `from` guard moves to `to`; all other
    /// records are untouched. Claiming passes `Some(Waiting)` as the guard so
    /// a record claimed elsewhere in the meantime is skipped, not stolen.
    pub fn set_status_where(&mut self, ids: &Vec<u64>, from: Option<JobStatus>, to: JobStatus)
        requires
            old(self).wf(),
        ensures
            final(self).wf(),
            final(self).spec_next_id() == old(self).spec_next_id(),
            final(self)@.len() == old(self)@.len(),
            forall|i: int|
                0 <= i < old(self)@.len() ==> final(self)@[i] == (if ids@.contains(
                    old(self)@[i].id,
                ) && status_matches(from, old(self)@[i].status) {
                    with_status(old(self)@[i], to)
                } else {
                    old(self)@[i]
                }),
    {
        let n = self.records.len();
        let mut i: usize = 0;
        while i < n
            invariant
                i <= n,
                n == self.records@.len(),
                self.records@.len() == old(self)@.len(),
                self.next_id == old(self).spec_next_id(),
                forall|j: int|
                    0 <= j < i ==> self.records@[j] == (if ids@.contains(old(self)@[j].id)
                        && status_matches(from, old(self)@[j].status) {
                        with_status(old(self)@[j], to)
                    } else {
                        old(self)@[j]
                    }),
                forall|j: int| i <= j < n ==> self.records@[j] == old(self)@[j],
            decreases n - i,
        {
            let rid = self.records[i].id;
            let rst = self.records[i].status;
            let guard_ok = match from {
                None => true,
                Some(f) => rst == f,
            };
            if guard_ok && ids_contain(ids, rid) {
                self.records[i].status = to;
            }
            i += 1;
        }
        proof {
            assert(old(self).wf());
            assert forall|i: int, j: int| 0 <= i < j < self@.len() implies self@[i].id
                < self@[j].id by {
                assert(self@[i].id == old(self)@[i].id);
                assert(self@[j].id == old(self)@[j].id);
            }
            assert forall|i: int| 0 <= i < self@.len() implies self@[i].id
                < self.spec_next_id() by {
                assert(self@[i].id == old(self)@[i].id);
            }
        }
    }

    /// How many records the store holds, every status counted.
    pub fn len(&self) -> (n: usize)
        ensures
            n == self@.len(),
    {
        self.records.len()
    }

    /// Find the record with identity `id`, if it is present.
    pub fn find(&self, id: u64) -> (found: Option<&JobRecord>)
        requires
            self.wf(),
        ensures
            match found {
                Some(r) => contains_id(self@, id) && *r == record_of(self@, id),
                None => !contains_id(self@, id),
            },
    {
        let n = self.records.len();
        let mut i: usize = 0;
        while i < n
            invariant
                i <= n,
                n == self@.len(),
                self.wf(),
                forall|j: int| 0 <= j < i ==> self@[j].id != id,
            decreases n - i,
        {
            if self.records[i].id == id {
                proof {
                    lemma_record_of_unique(self@, i as int);
                }
                return Some(&self.records[i]);
            }
            i += 1;
        }
        None
    }

    /// Snapshot read of the head of the queue: the first `limit` records in
    /// `Waiting` state, oldest first. The store itself is not changed.
    pub fn fetch_waiting(&self, limit: usize) -> (batch: Vec<JobRecord>)
        requires
            self.wf(),
        ensures
            batch@ == fetch_spec(self@, limit as int),
            batch@.len() <= limit,
    {
        let n = self.records.len();
        let mut batch: Vec<JobRecord> = Vec::new();
        let mut i: usize = 0;
        while i < n
            invariant
                i <= n,
                n == self@.len(),
                batch@ == fetch_spec(self@.take(i as int), limit as int),
                batch@.len() <= limit,
            decreases n - i,
        {
            proof {
                assert(self@.take(i + 1) =~= self@.take(i as int).push(self@[i as int]));
                lemma_fetch_spec_snoc(self@.take(i as int), self@[i as int], limit as int);
                lemma_waiting_props(self@.take(i as int));
            }
            if batch.len() < limit && self.records[i].status == JobStatus::Waiting {
                batch.push(self.records[i].clone());
            }
            i += 1;
        }
        proof {
            assert(self@.take(n as int) =~= self@);
        }
        batch
    }

    /// Remove the record with identity `id`, if present: the terminal
    /// transition on success. Every other record is untouched, and the id is
    /// never assigned again because `next_id` is past it.
    pub fn delete(&mut self, id: u64)
        requires
            old(self).wf(),
        ensures
            final(self).wf(),
            final(self).spec_next_id() == old(self).spec_next_id(),
            !contains_id(final(self)@, id),
            contains_id(old(self)@, id) ==> final(self)@ == old(self)@.remove(
                idx_of_id(old(self)@, id),
            ),
            !contains_id(old(self)@, id) ==> final(self)@ == old(self)@,
            forall|x: u64|
                x != id ==> (contains_id(final(self)@, x) <==> contains_id(old(self)@, x)),
            forall|x: u64|
                x != id && contains_id(old(self)@, x) ==> record_of(final(self)@, x) == record_of(
                    old(self)@,
                    x,
                ),
    {
        let n = self.records.len();
        let mut i: usize = 0;
        while i < n
            invariant
                i <= n,
                n == self@.len(),
                *self == *old(self),
                old(self).wf(),
                forall|j: int| 0 <= j < i ==> self@[j].id != id,
            decreases n - i,
        {
            if self.records[i].id == id {
                proof {
                    lemma_record_of_unique(old(self)@, i as int);
                }
                self.records.remove(i);
                proof {
                    let s0 = old(self)@;
                    let s1 = self@;
                    let k = i as int;
                    assert(s1 == s0.remove(k));
                    assert forall|a: int, b: int| 0 <= a < b < s1.len() implies s1[a].id
                        < s1[b].id by {
                        assert(s1[a] == (if a < k {
                            s0[a]
                        } else {
                            s0[a + 1]
                        }));
                        assert(s1[b] == (if b < k {
                            s0[b]
                        } else {
                            s0[b + 1]
                        }));
                    }
                    assert forall|a: int| 0 <= a < s1.len() implies s1[a].id
                        < self.spec_next_id() by {
                        assert(s1[a] == (if a < k {
                            s0[a]
                        } else {
                            s0[a + 1]
                        }));
                    }
                    assert forall|a: int| 0 <= a < s1.len() implies s1[a].id != id by {
                        assert(s1[a] == (if a < k {
                            s0[a]
                        } else {
                            s0[a + 1]
                        }));
                        if a >= k {
                            assert(s0[k].id < s0[a + 1].id);
                        }
                    }
                    assert(!contains_id(s1, id));
                    assert forall|x: u64| x != id && contains_id(s0, x) implies contains_id(s1, x)
                        && record_of(s1, x) == record_of(s0, x) by {
                        lemma_contains_id_witness(s0, x);
                        let m = idx_of_id(s0, x);
                        assert(s0[m].id == x);
                        if m < k {
                            assert(s1[m] == s0[m]);
                            lemma_record_of_unique(s1, m);
                        } else {
                            assert(m > k);
                            assert(s1[m - 1] == s0[m]);
                            lemma_record_of_unique(s1, m - 1);
                        }
                        lemma_record_of_unique(s0, m);
                    }
                    assert forall|x: u64| x != id && contains_id(s1, x) implies contains_id(
                        s0,
                        x,
                    ) by {
                        lemma_contains_id_witness(s1, x);
                        let m = idx_of_id(s1, x);
                        assert(s1[m] == (if m < k {
                            s0[m]
                        } else {
                            s0[m + 1]
                        }));
                    }
                }
                return ;
            }
            i += 1;
        }
        proof {
            assert(!contains_id(self@, id));
        }
    }
}

/// Linear scan: is `x` one of the listed ids?
pub(crate) fn ids_contain(ids: &Vec<u64>, x: u64) -> (found: bool)
    ensures
        found == ids@.contains(x),
{
    let mut k: usize = 0;
    while k < ids.len()
        invariant
            k <= ids@.len(),
            forall|m: int| 0 <= m < k ==> ids@[m] != x,
        decreases ids@.len() - k,
    {
        if ids[k] == x {
            assert(ids@[k as int] == x);
            return true;
        }
        k += 1;
    }
    false
}

} // verus!
