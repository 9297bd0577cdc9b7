//! The job registry: maps a job-kind name to its eligibility verdict, its
//! execution behavior, and its execution contract. The queue store holds
//! serialized payloads; the registry is what turns a `kind` string back into
//! typed behavior, and it is also where payload decoding is decided.

use vstd::prelude::*;

verus! {

/// Errors of the registry's API.
#[derive(Clone, Copy, PartialEq, Eq, Structural, Debug)]
pub enum JobError {
    /// The kind name is already registered.
    DuplicateKind,
    /// The kind name is not registered.
    InvalidKind,
    /// The payload could not be decoded.
    DeserializeError,
}

/// How abnormal termination (a panic during execution) is resolved for a
/// job kind: terminally, or by re-enqueueing the record for a later tick.
#[derive(Clone, Copy, PartialEq, Eq, Structural, Debug)]
pub enum PanicBehavior {
    /// The job is dead-lettered.
    Fail,
    /// The job returns to `Waiting` and becomes eligible for a later tick.
    Retry,
}

/// Per-kind execution policy. Its single dimension today is panic behavior;
/// it governs only abnormal termination, not logical errors.
#[derive(Clone, Copy, PartialEq, Eq, Structural, Debug)]
pub struct ExecutionContract {
    pub panic: PanicBehavior,
}

impl ExecutionContract {
    /// The default contract: a panicking job is failed terminally.
    pub fn new() -> (c: ExecutionContract)
        ensures
            c == (ExecutionContract { panic: PanicBehavior::Fail }),
    {
        ExecutionContract { panic: PanicBehavior::Fail }
    }
}

/// What executing a job of some kind does, as far as the queue can observe
/// it: the queue's own decisions depend only on which completion class the
/// worker pool reports, so a job type is modeled by that class.
#[derive(Clone, Copy, PartialEq, Eq, Structural, Debug)]
pub enum JobBehavior {
    /// `perform` completes successfully.
    Succeeds,
    /// `perform` returns a logical error of its own.
    Fails,
    /// Execution aborts abnormally; the worker pool contains the fault.
    Panics,
}

/// One registered job kind: its name, the eligibility verdict its
/// `should_run` gives once the payload decodes, its execution behavior, and
/// its execution contract.
#[derive(Debug)]
pub struct RegEntry {
    pub kind: String,
    pub runs: bool,
    pub behavior: JobBehavior,
    pub contract: ExecutionContract,
}

/// The registry itself: a table of entries with pairwise distinct kind
/// names, looked up by the kind string of each fetched record.
#[derive(Debug)]
pub struct Registry {
    entries: Vec<RegEntry>,
}

impl View for Registry {
    type V = Seq<RegEntry>;

    closed spec fn view(&self) -> Seq<RegEntry> {
        self.entries@
    }
}

impl Registry {
    /// Well-formedness: no kind name is registered twice.
    pub open spec fn wf(&self) -> bool {
        forall|i: int, j: int| 0 <= i < j < self@.len() ==> self@[i].kind@ != self@[j].kind@
    }

    /// Spec: is `kind` registered?
    pub open spec fn spec_registered(&self, kind: Seq<char>) -> bool {
        exists|i: int| 0 <= i < self@.len() && self@[i].kind@ == kind
    }

    /// Spec: the entry registered for `kind` (unique while `wf` holds).
    pub open spec fn spec_entry(&self, kind: Seq<char>) -> RegEntry {
        self@[choose|i: int| 0 <= i < self@.len() && self@[i].kind@ == kind]
    }

    /// Spec: the eligibility verdict of `kind` for a decodable payload.
    pub open spec fn spec_runs(&self, kind: Seq<char>) -> bool {
        self.spec_entry(kind).runs
    }

    /// Spec: the execution behavior registered for `kind`.
    pub open spec fn spec_behavior(&self, kind: Seq<char>) -> JobBehavior {
        self.spec_entry(kind).behavior
    }

    /// Spec: the execution contract registered for `kind`.
    pub open spec fn spec_contract(&self, kind: Seq<char>) -> ExecutionContract {
        self.spec_entry(kind).contract
    }

    /// An empty registry.
    pub fn new() -> (r: Registry)
        ensures
            r@ == Seq::<RegEntry>::empty(),
            r.wf(),
    {
        Registry { entries: Vec::new() }
    }

    /// Associate a kind name with its eligibility verdict, behavior and
    /// contract. Registering a name a second time is an error and leaves
    /// the registry unchanged.
    pub fn register(
        &mut self,
        kind: String,
        runs: bool,
        behavior: JobBehavior,
        contract: ExecutionContract,
    ) -> (r: Result<(), JobError>)
        requires
            old(self).wf(),
        ensures
            final(self).wf(),
            match r {
                Ok(()) => !old(self).spec_registered(kind@) && final(self)@ == old(self)@.push(
                    (RegEntry { kind, runs, behavior, contract }),
                ),
                Err(e) => e == JobError::DuplicateKind && old(self).spec_registered(kind@)
                    && *final(self) == *old(self),
            },
    {
        let n = self.entries.len();
        let mut i: usize = 0;
        while i < n
            invariant
                i <= n,
                n == self@.len(),
                *self == *old(self),
                old(self).wf(),
                forall|j: int| 0 <= j < i ==> self@[j].kind@ != kind@,
            decreases n - i,
        {
            if self.entries[i].kind == kind {
                proof {
                    assert(self@[i as int].kind@ == kind@);
                }
                return Err(JobError::DuplicateKind);
            }
            i += 1;
        }
        self.entries.push(RegEntry { kind, runs, behavior, contract });
        Ok(())
    }

    /// Find the entry registered for `kind`, if any.
    pub fn lookup(&self, kind: &String) -> (entry: Option<&RegEntry>)
        requires
            self.wf(),
        ensures
            match entry {
                Some(e) => self.spec_registered(kind@) && *e == self.spec_entry(kind@),
                None => !self.spec_registered(kind@),
            },
    {
        let n = self.entries.len();
        let mut i: usize = 0;
        while i < n
            invariant
                i <= n,
                n == self@.len(),
                self.wf(),
                forall|j: int| 0 <= j < i ==> self@[j].kind@ != kind@,
            decreases n - i,
        {
            if self.entries[i].kind == *kind {
                proof {
                    assert(self@[i as int].kind@ == kind@);
                    let c = choose|c: int| 0 <= c < self@.len() && self@[c].kind@ == kind@;
                    if c < i as int {
                        assert(self@[c].kind@ != self@[i as int].kind@);
                    } else if c > i as int {
                        assert(self@[i as int].kind@ != self@[c].kind@);
                    }
                }
                return Some(&self.entries[i]);
            }
            i += 1;
        }
        None
    }

    /// Deserialize `data` and evaluate eligibility for `kind`: the verdict
    /// registered for the kind once the payload decodes, `InvalidKind` for
    /// an unregistered kind, `DeserializeError` for an undecodable payload.
    pub fn should_run(&self, kind: &String, data: &String) -> (r: Result<bool, JobError>)
        requires
            self.wf(),
        ensures
            match r {
                Ok(b) => self.spec_registered(kind@) && payload_decodes(data@) && b
                    == self.spec_runs(kind@),
                Err(JobError::InvalidKind) => !self.spec_registered(kind@),
                Err(JobError::DeserializeError) => self.spec_registered(kind@)
                    && !payload_decodes(data@),
                Err(JobError::DuplicateKind) => false,
            },
    {
        match self.lookup(kind) {
            None => Err(JobError::InvalidKind),
            Some(entry) => {
                if payload_decode_check(data) {
                    Ok(entry.runs)
                } else {
                    Err(JobError::DeserializeError)
                }
            },
        }
    }
}

/// Spec: whether `data` decodes as a job payload. The queue's payload format
/// is a JSON object with a string field `msg`; which texts decode is decided
/// by serde_json, deterministically in the text alone, so the verdict is
/// left uninterpreted and pinned only at the trusted call below.
pub uninterp spec fn payload_decodes(data: Seq<char>) -> bool;

/// Relies on serde_json::from_str::<serde_json::Value>, serde_json::Value::get
/// and serde_json::Value::is_string: whether `data` is valid JSON holding a
/// string field `msg`. Deserialization is deterministic, so the verdict is a
/// function of the text alone.
#[verifier::external_body]
pub(crate) fn payload_decode_check(data: &String) -> (ok: bool)
    ensures
        ok == payload_decodes(data@),
{
    match serde_json::from_str::<serde_json::Value>(data) {
        Ok(v) => match v.get("msg") {
            Some(m) => m.is_string(),
            None => false,
        },
        Err(_) => false,
    }
}

} // verus!
