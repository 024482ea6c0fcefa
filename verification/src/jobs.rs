//! The job lifecycle and the job store.
//!
//! A job moves Pending, then Running, then Completed or Failed; the two
//! final states are terminal. Every mutation goes through one event
//! application whose contract keeps the status sequence monotone and the
//! progress non-decreasing while running. The store is a registry of job
//! records keyed by identifier, mutated one record at a time.

use vstd::prelude::*;
use vstd::string::StringExecFns;
use vstd::string::StrSliceExecFns;
use std::collections::HashMap;
use crate::types::{StatusResponse, clone_opt_string};
use crate::fmt::{push_char, spec_hex_digit};

verus! {

/// The lifecycle states of a render job.
#[derive(Clone, Copy, Debug, PartialEq, Eq, Structural)]
pub enum JobStatus {
    Pending,
    Running,
    Completed,
    Failed,
}

/// How far along the lifecycle a status is. Both terminal states share
/// the last rank: a job reaches one of them, never both.
pub open spec fn status_rank(s: JobStatus) -> int {
    match s {
        JobStatus::Pending => 0,
        JobStatus::Running => 1,
        JobStatus::Completed => 2,
        JobStatus::Failed => 2,
    }
}

/// A terminal status: nothing follows it.
pub open spec fn is_terminal(s: JobStatus) -> bool {
    s == JobStatus::Completed || s == JobStatus::Failed
}

/// One asynchronous render request and its tracked state.
#[derive(Debug)]
pub struct Job {
    pub id: u128,
    pub status: JobStatus,
    pub progress: u32,
    pub output_path: Option<String>,
    pub error: Option<String>,
    pub created_at_ms: u64,
    pub workdir: String,
}

impl Clone for Job {
    fn clone(&self) -> (r: Self)
        ensures
            r == *self,
    {
        Job {
            id: self.id,
            status: self.status,
            progress: self.progress,
            output_path: clone_opt_string(&self.output_path),
            error: clone_opt_string(&self.error),
            created_at_ms: self.created_at_ms,
            workdir: self.workdir.clone(),
        }
    }
}

impl Job {
    /// A job record is well formed: progress stays a percentage, a
    /// completed job has full progress and an output path, and a failed
    /// job carries its error.
    pub open spec fn wf(self) -> bool {
        &&& self.progress <= 100
        &&& self.status == JobStatus::Completed ==> self.progress == 100 && self.output_path
            is Some
        &&& self.status == JobStatus::Failed ==> self.error is Some
    }

    /// A fresh Pending job for the given working directory, under a new
    /// random identifier.
    pub fn new(workdir: String, created_at_ms: u64) -> (r: Job)
        ensures
            r.status == JobStatus::Pending,
            r.progress == 0,
            r.output_path is None,
            r.error is None,
            r.created_at_ms == created_at_ms,
            r.workdir == workdir,
            r.wf(),
    {
        Job {
            id: new_job_id(),
            status: JobStatus::Pending,
            progress: 0,
            output_path: None,
            error: None,
            created_at_ms: created_at_ms,
            workdir: workdir,
        }
    }

    /// Apply one lifecycle event.
    pub fn apply(&mut self, ev: JobEvent)
        ensures
            *final(self) == spec_apply(*old(self), ev),
    {
        match self.status {
            JobStatus::Completed | JobStatus::Failed => {},
            _ => {
                match ev {
                    JobEvent::Start => {
                        self.status = JobStatus::Running;
                    },
                    JobEvent::Progress(p) => {
                        match self.status {
                            JobStatus::Running => {
                                let capped = if p > 100 {
                                    100
                                } else {
                                    p
                                };
                                if capped > self.progress {
                                    self.progress = capped;
                                }
                            },
                            _ => {},
                        }
                    },
                    JobEvent::Complete(path) => {
                        self.status = JobStatus::Completed;
                        self.progress = 100;
                        self.output_path = Some(path);
                    },
                    JobEvent::Fail(msg) => {
                        self.status = JobStatus::Failed;
                        self.error = Some(msg);
                    },
                }
            },
        }
    }

    /// The client-facing view of this job: a status word, the progress,
    /// an output reference once an output path exists, and the error
    /// once one was recorded.
    pub fn to_status_response(&self, base_url: &str) -> (r: StatusResponse)
        ensures
            r.status@ == spec_status_str(self.status),
            r.progress == self.progress,
            (r.url is Some) == (self.output_path is Some),
            r.url matches Some(us) ==> us@ == base_url@ + "/render/"@ + spec_uuid_str(
                self.id as nat,
            ) + "/output"@,
            r.error == self.error,
    {
        proof {
            reveal_strlit("PENDING");
            reveal_strlit("RUNNING");
            reveal_strlit("COMPLETED");
            reveal_strlit("FAILED");
        }
        let status: &str = match self.status {
            JobStatus::Pending => "PENDING",
            JobStatus::Running => "RUNNING",
            JobStatus::Completed => "COMPLETED",
            JobStatus::Failed => "FAILED",
        };
        let url: Option<String> = match &self.output_path {
            Some(_) => {
                let mut u = base_url.to_owned();
                u.append("/render/");
                let ids = uuid_string(self.id);
                u.append(ids.as_str());
                u.append("/output");
                Some(u)
            },
            None => None,
        };
        StatusResponse {
            status: status.to_owned(),
            progress: self.progress,
            url: url,
            error: clone_opt_string(&self.error),
        }
    }
}

/// The status word served to clients.
pub open spec fn spec_status_str(s: JobStatus) -> Seq<char> {
    match s {
        JobStatus::Pending => "PENDING"@,
        JobStatus::Running => "RUNNING"@,
        JobStatus::Completed => "COMPLETED"@,
        JobStatus::Failed => "FAILED"@,
    }
}

/// One event in a job's life: the process is about to start, progress
/// was observed, the process finished with its artifact, or a stage
/// failed with a message.
pub enum JobEvent {
    Start,
    Progress(u32),
    Complete(String),
    Fail(String),
}

/// What applying an event does to a job. A terminal job is left
/// untouched; a progress report is capped at 100 and never lowers the
/// recorded progress; completion forces progress to 100 and records the
/// artifact; failure records the message and keeps the progress.
pub open spec fn spec_apply(j: Job, ev: JobEvent) -> Job {
    if is_terminal(j.status) {
        j
    } else {
        match ev {
            JobEvent::Start => Job { status: JobStatus::Running, ..j },
            JobEvent::Progress(p) => {
                if j.status == JobStatus::Running {
                    let capped: u32 = if p > 100 {
                        100
                    } else {
                        p
                    };
                    if capped > j.progress {
                        Job { progress: capped, ..j }
                    } else {
                        j
                    }
                } else {
                    j
                }
            },
            JobEvent::Complete(path) => Job {
                status: JobStatus::Completed,
                progress: 100,
                output_path: Some(path),
                ..j
            },
            JobEvent::Fail(msg) => Job { status: JobStatus::Failed, error: Some(msg), ..j },
        }
    }
}

/// Status monotonicity: an event never moves a job backwards, a
/// terminal job never changes at all, and a job that left Pending never
/// shows Pending again. Over any event sequence the observed statuses
/// are therefore a subsequence of Pending, Running, then one of
/// Completed or Failed.
pub proof fn lemma_status_monotone(j: Job, ev: JobEvent)
    ensures
        status_rank(spec_apply(j, ev).status) >= status_rank(j.status),
        is_terminal(j.status) ==> spec_apply(j, ev) == j,
        spec_apply(j, ev).status == JobStatus::Pending ==> j.status == JobStatus::Pending,
{
}

/// Progress behaviour: events preserve well-formedness, progress never
/// decreases while a job stays Running, and a completed job shows
/// exactly 100.
pub proof fn lemma_progress_monotone(j: Job, ev: JobEvent)
    requires
        j.wf(),
    ensures
        spec_apply(j, ev).wf(),
        j.status == JobStatus::Running && spec_apply(j, ev).status == JobStatus::Running
            ==> spec_apply(j, ev).progress >= j.progress,
        spec_apply(j, ev).status == JobStatus::Completed ==> spec_apply(j, ev).progress == 100,
{
}

/// Relies on uuid::Uuid::new_v4, a version-4 random identifier, taken
/// as its 128-bit value. Nothing is promised of a random value.
#[verifier::external_body]
fn new_job_id() -> u128 {
    uuid::Uuid::new_v4().as_u128()
}

/// The last `k` hexadecimal digits of `n`, zero-padded on the left.
pub open spec fn spec_hex_padded(n: nat, k: nat) -> Seq<char>
    decreases k,
{
    if k == 0 {
        Seq::empty()
    } else {
        spec_hex_padded(n / 16, (k - 1) as nat).push(spec_hex_digit(n % 16))
    }
}

/// The canonical hyphenated form of a 128-bit identifier: 32 hex digits
/// in groups of 8, 4, 4, 4 and 12.
pub open spec fn spec_uuid_str(n: nat) -> Seq<char> {
    let h = spec_hex_padded(n, 32);
    h.subrange(0, 8) + seq!['-'] + h.subrange(8, 12) + seq!['-'] + h.subrange(12, 16)
        + seq!['-'] + h.subrange(16, 20) + seq!['-'] + h.subrange(20, 32)
}

fn hex_digit_char(d: u128) -> (c: char)
    requires
        d < 16,
    ensures
        c == spec_hex_digit(d as nat),
{
    match d {
        0 => '0',
        1 => '1',
        2 => '2',
        3 => '3',
        4 => '4',
        5 => '5',
        6 => '6',
        7 => '7',
        8 => '8',
        9 => '9',
        10 => 'a',
        11 => 'b',
        12 => 'c',
        13 => 'd',
        14 => 'e',
        _ => 'f',
    }
}

/// Append the last `k` hexadecimal digits of `n`, zero-padded.
fn append_hex_padded(s: &mut String, n: u128, k: u32)
    ensures
        final(s)@ == old(s)@ + spec_hex_padded(n as nat, k as nat),
    decreases k,
{
    if k == 0 {
        proof {
            assert(old(s)@ + spec_hex_padded(n as nat, 0) =~= old(s)@);
        }
    } else {
        append_hex_padded(s, n / 16, k - 1);
        push_char(s, hex_digit_char(n % 16));
    }
}

/// Render a 128-bit identifier in the canonical hyphenated form.
pub fn uuid_string(id: u128) -> (r: String)
    ensures
        r@ == spec_uuid_str(id as nat),
{
    let mut h = String::new();
    append_hex_padded(&mut h, id, 32);
    proof {
        assert(h@ =~= spec_hex_padded(id as nat, 32));
        lemma_hex_padded_len(id as nat, 32);
    }
    let mut s = h.as_str().substring_char(0, 8).to_owned();
    push_char(&mut s, '-');
    s.append(h.as_str().substring_char(8, 12));
    push_char(&mut s, '-');
    s.append(h.as_str().substring_char(12, 16));
    push_char(&mut s, '-');
    s.append(h.as_str().substring_char(16, 20));
    push_char(&mut s, '-');
    s.append(h.as_str().substring_char(20, 32));
    proof {
        assert(s@ =~= spec_uuid_str(id as nat));
    }
    s
}

/// `spec_hex_padded` yields exactly `k` characters.
proof fn lemma_hex_padded_len(n: nat, k: nat)
    ensures
        spec_hex_padded(n, k).len() == k,
    decreases k,
{
    if k > 0 {
        lemma_hex_padded_len(n / 16, (k - 1) as nat);
    }
}

/// The registry of jobs by identifier: any number of readers see the
/// latest committed record, and each mutation is one atomic
/// read-modify-write of a single record.
pub struct JobStore {
    pub jobs: HashMap<u128, Job>,
}

impl JobStore {
    /// The registry's contents.
    pub open spec fn view(&self) -> Map<u128, Job> {
        self.jobs@
    }

    /// An empty registry.
    pub fn new() -> (r: JobStore)
        ensures
            r@ == Map::<u128, Job>::empty(),
    {
        JobStore { jobs: HashMap::new() }
    }

    /// Register a job under its identifier, replacing any record with
    /// the same identifier.
    pub fn insert(&mut self, job: Job) -> (id: u128)
        ensures
            id == job.id,
            final(self)@ == old(self)@.insert(job.id, job),
    {
        let id = job.id;
        self.jobs.insert(id, job);
        id
    }

    /// The latest committed record of a job, if the identifier is known.
    pub fn get(&self, id: u128) -> (r: Option<Job>)
        ensures
            match r {
                Some(j) => self@.dom().contains(id) && j == self@[id],
                None => !self@.dom().contains(id),
            },
    {
        match self.jobs.get(&id) {
            Some(j) => Some(j.clone()),
            None => None,
        }
    }

    /// Apply one lifecycle event to one record, atomically with respect
    /// to this store value: every other record is untouched, and an
    /// unknown identifier changes nothing.
    pub fn update(&mut self, id: u128, ev: JobEvent)
        ensures
            old(self)@.dom().contains(id) ==> final(self)@ == old(self)@.insert(
                id,
                spec_apply(old(self)@[id], ev),
            ),
            !old(self)@.dom().contains(id) ==> final(self)@ == old(self)@,
    {
        let found = match self.jobs.get(&id) {
            Some(j) => Some(j.clone()),
            None => None,
        };
        match found {
            Some(mut job) => {
                job.apply(ev);
                self.jobs.insert(id, job);
            },
            None => {},
        }
    }
}

impl Default for JobStore {
    /// An empty registry.
    fn default() -> (r: Self)
        ensures
            r@ == Map::<u128, Job>::empty(),
    {
        JobStore::new()
    }
}

} // verus!
