//! Job system types and state machine: the lifecycle of long-running file
//! operations, their progress, and cooperative cancellation.

use vstd::prelude::*;
use crate::text::dec_str;

verus! {

/// Unique identifier for a job.
#[derive(Debug, Clone, Copy, PartialEq, Eq, Hash, Structural)]
pub struct JobId(pub u64);

impl JobId {
    /// Create a job ID from a counter value.
    pub fn new(id: u64) -> (r: JobId)
        ensures
            r.0 == id,
    {
        JobId(id)
    }

    /// What `display` renders.
    pub open spec fn spec_display(&self) -> Seq<char> {
        "Job-"@ + dec_str(self.0 as nat)
    }

    /// Render the identifier for display.
    pub fn display(&self) -> (r: String)
        ensures
            r@ == self.spec_display(),
    {
        let mut s = "Job-".to_owned();
        let num = crate::text::u64_to_string(self.0);
        s.append(num.as_str());
        proof {
            assert(s@ =~= self.spec_display());
        }
        s
    }
}

/// The kind of operation a job performs.
#[derive(Debug, Clone, PartialEq)]
pub enum JobKind {
    /// Copy files/directories to a destination.
    Copy { sources: Vec<String>, destination: String },
    /// Move files/directories to a destination.
    Move { sources: Vec<String>, destination: String },
    /// Delete files/directories (to the recycle bin).
    Delete { paths: Vec<String> },
    /// Permanently delete files/directories.
    DeletePermanent { paths: Vec<String> },
    /// Calculate folder size.
    CalculateSize { path: String },
}

impl JobKind {
    /// What `description` renders for each kind.
    pub open spec fn spec_description(&self) -> Seq<char> {
        match *self {
            JobKind::Copy { sources, destination } => if sources@.len() == 1 {
                "Copying "@ + sources@[0]@
            } else {
                "Copying "@ + dec_str(sources@.len() as nat) + " items"@
            },
            JobKind::Move { sources, destination } => if sources@.len() == 1 {
                "Moving "@ + sources@[0]@
            } else {
                "Moving "@ + dec_str(sources@.len() as nat) + " items"@
            },
            JobKind::Delete { paths } => if paths@.len() == 1 {
                "Deleting "@ + paths@[0]@
            } else {
                "Deleting "@ + dec_str(paths@.len() as nat) + " items"@
            },
            JobKind::DeletePermanent { paths } => if paths@.len() == 1 {
                "Deleting "@ + paths@[0]@
            } else {
                "Deleting "@ + dec_str(paths@.len() as nat) + " items"@
            },
            JobKind::CalculateSize { path } => "Calculating size of "@ + path@,
        }
    }

    /// Get a human-readable description of the job kind.
    pub fn description(&self) -> (r: String)
        ensures
            r@ == self.spec_description(),
    {
        match self {
            JobKind::Copy { sources, .. } => describe_paths("Copying ", sources),
            JobKind::Move { sources, .. } => describe_paths("Moving ", sources),
            JobKind::Delete { paths } => describe_paths("Deleting ", paths),
            JobKind::DeletePermanent { paths } => describe_paths("Deleting ", paths),
            JobKind::CalculateSize { path } => {
                let mut s = "Calculating size of ".to_owned();
                s.append(path.as_str());
                s
            },
        }
    }

    /// How many top-level items this job will process.
    pub open spec fn spec_item_count(&self) -> int {
        match *self {
            JobKind::Copy { sources, .. } => sources@.len() as int,
            JobKind::Move { sources, .. } => sources@.len() as int,
            JobKind::Delete { paths } => paths@.len() as int,
            JobKind::DeletePermanent { paths } => paths@.len() as int,
            JobKind::CalculateSize { .. } => 1,
        }
    }

    /// Get the total number of items this job will process.
    pub fn item_count(&self) -> (r: usize)
        ensures
            r == self.spec_item_count(),
    {
        match self {
            JobKind::Copy { sources, .. } => sources.len(),
            JobKind::Move { sources, .. } => sources.len(),
            JobKind::Delete { paths } => paths.len(),
            JobKind::DeletePermanent { paths } => paths.len(),
            JobKind::CalculateSize { .. } => 1,
        }
    }
}

/// Renders "<verb><path>" for one path and "<verb><n> items" for several.
fn describe_paths(verb: &str, paths: &Vec<String>) -> (r: String)
    ensures
        paths@.len() == 1 ==> r@ == verb@ + paths@[0]@,
        paths@.len() != 1 ==> r@ == verb@ + dec_str(paths@.len() as nat) + " items"@,
{
    let mut s = verb.to_owned();
    if paths.len() == 1 {
        s.append(paths[0].as_str());
        s
    } else {
        let num = crate::text::u64_to_string(paths.len() as u64);
        s.append(num.as_str());
        s.append(" items");
        proof {
            assert(s@ =~= verb@ + dec_str(paths@.len() as nat) + " items"@);
        }
        s
    }
}

/// The current state of a job in its lifecycle.
#[derive(Debug, Clone, Copy, PartialEq, Eq, Structural)]
pub enum JobState {
    /// Job is queued but not yet started.
    Pending,
    /// Job is currently running.
    Running,
    /// Job is paused by user.
    Paused,
    /// Job completed successfully.
    Completed,
    /// Job failed with an error.
    Failed,
    /// Job was cancelled by user.
    Cancelled,
}

impl JobState {
    /// Terminal states reject every further transition.
    pub open spec fn spec_is_terminal(&self) -> bool {
        self is Completed || self is Failed || self is Cancelled
    }

    /// Check if the job is in a terminal state.
    pub fn is_terminal(&self) -> (r: bool)
        ensures
            r == self.spec_is_terminal(),
    {
        matches!(self, JobState::Completed | JobState::Failed | JobState::Cancelled)
    }

    /// Check if the job is currently active (running or paused).
    pub fn is_active(&self) -> (r: bool)
        ensures
            r == (self is Running || self is Paused),
    {
        matches!(self, JobState::Running | JobState::Paused)
    }

    /// What `label` renders for each state.
    pub open spec fn spec_label(&self) -> Seq<char> {
        match *self {
            JobState::Pending => "Pending"@,
            JobState::Running => "Running"@,
            JobState::Paused => "Paused"@,
            JobState::Completed => "Completed"@,
            JobState::Failed => "Failed"@,
            JobState::Cancelled => "Cancelled"@,
        }
    }

    /// Get a human-readable label.
    pub fn label(&self) -> (r: &'static str)
        ensures
            r@ == self.spec_label(),
    {
        match self {
            JobState::Pending => "Pending",
            JobState::Running => "Running",
            JobState::Paused => "Paused",
            JobState::Completed => "Completed",
            JobState::Failed => "Failed",
            JobState::Cancelled => "Cancelled",
        }
    }
}

/// Progress information for a running job.
#[derive(Debug, Clone, PartialEq)]
pub struct Progress {
    /// Total bytes to process (if known).
    pub total_bytes: Option<u64>,
    /// Bytes processed so far.
    pub bytes_done: u64,
    /// Total number of items (files/folders).
    pub total_items: usize,
    /// Items processed so far.
    pub items_done: usize,
    /// Current item being processed.
    pub current_item: Option<String>,
    /// Estimated seconds remaining.
    pub eta: Option<u64>,
    /// Current transfer speed in bytes/sec.
    pub speed_bytes_per_sec: Option<u64>,
}

/// The integer completion percentage a progress record reports: bytes when
/// a nonzero byte total is known, items otherwise, capped at 100.
pub open spec fn spec_percentage_int(p: Progress) -> int {
    match p.total_bytes {
        Some(t) => if t > 0 {
            if p.bytes_done >= t {
                100
            } else {
                (p.bytes_done * 200 + t) / (2 * t as int)
            }
        } else {
            items_percentage(p)
        },
        None => items_percentage(p),
    }
}

/// The item-based percentage fallback.
pub open spec fn items_percentage(p: Progress) -> int {
    if p.total_items > 0 {
        if p.items_done >= p.total_items {
            100
        } else {
            (p.items_done * 200 + p.total_items) / (2 * p.total_items as int)
        }
    } else {
        0
    }
}

impl Progress {
    /// Create a new Progress with initial values.
    pub fn new(total_items: usize, total_bytes: Option<u64>) -> (r: Progress)
        ensures
            r.total_bytes == total_bytes,
            r.bytes_done == 0,
            r.total_items == total_items,
            r.items_done == 0,
            r.current_item is None,
            r.eta is None,
            r.speed_bytes_per_sec is None,
    {
        Progress {
            total_bytes,
            bytes_done: 0,
            total_items,
            items_done: 0,
            current_item: None,
            eta: None,
            speed_bytes_per_sec: None,
        }
    }

    /// Calculate the completion percentage as an integer (0 to 100),
    /// rounded to nearest.
    pub fn percentage_int(&self) -> (r: u8)
        ensures
            r == spec_percentage_int(*self),
            r <= 100,
    {
        let bytes_based: Option<u8> = match self.total_bytes {
            Some(t) => {
                if t > 0 {
                    if self.bytes_done >= t {
                        Some(100)
                    } else {
                        let q: u128 = ((self.bytes_done as u128) * 200 + (t as u128)) / (2 * (
                        t as u128));
                        proof {
                            let b = self.bytes_done as int;
                            let tt = t as int;
                            assert(b * 200 + tt < (tt * 2) * 101) by (nonlinear_arith)
                                requires
                                    b < tt,
                                    tt > 0,
                            ;
                            assert((b * 200 + tt) / (2 * tt) < 101) by (nonlinear_arith)
                                requires
                                    b * 200 + tt < (tt * 2) * 101,
                                    tt > 0,
                            ;
                        }
                        Some(q as u8)
                    }
                } else {
                    None
                }
            },
            None => None,
        };
        match bytes_based {
            Some(v) => v,
            None => {
                if self.total_items > 0 {
                    if self.items_done >= self.total_items {
                        100
                    } else {
                        let q: u128 = ((self.items_done as u128) * 200 + (
                        self.total_items as u128)) / (2 * (self.total_items as u128));
                        proof {
                            let b = self.items_done as int;
                            let tt = self.total_items as int;
                            assert(b * 200 + tt < (tt * 2) * 101) by (nonlinear_arith)
                                requires
                                    b < tt,
                                    tt > 0,
                            ;
                            assert((b * 200 + tt) / (2 * tt) < 101) by (nonlinear_arith)
                                requires
                                    b * 200 + tt < (tt * 2) * 101,
                                    tt > 0,
                            ;
                        }
                        q as u8
                    }
                } else {
                    0
                }
            },
        }
    }
}

impl Default for Progress {
    fn default() -> (r: Progress)
        ensures
            r.total_bytes is None,
            r.bytes_done == 0,
            r.total_items == 0,
            r.items_done == 0,
    {
        Progress::new(0, None)
    }
}


/// Milliseconds of wall-clock time since the Unix epoch. Relies on
/// std::time::SystemTime; nothing is promised of the clock's value.
#[verifier::external_body]
pub fn now_millis() -> u64 {
    match std::time::SystemTime::now().duration_since(std::time::UNIX_EPOCH) {
        Ok(d) => d.as_millis() as u64,
        Err(_) => 0,
    }
}

/// A cancellation token for cooperative cancellation of jobs.
///
/// Clones share one flag: a worker polling any clone observes a
/// cancellation requested through any other. The flag's state lives outside
/// what the verifier tracks; callers act on what `is_cancelled` returned.
#[derive(Debug, Clone)]
pub struct CancellationToken {
    cancelled: std::sync::Arc<core::sync::atomic::AtomicBool>,
}

impl CancellationToken {
    /// Create a new cancellation token with the flag clear. Relies on
    /// AtomicBool::new and Arc::new.
    #[verifier::external_body]
    pub fn new() -> CancellationToken {
        CancellationToken {
            cancelled: std::sync::Arc::new(core::sync::atomic::AtomicBool::new(false)),
        }
    }

    /// Request cancellation: sets the shared flag. Relies on
    /// AtomicBool::store with sequentially consistent ordering.
    #[verifier::external_body]
    pub fn cancel(&self) {
        self.cancelled.store(true, core::sync::atomic::Ordering::SeqCst);
    }

    /// Check if cancellation has been requested. Relies on
    /// AtomicBool::load; the answer reflects the shared flag at some moment
    /// of the call.
    #[verifier::external_body]
    pub fn is_cancelled(&self) -> bool {
        self.cancelled.load(core::sync::atomic::Ordering::SeqCst)
    }

    /// Reset the token (for reuse): clears the shared flag. Relies on
    /// AtomicBool::store.
    #[verifier::external_body]
    pub fn reset(&self) {
        self.cancelled.store(false, core::sync::atomic::Ordering::SeqCst);
    }
}

/// A complete job with all its metadata.
#[derive(Debug, Clone)]
pub struct Job {
    /// Unique identifier.
    pub id: JobId,
    /// What operation to perform.
    pub kind: JobKind,
    /// Current state.
    pub state: JobState,
    /// Progress information.
    pub progress: Progress,
    /// When the job was created, milliseconds since the Unix epoch.
    pub created_at: u64,
    /// When the job started running (if started).
    pub started_at: Option<u64>,
    /// When the job finished (if finished).
    pub finished_at: Option<u64>,
    /// Error message if failed.
    pub error: Option<String>,
    /// Cancellation token.
    pub cancellation: CancellationToken,
}

impl Job {
    /// Create a new pending job under the given identifier.
    pub fn new(id: JobId, kind: JobKind) -> (r: Job)
        ensures
            r.id == id,
            r.kind == kind,
            r.state is Pending,
            r.progress.total_items == kind.spec_item_count(),
            r.progress.items_done == 0,
            r.progress.bytes_done == 0,
            r.started_at is None,
            r.finished_at is None,
            r.error is None,
    {
        let total_items = kind.item_count();
        Job {
            id,
            kind,
            state: JobState::Pending,
            progress: Progress::new(total_items, None),
            created_at: now_millis(),
            started_at: None,
            finished_at: None,
            error: None,
            cancellation: CancellationToken::new(),
        }
    }

    /// Transition the job to Running; only a pending job starts, and
    /// nothing else about the job moves.
    pub fn start(&mut self)
        ensures
            old(self).state is Pending ==> final(self).state is Running && final(self).started_at is Some,
            !(old(self).state is Pending) ==> final(self).state == old(self).state && final(self).started_at == old(self).started_at,
            final(self).id == old(self).id,
            final(self).kind == old(self).kind,
            final(self).progress == old(self).progress,
            final(self).error == old(self).error,
            final(self).finished_at == old(self).finished_at,
            final(self).created_at == old(self).created_at,
    {
        if matches!(self.state, JobState::Pending) {
            self.state = JobState::Running;
            self.started_at = Some(now_millis());
        }
    }

    /// Pause the job; only a running job pauses, and only the state moves.
    pub fn pause(&mut self)
        ensures
            old(self).state is Running ==> final(self).state is Paused,
            !(old(self).state is Running) ==> final(self).state == old(self).state,
            final(self).id == old(self).id,
            final(self).kind == old(self).kind,
            final(self).progress == old(self).progress,
            final(self).error == old(self).error,
            final(self).started_at == old(self).started_at,
            final(self).finished_at == old(self).finished_at,
            final(self).created_at == old(self).created_at,
    {
        if matches!(self.state, JobState::Running) {
            self.state = JobState::Paused;
        }
    }

    /// Resume a paused job; only the state moves.
    pub fn resume(&mut self)
        ensures
            old(self).state is Paused ==> final(self).state is Running,
            !(old(self).state is Paused) ==> final(self).state == old(self).state,
            final(self).id == old(self).id,
            final(self).kind == old(self).kind,
            final(self).progress == old(self).progress,
            final(self).error == old(self).error,
            final(self).started_at == old(self).started_at,
            final(self).finished_at == old(self).finished_at,
            final(self).created_at == old(self).created_at,
    {
        if matches!(self.state, JobState::Paused) {
            self.state = JobState::Running;
        }
    }

    /// Return a paused job to the queue (no slot was free); only the
    /// state moves.
    pub fn requeue(&mut self)
        ensures
            old(self).state is Paused ==> final(self).state is Pending,
            !(old(self).state is Paused) ==> final(self).state == old(self).state,
            final(self).id == old(self).id,
            final(self).kind == old(self).kind,
            final(self).progress == old(self).progress,
            final(self).error == old(self).error,
            final(self).started_at == old(self).started_at,
            final(self).finished_at == old(self).finished_at,
            final(self).created_at == old(self).created_at,
    {
        if matches!(self.state, JobState::Paused) {
            self.state = JobState::Pending;
        }
    }

    /// Record a progress update.
    pub fn set_progress(&mut self, progress: Progress)
        ensures
            final(self).progress == progress,
            final(self).id == old(self).id,
            final(self).kind == old(self).kind,
            final(self).state == old(self).state,
            final(self).error == old(self).error,
            final(self).started_at == old(self).started_at,
            final(self).finished_at == old(self).finished_at,
    {
        self.progress = progress;
    }

    /// Mark the job as completed; a terminal job does not change at all.
    pub fn complete(&mut self)
        ensures
            !old(self).state.spec_is_terminal() ==> final(self).state is Completed && final(self).finished_at is Some,
            old(self).state.spec_is_terminal() ==> final(self).state == old(self).state && final(self).finished_at == old(self).finished_at,
            final(self).id == old(self).id,
            final(self).kind == old(self).kind,
            final(self).error == old(self).error,
            final(self).progress == old(self).progress,
            final(self).started_at == old(self).started_at,
            final(self).created_at == old(self).created_at,
    {
        if !self.state.is_terminal() {
            self.state = JobState::Completed;
            self.finished_at = Some(now_millis());
        }
    }

    /// Mark the job as failed with an error; terminal states reject the
    /// transition.
    pub fn fail(&mut self, error: String)
        ensures
            !old(self).state.spec_is_terminal() ==> final(self).state is Failed && final(self).error == Some(error) && final(self).finished_at is Some,
            old(self).state.spec_is_terminal() ==> final(self).state == old(self).state && final(self).error == old(self).error && final(self).finished_at == old(self).finished_at,
            final(self).id == old(self).id,
            final(self).kind == old(self).kind,
            final(self).progress == old(self).progress,
            final(self).started_at == old(self).started_at,
            final(self).created_at == old(self).created_at,
    {
        if !self.state.is_terminal() {
            self.state = JobState::Failed;
            self.error = Some(error);
            self.finished_at = Some(now_millis());
        }
    }

    /// Cancel the job; the shared token is signalled and the state becomes
    /// Cancelled unless already terminal.
    pub fn cancel(&mut self)
        ensures
            !old(self).state.spec_is_terminal() ==> final(self).state is Cancelled && final(self).finished_at is Some,
            old(self).state.spec_is_terminal() ==> final(self).state == old(self).state && final(self).finished_at == old(self).finished_at,
            final(self).id == old(self).id,
            final(self).kind == old(self).kind,
            final(self).error == old(self).error,
            final(self).progress == old(self).progress,
            final(self).started_at == old(self).started_at,
            final(self).created_at == old(self).created_at,
    {
        if !self.state.is_terminal() {
            self.cancellation.cancel();
            self.state = JobState::Cancelled;
            self.finished_at = Some(now_millis());
        }
    }

    /// The running time in milliseconds, from start to finish or to now.
    pub fn running_time(&self) -> (r: Option<u64>)
        ensures
            self.started_at is None ==> r is None,
            self.started_at is Some ==> r is Some,
    {
        match self.started_at {
            Some(start) => {
                let end = match self.finished_at {
                    Some(end) => end,
                    None => now_millis(),
                };
                if end >= start {
                    Some(end - start)
                } else {
                    Some(0)
                }
            },
            None => None,
        }
    }
}

/// A snapshot of job information for display.
#[derive(Debug, Clone, PartialEq)]
pub struct JobInfo {
    pub id: JobId,
    pub description: String,
    pub state: JobState,
    pub progress_percent: u8,
    pub items_done: usize,
    pub total_items: usize,
    pub bytes_done: u64,
    pub total_bytes: Option<u64>,
    pub current_item: Option<String>,
    pub speed_bytes_per_sec: Option<u64>,
    pub eta_secs: Option<u64>,
    pub error: Option<String>,
}

impl JobInfo {
    /// Take a display snapshot of a job.
    pub fn from_job(job: &Job) -> (r: JobInfo)
        ensures
            r.id == job.id,
            r.description@ == job.kind.spec_description(),
            r.state == job.state,
            r.progress_percent == spec_percentage_int(job.progress),
            r.items_done == job.progress.items_done,
            r.total_items == job.progress.total_items,
            r.bytes_done == job.progress.bytes_done,
            r.total_bytes == job.progress.total_bytes,
            r.current_item == job.progress.current_item,
            r.speed_bytes_per_sec == job.progress.speed_bytes_per_sec,
            r.eta_secs == job.progress.eta,
            r.error == job.error,
    {
        JobInfo {
            id: job.id,
            description: job.kind.description(),
            state: job.state,
            progress_percent: job.progress.percentage_int(),
            items_done: job.progress.items_done,
            total_items: job.progress.total_items,
            bytes_done: job.progress.bytes_done,
            total_bytes: job.progress.total_bytes,
            current_item: match &job.progress.current_item {
                Some(s) => Some(s.clone()),
                None => None,
            },
            speed_bytes_per_sec: job.progress.speed_bytes_per_sec,
            eta_secs: job.progress.eta,
            error: match &job.error {
                Some(s) => Some(s.clone()),
                None => None,
            },
        }
    }
}

/// Statistics about all jobs.
#[derive(Debug, Clone, PartialEq, Eq, Structural)]
pub struct JobStats {
    pub pending: usize,
    pub running: usize,
    pub paused: usize,
    pub completed: usize,
    pub failed: usize,
    pub cancelled: usize,
}

impl Default for JobStats {
    fn default() -> (r: JobStats)
        ensures
            r.pending == 0 && r.running == 0 && r.paused == 0 && r.completed == 0 && r.failed == 0
                && r.cancelled == 0,
    {
        JobStats { pending: 0, running: 0, paused: 0, completed: 0, failed: 0, cancelled: 0 }
    }
}

impl JobStats {
    /// Total number of jobs.
    pub fn total(&self) -> (r: usize)
        requires
            self.pending + self.running + self.paused + self.completed + self.failed
                + self.cancelled <= usize::MAX,
        ensures
            r == self.pending + self.running + self.paused + self.completed + self.failed
                + self.cancelled,
    {
        self.pending + self.running + self.paused + self.completed + self.failed + self.cancelled
    }

    /// Number of active (non-terminal) jobs.
    pub fn active(&self) -> (r: usize)
        requires
            self.pending + self.running + self.paused <= usize::MAX,
        ensures
            r == self.pending + self.running + self.paused,
    {
        self.pending + self.running + self.paused
    }
}

} // verus!
