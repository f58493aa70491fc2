//! The scheduler's decision core: a job table with admission under a
//! concurrency cap, the lifecycle transitions, and history retention. A
//! runtime loop feeds it commands and broadcasts the events it returns.

use vstd::prelude::*;
use crate::job::{Job, JobId, JobInfo, JobKind, JobState, JobStats, Progress};
use crate::ordering::{lemma_sum_by_push, lemma_sum_by_update, sum_by};

verus! {

/// Configuration for the job scheduler.
#[derive(Debug, Clone, PartialEq, Eq, Structural)]
pub struct SchedulerConfig {
    /// Maximum number of jobs that can run concurrently.
    pub max_concurrent_jobs: usize,
    /// Size of the progress broadcast channel.
    pub progress_channel_size: usize,
    /// Maximum number of completed jobs to keep in history.
    pub max_history: usize,
}

impl Default for SchedulerConfig {
    fn default() -> (r: SchedulerConfig)
        ensures
            r.max_concurrent_jobs == 2,
            r.progress_channel_size == 256,
            r.max_history == 100,
    {
        SchedulerConfig { max_concurrent_jobs: 2, progress_channel_size: 256, max_history: 100 }
    }
}

/// Events emitted by the scheduler for subscribers.
#[derive(Debug, Clone)]
pub enum SchedulerEvent {
    /// A new job was added to the queue.
    JobAdded(JobId),
    /// A job started running.
    JobStarted(JobId),
    /// Progress update for a running job.
    JobProgress(JobId, Progress),
    /// A job completed successfully.
    JobCompleted(JobId),
    /// A job failed with an error.
    JobFailed(JobId, String),
    /// A job was cancelled.
    JobCancelled(JobId),
    /// A job was paused.
    JobPaused(JobId),
    /// A job was resumed.
    JobResumed(JobId),
}

/// The weight counting jobs in one state.
pub open spec fn state_weight(st: JobState) -> spec_fn(Job) -> int {
    |j: Job|
        if j.state == st {
            1int
        } else {
            0int
        }
}

/// How many of the jobs are running.
pub open spec fn running_jobs(s: Seq<Job>) -> int {
    sum_by(s, state_weight(JobState::Running))
}

/// The jobs that are not in a terminal state.
pub open spec fn live_jobs(s: Seq<Job>) -> Seq<Job> {
    s.filter(|j: Job| !j.state.spec_is_terminal())
}

/// The serialized controller state of the scheduler: the owned jobs in
/// submission order, the count of running jobs, and the id counter.
#[derive(Debug)]
pub struct JobTable {
    config: SchedulerConfig,
    jobs: Vec<Job>,
    running_count: usize,
    next_id: u64,
}

impl JobTable {
    /// The controller invariant: the running count agrees with the jobs and
    /// stays under the cap, and ids are unique and below the counter.
    pub closed spec fn wf(&self) -> bool {
        &&& self.running_count as int == running_jobs(self.jobs@)
        &&& self.running_count <= self.config.max_concurrent_jobs
        &&& forall|i: int|
            0 <= i < self.jobs@.len() ==> (#[trigger] self.jobs@[i]).id.0 < self.next_id
        &&& forall|i: int, j: int|
            0 <= i < j < self.jobs@.len() ==> (#[trigger] self.jobs@[i]).id != (
            #[trigger] self.jobs@[j]).id
    }

    /// The jobs the table holds, in submission order.
    pub closed spec fn spec_jobs(&self) -> Seq<Job> {
        self.jobs@
    }

    /// The configuration in force.
    pub closed spec fn spec_config(&self) -> SchedulerConfig {
        self.config
    }

    /// The running-job count.
    pub closed spec fn spec_running(&self) -> int {
        self.running_count as int
    }

    /// The id the next submission will take.
    pub closed spec fn spec_next_id(&self) -> int {
        self.next_id as int
    }

    /// Whether another job can still be submitted (the id counter has
    /// room).
    pub fn can_submit(&self) -> (r: bool)
        ensures
            r == (self.spec_next_id() < u64::MAX),
    {
        self.next_id < u64::MAX
    }

    /// Create a table under the given configuration.
    pub fn new(config: SchedulerConfig) -> (r: JobTable)
        ensures
            r.wf(),
            r.spec_jobs().len() == 0,
            r.spec_config() == config,
            r.spec_running() == 0,
    {
        JobTable { config, jobs: Vec::new(), running_count: 0, next_id: 1 }
    }

    /// Create a table with default configuration.
    pub fn with_defaults() -> (r: JobTable)
        ensures
            r.wf(),
            r.spec_jobs().len() == 0,
            r.spec_config().max_concurrent_jobs == 2,
            r.spec_running() == 0,
    {
        JobTable::new(
            SchedulerConfig { max_concurrent_jobs: 2, progress_channel_size: 256, max_history: 100 },
        )
    }

    /// Find a job's index by id.
    fn find_index(&self, id: JobId) -> (r: Option<usize>)
        ensures
            match r {
                Some(i) => i < self.spec_jobs().len() && self.spec_jobs()[i as int].id == id,
                None => forall|i: int|
                    0 <= i < self.spec_jobs().len() ==> (#[trigger] self.spec_jobs()[i]).id != id,
            },
    {
        let n = self.jobs.len();
        let mut i: usize = 0;
        while i < n
            invariant
                i <= n,
                n == self.jobs@.len(),
                forall|k: int| 0 <= k < i ==> (#[trigger] self.jobs@[k]).id != id,
            decreases n - i,
        {
            if self.jobs[i].id.0 == id.0 {
                return Some(i);
            }
            i += 1;
        }
        None
    }

    /// Submit a new job: it enters the queue pending (and may start at
    /// once, under the cap). Returns its id and the events to broadcast.
    pub fn submit(&mut self, kind: JobKind) -> (r: (JobId, Vec<SchedulerEvent>))
        requires
            old(self).wf(),
            old(self).spec_jobs().len() < usize::MAX,
            old(self).spec_next_id() < u64::MAX,
        ensures
            final(self).wf(),
            final(self).spec_jobs().len() == old(self).spec_jobs().len() + 1,
            final(self).spec_jobs()[old(self).spec_jobs().len() as int].id == r.0,
            final(self).spec_jobs()[old(self).spec_jobs().len() as int].kind == kind,
            // existing jobs keep their identity; only pending ones may start
            forall|k: int|
                0 <= k < old(self).spec_jobs().len() ==> (#[trigger] final(self).spec_jobs()[k]).id
                    == old(self).spec_jobs()[k].id && (final(self).spec_jobs()[k].state == old(self).spec_jobs()[k].state || (old(self).spec_jobs()[k].state is Pending && final(self).spec_jobs()[k].state is Running)),
            final(self).spec_config() == old(self).spec_config(),
    {
        let id = JobId(self.next_id);
        self.next_id = self.next_id + 1;
        let job = Job::new(id, kind);
        let ghost pre = self.jobs@;
        proof {
            lemma_sum_by_push(pre, job, state_weight(JobState::Running));
        }
        self.jobs.push(job);
        let mut events: Vec<SchedulerEvent> = Vec::new();
        events.push(SchedulerEvent::JobAdded(id));
        let started = self.try_start_pending();
        let mut k: usize = 0;
        let m = started.len();
        while k < m
            invariant
                k <= m,
                m == started@.len(),
            decreases m - k,
        {
            events.push(SchedulerEvent::JobStarted(started[k]));
            k += 1;
        }
        (id, events)
    }

    /// Admit pending jobs, oldest first, while a slot is free under the
    /// concurrency cap. Returns the ids of the jobs started.
    pub fn try_start_pending(&mut self) -> (r: Vec<JobId>)
        requires
            old(self).wf(),
        ensures
            final(self).wf(),
            final(self).spec_jobs().len() == old(self).spec_jobs().len(),
            forall|k: int|
                0 <= k < old(self).spec_jobs().len() ==> (#[trigger] final(self).spec_jobs()[k]).id
                    == old(self).spec_jobs()[k].id && (#[trigger] final(self).spec_jobs()[k]).kind
                    == old(self).spec_jobs()[k].kind && (final(self).spec_jobs()[k].state == old(self).spec_jobs()[k].state || (old(self).spec_jobs()[k].state is Pending && final(self).spec_jobs()[k].state is Running)),
            final(self).spec_config() == old(self).spec_config(),
            // saturation: a job left pending means the cap is reached
            (exists|k: int|
                0 <= k < final(self).spec_jobs().len() && (
                #[trigger] final(self).spec_jobs()[k]).state is Pending) ==> final(self).spec_running() == final(self).spec_config().max_concurrent_jobs,
            // admission is in table order (submission order): once a
            // pending job is passed over, every later pending job is
            // passed over too
            forall|a: int, b: int|
                0 <= a < b < old(self).spec_jobs().len() && old(self).spec_jobs()[a].state is Pending
                    && (#[trigger] final(self).spec_jobs()[a]).state is Pending && old(self).spec_jobs()[b].state is Pending ==> (
                #[trigger] final(self).spec_jobs()[b]).state is Pending,
    {
        let mut started: Vec<JobId> = Vec::new();
        let n = self.jobs.len();
        let mut i: usize = 0;
        while i < n
            invariant
                i <= n,
                n == self.jobs@.len(),
                self.wf(),
                self.config == old(self).config,
                self.jobs@.len() == old(self).spec_jobs().len(),
                forall|k: int|
                    0 <= k < old(self).spec_jobs().len() ==> (#[trigger] self.jobs@[k]).id == old(self).spec_jobs()[k].id && (#[trigger] self.jobs@[k]).kind == old(self).spec_jobs()[k].kind && (self.jobs@[k].state == old(self).spec_jobs()[k].state
                        || (old(self).spec_jobs()[k].state is Pending
                        && self.jobs@[k].state is Running)),
                forall|k: int|
                    0 <= k < i && (#[trigger] self.jobs@[k]).state is Pending
                        ==> self.running_count == self.config.max_concurrent_jobs,
                forall|a: int, b: int|
                    0 <= a < b < i && old(self).spec_jobs()[a].state is Pending && (
                    #[trigger] self.jobs@[a]).state is Pending && old(self).spec_jobs()[b].state is Pending ==> (
                    #[trigger] self.jobs@[b]).state is Pending,
                forall|k: int|
                    i <= k < n ==> (#[trigger] self.jobs@[k]) == old(self).spec_jobs()[k],
            decreases n - i,
        {
            if self.running_count < self.config.max_concurrent_jobs {
                let is_pending = matches!(self.jobs[i].state, JobState::Pending);
                if is_pending {
                    let ghost pre = self.jobs@;
                    let id = self.jobs[i].id;
                    let j = &mut self.jobs[i];
                    j.start();
                    proof {
                        assert(self.jobs@ =~= pre.update(i as int, self.jobs@[i as int]));
                        lemma_sum_by_update(
                            pre,
                            i as int,
                            self.jobs@[i as int],
                            state_weight(JobState::Running),
                        );
                    }
                    self.running_count = self.running_count + 1;
                    started.push(id);
                }
            }
            i += 1;
        }
        started
    }

    /// Cancel a job: a non-terminal job becomes Cancelled and its token is
    /// signalled; a freed slot admits the next pending job.
    pub fn cancel(&mut self, id: JobId) -> (r: Vec<SchedulerEvent>)
        requires
            old(self).wf(),
        ensures
            final(self).wf(),
            final(self).spec_jobs().len() == old(self).spec_jobs().len(),
            forall|k: int|
                0 <= k < old(self).spec_jobs().len() && old(self).spec_jobs()[k].id != id ==> (
                #[trigger] final(self).spec_jobs()[k]).id == old(self).spec_jobs()[k].id && (final(self).spec_jobs()[k].state == old(self).spec_jobs()[k].state || (old(self).spec_jobs()[k].state is Pending && final(self).spec_jobs()[k].state is Running)),
            forall|k: int|
                0 <= k < old(self).spec_jobs().len() && old(self).spec_jobs()[k].id == id && !old(self).spec_jobs()[k].state.spec_is_terminal() ==> (#[trigger] final(self).spec_jobs()[k]).state is Cancelled,
            final(self).spec_config() == old(self).spec_config(),
    {
        let mut events: Vec<SchedulerEvent> = Vec::new();
        match self.find_index(id) {
            Some(i) => {
                let terminal = self.jobs[i].state.is_terminal();
                if !terminal {
                    let was_running = matches!(self.jobs[i].state, JobState::Running);
                    let ghost pre = self.jobs@;
                    let j = &mut self.jobs[i];
                    j.cancel();
                    proof {
                        assert(self.jobs@ =~= pre.update(i as int, self.jobs@[i as int]));
                        lemma_sum_by_update(
                            pre,
                            i as int,
                            self.jobs@[i as int],
                            state_weight(JobState::Running),
                        );
                    }
                    if was_running {
                        proof {
                            crate::ordering::lemma_sum_by_at_least(
                                pre,
                                i as int,
                                state_weight(JobState::Running),
                            );
                        }
                        self.running_count = self.running_count - 1;
                    }
                    events.push(SchedulerEvent::JobCancelled(id));
                }
            },
            None => {},
        }
        let started = self.try_start_pending();
        let mut k: usize = 0;
        let m = started.len();
        while k < m
            invariant
                k <= m,
                m == started@.len(),
            decreases m - k,
        {
            events.push(SchedulerEvent::JobStarted(started[k]));
            k += 1;
        }
        events
    }

    /// Pause a running job; a freed slot admits the next pending job.
    pub fn pause(&mut self, id: JobId) -> (r: Vec<SchedulerEvent>)
        requires
            old(self).wf(),
        ensures
            final(self).wf(),
            final(self).spec_jobs().len() == old(self).spec_jobs().len(),
            forall|k: int|
                0 <= k < old(self).spec_jobs().len() && old(self).spec_jobs()[k].id == id && old(self).spec_jobs()[k].state is Running ==> (#[trigger] final(self).spec_jobs()[k]).state is Paused,
            final(self).spec_config() == old(self).spec_config(),
    {
        let mut events: Vec<SchedulerEvent> = Vec::new();
        match self.find_index(id) {
            Some(i) => {
                let was_running = matches!(self.jobs[i].state, JobState::Running);
                if was_running {
                    let ghost pre = self.jobs@;
                    let j = &mut self.jobs[i];
                    j.pause();
                    proof {
                        assert(self.jobs@ =~= pre.update(i as int, self.jobs@[i as int]));
                        lemma_sum_by_update(
                            pre,
                            i as int,
                            self.jobs@[i as int],
                            state_weight(JobState::Running),
                        );
                    }
                    proof {
                        crate::ordering::lemma_sum_by_at_least(
                            pre,
                            i as int,
                            state_weight(JobState::Running),
                        );
                    }
                    self.running_count = self.running_count - 1;
                    events.push(SchedulerEvent::JobPaused(id));
                }
            },
            None => {},
        }
        let started = self.try_start_pending();
        let mut k: usize = 0;
        let m = started.len();
        while k < m
            invariant
                k <= m,
                m == started@.len(),
            decreases m - k,
        {
            events.push(SchedulerEvent::JobStarted(started[k]));
            k += 1;
        }
        events
    }

    /// Resume a paused job: it runs at once when a slot is free, else it
    /// re-enters the queue as pending.
    pub fn resume(&mut self, id: JobId) -> (r: Vec<SchedulerEvent>)
        requires
            old(self).wf(),
        ensures
            final(self).wf(),
            final(self).spec_jobs().len() == old(self).spec_jobs().len(),
            forall|k: int|
                0 <= k < old(self).spec_jobs().len() && old(self).spec_jobs()[k].id == id && old(self).spec_jobs()[k].state is Paused ==> ((#[trigger] final(self).spec_jobs()[k]).state is Running || final(self).spec_jobs()[k].state is Pending),
            final(self).spec_config() == old(self).spec_config(),
    {
        let mut events: Vec<SchedulerEvent> = Vec::new();
        match self.find_index(id) {
            Some(i) => {
                let was_paused = matches!(self.jobs[i].state, JobState::Paused);
                if was_paused {
                    let ghost pre = self.jobs@;
                    if self.running_count < self.config.max_concurrent_jobs {
                        let j = &mut self.jobs[i];
                        j.resume();
                        proof {
                            assert(self.jobs@ =~= pre.update(i as int, self.jobs@[i as int]));
                            lemma_sum_by_update(
                                pre,
                                i as int,
                                self.jobs@[i as int],
                                state_weight(JobState::Running),
                            );
                        }
                        self.running_count = self.running_count + 1;
                        events.push(SchedulerEvent::JobResumed(id));
                    } else {
                        let j = &mut self.jobs[i];
                        j.requeue();
                        proof {
                            assert(self.jobs@ =~= pre.update(i as int, self.jobs@[i as int]));
                            lemma_sum_by_update(
                                pre,
                                i as int,
                                self.jobs@[i as int],
                                state_weight(JobState::Running),
                            );
                        }
                    }
                }
            },
            None => {},
        }
        events
    }

    /// Mark a job completed (called when its executor finishes).
    pub fn complete_job(&mut self, id: JobId) -> (r: Vec<SchedulerEvent>)
        requires
            old(self).wf(),
        ensures
            final(self).wf(),
            final(self).spec_jobs().len() == old(self).spec_jobs().len(),
            forall|k: int|
                0 <= k < old(self).spec_jobs().len() && old(self).spec_jobs()[k].id == id && !old(self).spec_jobs()[k].state.spec_is_terminal() ==> (#[trigger] final(self).spec_jobs()[k]).state is Completed,
            final(self).spec_config() == old(self).spec_config(),
    {
        let mut events: Vec<SchedulerEvent> = Vec::new();
        match self.find_index(id) {
            Some(i) => {
                let was_running = matches!(self.jobs[i].state, JobState::Running);
                let terminal = self.jobs[i].state.is_terminal();
                if !terminal {
                    let ghost pre = self.jobs@;
                    let j = &mut self.jobs[i];
                    j.complete();
                    proof {
                        assert(self.jobs@ =~= pre.update(i as int, self.jobs@[i as int]));
                        lemma_sum_by_update(
                            pre,
                            i as int,
                            self.jobs@[i as int],
                            state_weight(JobState::Running),
                        );
                    }
                    if was_running {
                        proof {
                            crate::ordering::lemma_sum_by_at_least(
                                pre,
                                i as int,
                                state_weight(JobState::Running),
                            );
                        }
                        self.running_count = self.running_count - 1;
                    }
                    events.push(SchedulerEvent::JobCompleted(id));
                }
            },
            None => {},
        }
        events
    }

    /// Mark a job failed (called when its executor fails).
    pub fn fail_job(&mut self, id: JobId, error: String) -> (r: Vec<SchedulerEvent>)
        requires
            old(self).wf(),
        ensures
            final(self).wf(),
            final(self).spec_jobs().len() == old(self).spec_jobs().len(),
            forall|k: int|
                0 <= k < old(self).spec_jobs().len() && old(self).spec_jobs()[k].id == id && !old(self).spec_jobs()[k].state.spec_is_terminal() ==> (#[trigger] final(self).spec_jobs()[k]).state is Failed,
            final(self).spec_config() == old(self).spec_config(),
    {
        let mut events: Vec<SchedulerEvent> = Vec::new();
        match self.find_index(id) {
            Some(i) => {
                let was_running = matches!(self.jobs[i].state, JobState::Running);
                let terminal = self.jobs[i].state.is_terminal();
                if !terminal {
                    let ghost pre = self.jobs@;
                    let msg = error.clone();
                    let j = &mut self.jobs[i];
                    j.fail(msg);
                    proof {
                        assert(self.jobs@ =~= pre.update(i as int, self.jobs@[i as int]));
                        lemma_sum_by_update(
                            pre,
                            i as int,
                            self.jobs@[i as int],
                            state_weight(JobState::Running),
                        );
                    }
                    if was_running {
                        proof {
                            crate::ordering::lemma_sum_by_at_least(
                                pre,
                                i as int,
                                state_weight(JobState::Running),
                            );
                        }
                        self.running_count = self.running_count - 1;
                    }
                    events.push(SchedulerEvent::JobFailed(id, error));
                }
            },
            None => {},
        }
        events
    }

    /// Record a progress update for a job.
    pub fn update_progress(&mut self, id: JobId, progress: Progress) -> (r: Vec<SchedulerEvent>)
        requires
            old(self).wf(),
        ensures
            final(self).wf(),
            final(self).spec_jobs().len() == old(self).spec_jobs().len(),
            forall|k: int|
                0 <= k < old(self).spec_jobs().len() ==> (#[trigger] final(self).spec_jobs()[k]).id
                    == old(self).spec_jobs()[k].id && final(self).spec_jobs()[k].state == old(self).spec_jobs()[k].state,
            final(self).spec_config() == old(self).spec_config(),
    {
        let mut events: Vec<SchedulerEvent> = Vec::new();
        match self.find_index(id) {
            Some(i) => {
                let ghost pre = self.jobs@;
                let p2 = progress.clone();
                let j = &mut self.jobs[i];
                j.set_progress(p2);
                proof {
                    assert(self.jobs@ =~= pre.update(i as int, self.jobs@[i as int]));
                    lemma_sum_by_update(
                        pre,
                        i as int,
                        self.jobs@[i as int],
                        state_weight(JobState::Running),
                    );
                }
                events.push(SchedulerEvent::JobProgress(id, progress));
            },
            None => {},
        }
        events
    }

    /// Remove terminal jobs from history.
    pub fn clear_history(&mut self)
        requires
            old(self).wf(),
        ensures
            final(self).wf(),
            final(self).spec_jobs() == live_jobs(old(self).spec_jobs()),
            final(self).spec_config() == old(self).spec_config(),
            final(self).spec_running() == old(self).spec_running(),
    {
        let ghost orig = self.jobs@;
        let mut i: usize = self.jobs.len();
        proof {
            assert(orig.skip(i as int).filter(|j: Job| !j.state.spec_is_terminal()) =~= Seq::<
                Job,
            >::empty());
            assert(orig.take(i as int) + orig.skip(i as int).filter(
                |j: Job| !j.state.spec_is_terminal(),
            ) =~= orig);
        }
        while i > 0
            invariant
                i <= orig.len(),
                self.jobs@ == orig.take(i as int) + orig.skip(i as int).filter(
                    |j: Job| !j.state.spec_is_terminal(),
                ),
                self.running_count == old(self).spec_running(),
                self.config == old(self).spec_config(),
                self.next_id == old(self).spec_next_id(),
                old(self).spec_running() as int == running_jobs(orig),
                old(self).spec_running() <= old(self).spec_config().max_concurrent_jobs,
                forall|a: int| 0 <= a < orig.len() ==> (#[trigger] orig[a]).id.0 < self.next_id,
                forall|a: int, b: int|
                    0 <= a < b < orig.len() ==> (#[trigger] orig[a]).id != (#[trigger] orig[b]).id,
            decreases i,
        {
            i -= 1;
            let ghost pred = |j: Job| !j.state.spec_is_terminal();
            proof {
                reveal_with_fuel(Seq::filter, 3);
                assert(Seq::<Job>::empty().filter(|j: Job| !j.state.spec_is_terminal()) =~= Seq::<
                    Job,
                >::empty());
                crate::ordering::lemma_filter_concat(
                    seq![orig[i as int]],
                    orig.skip(i + 1),
                    pred,
                );
                assert(seq![orig[i as int]] + orig.skip(i + 1) =~= orig.skip(i as int));
                assert(seq![orig[i as int]].drop_last() =~= Seq::<Job>::empty());
                assert(seq![orig[i as int]].last() == orig[i as int]);
                if pred(orig[i as int]) {
                    assert(seq![orig[i as int]].filter(pred) =~= seq![orig[i as int]]);
                } else {
                    assert(seq![orig[i as int]].filter(pred) =~= Seq::<Job>::empty());
                }
            }
            let terminal = self.jobs[i].state.is_terminal();
            if terminal {
                let ghost pre = self.jobs@;
                self.jobs.remove(i);
                proof {
                    assert(self.jobs@ =~= orig.take(i as int) + orig.skip(i as int).filter(pred));
                }
            } else {
                proof {
                    assert(self.jobs@ =~= orig.take(i as int) + orig.skip(i as int).filter(pred));
                }
            }
        }
        proof {
            let pred = |j: Job| !j.state.spec_is_terminal();
            assert(orig.take(0) + orig.skip(0).filter(pred) =~= orig.filter(pred));
            lemma_filter_keeps_running(orig);
            lemma_filter_keeps_ids(orig, self.next_id as int);
        }
    }

    /// Trim the history to the configured cap: while the table holds more
    /// jobs than `max_history`, the oldest terminal jobs are dropped,
    /// oldest first. Live jobs always stay, in their order; past the cap
    /// only live jobs may remain.
    pub fn enforce_history_cap(&mut self)
        requires
            old(self).wf(),
        ensures
            final(self).wf(),
            final(self).spec_config() == old(self).spec_config(),
            final(self).spec_running() == old(self).spec_running(),
            live_jobs(final(self).spec_jobs()) == live_jobs(old(self).spec_jobs()),
            final(self).spec_jobs().len() <= old(self).spec_jobs().len(),
            final(self).spec_jobs().len() > old(self).spec_config().max_history ==> forall|i: int|
                0 <= i < final(self).spec_jobs().len() ==> !(#[trigger] final(self).spec_jobs()[i]).state.spec_is_terminal(),
    {
        let n = self.jobs.len();
        if n <= self.config.max_history {
            return ;
        }
        let ghost orig = self.jobs@;
        let initial_excess: usize = n - self.config.max_history;
        let mut excess: usize = initial_excess;
        let mut v: Vec<Job> = Vec::new();
        core::mem::swap(&mut self.jobs, &mut v);
        let mut kept: Vec<Job> = Vec::new();
        let mut i: usize = 0;
        proof {
            reveal(Seq::filter);
            assert(orig.take(0).filter(|j: Job| !j.state.spec_is_terminal()) =~= Seq::<
                Job,
            >::empty());
            assert(orig.take(0) =~= Seq::<Job>::empty());
            assert(v@.skip(0) =~= v@);
        }
        while i < n
            invariant
                i <= n,
                n == orig.len(),
                v@ == orig.skip(i as int),
                excess <= initial_excess,
                initial_excess <= n,
                kept@.len() + (initial_excess - excess) == i,
                live_jobs(kept@) == live_jobs(orig.take(i as int)),
                running_jobs(kept@) == running_jobs(orig.take(i as int)),
                excess > 0 ==> forall|k: int|
                    0 <= k < kept@.len() ==> !(#[trigger] kept@[k]).state.spec_is_terminal(),
                forall|a: int|
                    0 <= a < kept@.len() ==> exists|oi: int|
                        0 <= oi < i && #[trigger] kept@[a] == orig[oi],
                forall|a: int, b: int|
                    0 <= a < b < kept@.len() ==> (#[trigger] kept@[a]).id != (
                    #[trigger] kept@[b]).id,
                forall|a: int|
                    0 <= a < kept@.len() ==> (#[trigger] kept@[a]).id.0 < self.next_id,
                forall|a: int, b: int|
                    0 <= a < b < orig.len() ==> (#[trigger] orig[a]).id != (#[trigger] orig[b]).id,
                forall|a: int| 0 <= a < orig.len() ==> (#[trigger] orig[a]).id.0 < self.next_id,
                self.config == old(self).spec_config(),
                self.running_count == old(self).spec_running(),
                self.next_id == old(self).spec_next_id(),
                self.running_count as int == running_jobs(orig),
                self.running_count <= self.config.max_concurrent_jobs,
            decreases n - i,
        {
            let job = v.remove(0);
            proof {
                assert(orig.skip(i as int)[0] == orig[i as int]);
                assert(orig.skip(i as int).remove(0) =~= orig.skip(i + 1));
                reveal(Seq::filter);
                assert(orig.take(i + 1).drop_last() =~= orig.take(i as int));
                assert(orig.take(i + 1).last() == orig[i as int]);
            }
            let terminal = job.state.is_terminal();
            if terminal && excess > 0 {
                // drop this oldest terminal job
                excess -= 1;
            } else {
                let ghost prekept = kept@;
                proof {
                    reveal(Seq::filter);
                    crate::ordering::lemma_sum_by_push(
                        prekept,
                        job,
                        state_weight(JobState::Running),
                    );
                    assert(prekept.push(job).drop_last() =~= prekept);
                    assert(prekept.push(job).last() == job);
                    assert forall|a: int, b: int|
                        0 <= a < b < prekept.push(job).len() implies (
                    #[trigger] prekept.push(job)[a]).id != (#[trigger] prekept.push(job)[b]).id by {
                        if b == prekept.len() {
                            assert(prekept.push(job)[a] == prekept[a]);
                            let oi = choose|oi: int| 0 <= oi < i && prekept[a] == orig[oi];
                            assert(orig[oi].id != orig[i as int].id);
                        } else {
                            assert(prekept.push(job)[a] == prekept[a]);
                            assert(prekept.push(job)[b] == prekept[b]);
                        }
                    }
                    assert forall|a: int|
                        0 <= a < prekept.push(job).len() implies exists|oi: int|
                            0 <= oi < i + 1 && #[trigger] prekept.push(job)[a] == orig[oi] by {
                        if a < prekept.len() {
                            assert(prekept.push(job)[a] == prekept[a]);
                            let oi = choose|oi: int| 0 <= oi < i && prekept[a] == orig[oi];
                            assert(prekept.push(job)[a] == orig[oi]);
                        } else {
                            assert(prekept.push(job)[a] == orig[i as int]);
                        }
                    }
                }
                kept.push(job);
            }
            i += 1;
        }
        proof {
            assert(orig.take(n as int) =~= orig);
        }
        self.jobs = kept;
    }

    /// Snapshot one job for display.
    pub fn get_job(&self, id: JobId) -> (r: Option<JobInfo>)
        ensures
            r is Some <==> (exists|i: int|
                0 <= i < self.spec_jobs().len() && (#[trigger] self.spec_jobs()[i]).id == id),
    {
        match self.find_index(id) {
            Some(i) => {
                proof {
                    assert((self.spec_jobs()[i as int]).id == id);
                }
                Some(JobInfo::from_job(&self.jobs[i]))
            },
            None => None,
        }
    }

    /// Snapshot every job for display, in submission order.
    pub fn list_jobs(&self) -> (r: Vec<JobInfo>)
        ensures
            r@.len() == self.spec_jobs().len(),
            forall|i: int|
                0 <= i < r@.len() ==> (#[trigger] r@[i]).id == self.spec_jobs()[i].id && r@[i].state
                    == self.spec_jobs()[i].state,
    {
        let mut out: Vec<JobInfo> = Vec::new();
        let n = self.jobs.len();
        let mut i: usize = 0;
        while i < n
            invariant
                i <= n,
                n == self.jobs@.len(),
                out@.len() == i,
                forall|k: int|
                    0 <= k < i ==> (#[trigger] out@[k]).id == self.jobs@[k].id && out@[k].state
                        == self.jobs@[k].state,
            decreases n - i,
        {
            out.push(JobInfo::from_job(&self.jobs[i]));
            i += 1;
        }
        out
    }

    /// Count the jobs per state. The six counts add up to the number of
    /// jobs the table holds.
    pub fn stats(&self) -> (r: JobStats)
        ensures
            r.pending == sum_by(self.spec_jobs(), state_weight(JobState::Pending)),
            r.running == sum_by(self.spec_jobs(), state_weight(JobState::Running)),
            r.paused == sum_by(self.spec_jobs(), state_weight(JobState::Paused)),
            r.completed == sum_by(self.spec_jobs(), state_weight(JobState::Completed)),
            r.failed == sum_by(self.spec_jobs(), state_weight(JobState::Failed)),
            r.cancelled == sum_by(self.spec_jobs(), state_weight(JobState::Cancelled)),
            r.pending + r.running + r.paused + r.completed + r.failed + r.cancelled == self.spec_jobs().len(),
    {
        let mut stats = JobStats {
            pending: 0,
            running: 0,
            paused: 0,
            completed: 0,
            failed: 0,
            cancelled: 0,
        };
        let n = self.jobs.len();
        let mut i: usize = 0;
        while i < n
            invariant
                i <= n,
                n == self.jobs@.len(),
                stats.pending == sum_by(self.jobs@.take(i as int), state_weight(JobState::Pending)),
                stats.running == sum_by(self.jobs@.take(i as int), state_weight(JobState::Running)),
                stats.paused == sum_by(self.jobs@.take(i as int), state_weight(JobState::Paused)),
                stats.completed == sum_by(
                    self.jobs@.take(i as int),
                    state_weight(JobState::Completed),
                ),
                stats.failed == sum_by(self.jobs@.take(i as int), state_weight(JobState::Failed)),
                stats.cancelled == sum_by(
                    self.jobs@.take(i as int),
                    state_weight(JobState::Cancelled),
                ),
                stats.pending + stats.running + stats.paused + stats.completed + stats.failed
                    + stats.cancelled == i,
            decreases n - i,
        {
            proof {
                assert(self.jobs@.take(i + 1).drop_last() =~= self.jobs@.take(i as int));
                assert(self.jobs@.take(i + 1).last() == self.jobs@[i as int]);
            }
            match self.jobs[i].state {
                JobState::Pending => stats.pending += 1,
                JobState::Running => stats.running += 1,
                JobState::Paused => stats.paused += 1,
                JobState::Completed => stats.completed += 1,
                JobState::Failed => stats.failed += 1,
                JobState::Cancelled => stats.cancelled += 1,
            }
            i += 1;
        }
        proof {
            assert(self.jobs@.take(n as int) =~= self.jobs@);
        }
        stats
    }
}

/// Dropping terminal jobs does not change the running count.
proof fn lemma_filter_keeps_running(s: Seq<Job>)
    ensures
        running_jobs(live_jobs(s)) == running_jobs(s),
    decreases s.len(),
{
    reveal(Seq::filter);
    if s.len() == 0 {
    } else {
        lemma_filter_keeps_running(s.drop_last());
        let f = s.drop_last().filter(|j: Job| !j.state.spec_is_terminal());
        if !s.last().state.spec_is_terminal() {
            assert(f.push(s.last()).drop_last() =~= f);
        }
    }
}

/// Dropping jobs preserves the id bound and uniqueness.
proof fn lemma_filter_keeps_ids(s: Seq<Job>, bound: int)
    requires
        forall|i: int| 0 <= i < s.len() ==> (#[trigger] s[i]).id.0 < bound,
        forall|i: int, j: int| 0 <= i < j < s.len() ==> (#[trigger] s[i]).id != (#[trigger] s[j]).id,
    ensures
        forall|i: int|
            0 <= i < live_jobs(s).len() ==> (#[trigger] live_jobs(s)[i]).id.0 < bound,
        forall|i: int, j: int|
            0 <= i < j < live_jobs(s).len() ==> (#[trigger] live_jobs(s)[i]).id != (
            #[trigger] live_jobs(s)[j]).id,
    decreases s.len(),
{
    reveal(Seq::filter);
    if s.len() == 0 {
    } else {
        lemma_filter_keeps_ids(s.drop_last(), bound);
        let pred = |j: Job| !j.state.spec_is_terminal();
        let f = s.drop_last().filter(pred);
        if pred(s.last()) {
            assert(s.filter(pred) == f.push(s.last()));
            assert(f.push(s.last()).drop_last() =~= f);
            assert forall|i: int, j: int|
                0 <= i < j < s.filter(pred).len() implies (#[trigger] s.filter(pred)[i]).id != (
            #[trigger] s.filter(pred)[j]).id by {
                if j == s.filter(pred).len() - 1 {
                    assert(s.filter(pred)[j] == s.last());
                    assert(s.filter(pred)[i] == f[i]);
                    lemma_filter_member_of(s.drop_last(), pred, i);
                } else {
                    assert(s.filter(pred)[i] == f[i]);
                    assert(s.filter(pred)[j] == f[j]);
                }
            }
        }
    }
}

/// Every element of a filtered sequence occurs in the original.
proof fn lemma_filter_member_of(s: Seq<Job>, pred: spec_fn(Job) -> bool, i: int)
    requires
        0 <= i < s.filter(pred).len(),
    ensures
        exists|k: int| 0 <= k < s.len() && #[trigger] s[k] == s.filter(pred)[i],
    decreases s.len(),
{
    reveal(Seq::filter);
    if s.len() == 0 {
    } else {
        let f = s.drop_last().filter(pred);
        if pred(s.last()) && i == s.filter(pred).len() - 1 {
            assert(s[s.len() - 1] == s.filter(pred)[i]);
        } else {
            lemma_filter_member_of(s.drop_last(), pred, i);
            let k = choose|k: int|
                0 <= k < s.drop_last().len() && #[trigger] s.drop_last()[k] == s.drop_last().filter(
                    pred,
                )[i];
            assert(s[k] == s.filter(pred)[i]);
        }
    }
}

} // verus!
