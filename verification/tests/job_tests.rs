use zmanager::job::{CancellationToken, Job, JobId, JobInfo, JobKind, JobState, JobStats};
use zmanager::scheduler::{JobTable, SchedulerConfig};

#[test]
fn test_job_id_unique() {
    // ids come from the scheduler's counter, one per submission
    let mut table = JobTable::with_defaults();
    let (id1, _) = table.submit(JobKind::Delete {
        paths: vec!["a".to_string()],
    });
    let (id2, _) = table.submit(JobKind::Delete {
        paths: vec!["b".to_string()],
    });
    let (id3, _) = table.submit(JobKind::Delete {
        paths: vec!["c".to_string()],
    });

    assert_ne!(id1, id2);
    assert_ne!(id2, id3);
    assert_ne!(id1, id3);
}

#[test]
fn job_test_job_id_display() {
    let id = JobId(42);
    assert_eq!(id.display(), "Job-42");
}

#[test]
fn test_job_kind_description() {
    let copy = JobKind::Copy {
        sources: vec!["file.txt".to_string()],
        destination: "dest".to_string(),
    };
    assert!(copy.description().contains("Copying"));
    assert!(copy.description().contains("file.txt"));

    let delete = JobKind::Delete {
        paths: vec!["a".to_string(), "b".to_string(), "c".to_string()],
    };
    assert!(delete.description().contains("3 items"));
}

#[test]
fn test_job_state_transitions() {
    assert!(!JobState::Pending.is_terminal());
    assert!(!JobState::Running.is_terminal());
    assert!(!JobState::Paused.is_terminal());
    assert!(JobState::Completed.is_terminal());
    assert!(JobState::Failed.is_terminal());
    assert!(JobState::Cancelled.is_terminal());

    assert!(!JobState::Pending.is_active());
    assert!(JobState::Running.is_active());
    assert!(JobState::Paused.is_active());
    assert!(!JobState::Completed.is_active());
}

#[test]
fn test_cancellation_token() {
    let token = CancellationToken::new();

    assert!(!token.is_cancelled());

    token.cancel();
    assert!(token.is_cancelled());

    token.reset();
    assert!(!token.is_cancelled());
}

#[test]
fn test_cancellation_token_clone() {
    let token1 = CancellationToken::new();
    let token2 = token1.clone();

    assert!(!token1.is_cancelled());
    assert!(!token2.is_cancelled());

    token1.cancel();

    assert!(token1.is_cancelled());
    assert!(token2.is_cancelled()); // Clone shares state
}

#[test]
fn test_job_lifecycle() {
    let mut job = Job::new(
        JobId(1),
        JobKind::Delete {
            paths: vec!["test".to_string()],
        },
    );

    assert_eq!(job.state, JobState::Pending);
    assert!(job.started_at.is_none());

    job.start();
    assert_eq!(job.state, JobState::Running);
    assert!(job.started_at.is_some());

    job.pause();
    assert_eq!(job.state, JobState::Paused);

    job.resume();
    assert_eq!(job.state, JobState::Running);

    job.complete();
    assert_eq!(job.state, JobState::Completed);
    assert!(job.finished_at.is_some());
}

#[test]
fn test_job_failure() {
    let mut job = Job::new(
        JobId(2),
        JobKind::CalculateSize {
            path: "test".to_string(),
        },
    );

    job.start();
    job.fail("Something went wrong".to_string());

    assert_eq!(job.state, JobState::Failed);
    assert_eq!(job.error.as_deref(), Some("Something went wrong"));
}

#[test]
fn test_job_cancel() {
    let mut job = Job::new(
        JobId(3),
        JobKind::CalculateSize {
            path: "test".to_string(),
        },
    );

    job.start();
    job.cancel();

    assert_eq!(job.state, JobState::Cancelled);
    assert!(job.cancellation.is_cancelled());
}

#[test]
fn test_job_info_from_job() {
    let mut job = Job::new(
        JobId(4),
        JobKind::Copy {
            sources: vec!["src".to_string()],
            destination: "dst".to_string(),
        },
    );

    job.progress.bytes_done = 500;
    job.progress.total_bytes = Some(1000);
    job.start();

    let info = JobInfo::from_job(&job);

    assert_eq!(info.id, job.id);
    assert!(info.description.contains("Copying"));
    assert_eq!(info.state, JobState::Running);
    assert_eq!(info.progress_percent, 50);
}

#[test]
fn test_job_stats() {
    let stats = JobStats {
        pending: 2,
        running: 1,
        paused: 1,
        completed: 5,
        failed: 1,
        cancelled: 0,
    };

    assert_eq!(stats.total(), 10);
    assert_eq!(stats.active(), 4);
}

#[test]
fn scheduler_respects_concurrency_cap() {
    // three submissions under a cap of two: all three are admitted to the
    // table, no more than two run at once
    let mut table = JobTable::with_defaults();
    for name in ["a", "b", "c"] {
        table.submit(JobKind::Delete {
            paths: vec![name.to_string()],
        });
    }
    let stats = table.stats();
    assert_eq!(stats.pending + stats.running, 3);
    assert!(stats.running <= 2);
    assert_eq!(stats.running, 2);
    assert_eq!(stats.pending, 1);
}

#[test]
fn scheduler_cancel_frees_a_slot() {
    let mut table = JobTable::with_defaults();
    let (id1, _) = table.submit(JobKind::Delete {
        paths: vec!["a".to_string()],
    });
    table.submit(JobKind::Delete {
        paths: vec!["b".to_string()],
    });
    table.submit(JobKind::Delete {
        paths: vec!["c".to_string()],
    });

    let events = table.cancel(id1);
    assert!(!events.is_empty());

    let stats = table.stats();
    assert_eq!(stats.cancelled, 1);
    assert_eq!(stats.running, 2);
    assert_eq!(stats.pending, 0);

    let info = table.get_job(id1).unwrap();
    assert_eq!(info.state, JobState::Cancelled);
}

#[test]
fn scheduler_pause_resume() {
    let mut table = JobTable::with_defaults();
    let (id, _) = table.submit(JobKind::Delete {
        paths: vec!["a".to_string()],
    });
    table.pause(id);
    assert_eq!(table.get_job(id).unwrap().state, JobState::Paused);
    table.resume(id);
    assert_eq!(table.get_job(id).unwrap().state, JobState::Running);
}

#[test]
fn scheduler_clear_history_drops_terminal_jobs() {
    let mut table = JobTable::with_defaults();
    let (id1, _) = table.submit(JobKind::Delete {
        paths: vec!["a".to_string()],
    });
    let (id2, _) = table.submit(JobKind::Delete {
        paths: vec!["b".to_string()],
    });
    table.complete_job(id1);
    table.clear_history();
    assert!(table.get_job(id1).is_none());
    assert!(table.get_job(id2).is_some());
}

#[test]
fn progress_percentage_items_fallback() {
    let mut progress = zmanager::job::Progress::new(4, None);
    progress.items_done = 2;
    assert_eq!(progress.percentage_int(), 50);
}

#[test]
fn scheduler_enforces_the_history_cap() {
    let mut table = JobTable::new(SchedulerConfig {
        max_concurrent_jobs: 4,
        progress_channel_size: 4,
        max_history: 2,
    });
    let mut ids = Vec::new();
    for name in ["a", "b", "c", "d"] {
        let (id, _) = table.submit(JobKind::Delete {
            paths: vec![name.to_string()],
        });
        ids.push(id);
    }
    table.complete_job(ids[0]);
    table.complete_job(ids[1]);
    table.complete_job(ids[2]);

    table.enforce_history_cap();
    let jobs = table.list_jobs();
    // the two oldest terminal jobs left; the third stays with the live one
    assert_eq!(jobs.len(), 2);
    assert_eq!(jobs[0].id, ids[2]);
    assert_eq!(jobs[1].id, ids[3]);
    assert_eq!(jobs[0].state, JobState::Completed);
    assert_eq!(jobs[1].state, JobState::Running);
}
