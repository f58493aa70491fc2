//! Job system types for transfer operations.

use vstd::prelude::*;
use crate::text::{dec_str, scaled2};
use crate::entry::{GB, KB, MB};

verus! {

/// A unique identifier for a transfer job.
#[derive(Debug, Clone, Copy, PartialEq, Eq, Hash, Structural)]
pub struct JobId(pub u64);

impl JobId {
    /// Create a new job ID from a counter value.
    pub fn new(id: u64) -> (r: JobId)
        ensures
            r.0 == id,
    {
        JobId(id)
    }

    /// What `display` renders.
    pub open spec fn spec_display(&self) -> Seq<char> {
        "Job#"@ + dec_str(self.0 as nat)
    }

    /// Render the identifier for display.
    pub fn display(&self) -> (r: String)
        ensures
            r@ == self.spec_display(),
    {
        let mut s = "Job#".to_owned();
        let num = crate::text::u64_to_string(self.0);
        s.append(num.as_str());
        proof {
            assert(s@ =~= self.spec_display());
        }
        s
    }
}

/// The kind of transfer operation.
#[derive(Debug, Clone, Copy, PartialEq, Eq, Structural)]
pub enum JobKind {
    /// Copy files/folders to destination.
    Copy,
    /// Move files/folders to destination (copy + delete source on
    /// success).
    Move,
    /// Delete files/folders.
    Delete,
}

impl JobKind {
    /// What `label` renders for each kind.
    pub open spec fn spec_label(&self) -> Seq<char> {
        match *self {
            JobKind::Copy => "Copying"@,
            JobKind::Move => "Moving"@,
            JobKind::Delete => "Deleting"@,
        }
    }

    /// Get a human-readable label.
    pub fn label(&self) -> (r: &'static str)
        ensures
            r@ == self.spec_label(),
    {
        match self {
            JobKind::Copy => "Copying",
            JobKind::Move => "Moving",
            JobKind::Delete => "Deleting",
        }
    }

    /// What `completed_label` renders for each kind.
    pub open spec fn spec_completed_label(&self) -> Seq<char> {
        match *self {
            JobKind::Copy => "Copied"@,
            JobKind::Move => "Moved"@,
            JobKind::Delete => "Deleted"@,
        }
    }

    /// Get a past-tense label.
    pub fn completed_label(&self) -> (r: &'static str)
        ensures
            r@ == self.spec_completed_label(),
    {
        match self {
            JobKind::Copy => "Copied",
            JobKind::Move => "Moved",
            JobKind::Delete => "Deleted",
        }
    }
}

/// The state of a transfer job.
#[derive(Debug, Clone, Copy, PartialEq, Eq, Structural)]
pub enum JobState {
    /// Job is queued but not yet started.
    Pending,
    /// Job is actively running.
    Running,
    /// Job is paused by user.
    Paused,
    /// Job completed successfully.
    Completed,
    /// Job failed with an error.
    Failed,
    /// Job was cancelled by user.
    Cancelled,
    /// Job is waiting for user input (e.g., conflict resolution).
    WaitingForInput,
}

impl JobState {
    /// Terminal states reject every further transition.
    pub open spec fn spec_is_terminal(&self) -> bool {
        self is Completed || self is Failed || self is Cancelled
    }

    /// Returns `true` if the job is in a terminal state.
    pub fn is_terminal(&self) -> (r: bool)
        ensures
            r == self.spec_is_terminal(),
    {
        matches!(self, JobState::Completed | JobState::Failed | JobState::Cancelled)
    }

    /// Returns `true` if the job is actively working.
    pub fn is_active(&self) -> (r: bool)
        ensures
            r == (self is Running),
    {
        matches!(self, JobState::Running)
    }

    /// Returns `true` if the job can be paused.
    pub fn can_pause(&self) -> (r: bool)
        ensures
            r == (self is Running),
    {
        matches!(self, JobState::Running)
    }

    /// Returns `true` if the job can be resumed.
    pub fn can_resume(&self) -> (r: bool)
        ensures
            r == (self is Paused),
    {
        matches!(self, JobState::Paused)
    }

    /// Returns `true` if the job can be cancelled.
    pub fn can_cancel(&self) -> (r: bool)
        ensures
            r == !self.spec_is_terminal(),
    {
        !self.is_terminal()
    }

    /// What `label` renders for each state.
    pub open spec fn spec_label(&self) -> Seq<char> {
        match *self {
            JobState::Pending => "Pending"@,
            JobState::Running => "Running"@,
            JobState::Paused => "Paused"@,
            JobState::Completed => "Completed"@,
            JobState::Failed => "Failed"@,
            JobState::Cancelled => "Cancelled"@,
            JobState::WaitingForInput => "Waiting"@,
        }
    }

    /// Get a human-readable label.
    pub fn label(&self) -> (r: &'static str)
        ensures
            r@ == self.spec_label(),
    {
        match self {
            JobState::Pending => "Pending",
            JobState::Running => "Running",
            JobState::Paused => "Paused",
            JobState::Completed => "Completed",
            JobState::Failed => "Failed",
            JobState::Cancelled => "Cancelled",
            JobState::WaitingForInput => "Waiting",
        }
    }
}

/// Progress information for a transfer job.
#[derive(Debug, Clone, PartialEq)]
pub struct Progress {
    /// The job this progress belongs to.
    pub job_id: JobId,
    /// Current job state.
    pub state: JobState,
    /// Total bytes to transfer.
    pub total_bytes: u64,
    /// Bytes transferred so far.
    pub transferred_bytes: u64,
    /// Total number of items (files + folders).
    pub total_items: usize,
    /// Items processed so far.
    pub processed_items: usize,
    /// Current file being processed (if any).
    pub current_file: Option<String>,
    /// Current transfer speed in bytes per second.
    pub speed_bps: u64,
    /// Estimated time remaining in seconds.
    pub eta_seconds: Option<u64>,
    /// Number of items that failed.
    pub failed_items: usize,
    /// Number of items that were skipped.
    pub skipped_items: usize,
}

impl Progress {
    /// Create a new progress tracker for a job.
    pub fn new(job_id: JobId, total_bytes: u64, total_items: usize) -> (r: Progress)
        ensures
            r.job_id == job_id,
            r.state is Pending,
            r.total_bytes == total_bytes,
            r.transferred_bytes == 0,
            r.total_items == total_items,
            r.processed_items == 0,
            r.current_file is None,
            r.speed_bps == 0,
            r.eta_seconds is None,
            r.failed_items == 0,
            r.skipped_items == 0,
    {
        Progress {
            job_id,
            state: JobState::Pending,
            total_bytes,
            transferred_bytes: 0,
            total_items,
            processed_items: 0,
            current_file: None,
            speed_bps: 0,
            eta_seconds: None,
            failed_items: 0,
            skipped_items: 0,
        }
    }

    /// Get a human-readable speed string (e.g., "15.50 MB/s").
    pub fn speed_display(&self) -> (r: String)
        ensures
            r@ == spec_format_speed(self.speed_bps),
    {
        format_speed(self.speed_bps)
    }

    /// Get a human-readable ETA string (e.g., "2m 30s").
    pub fn eta_display(&self) -> (r: String)
        ensures
            self.eta_seconds matches Some(secs) ==> r@ == spec_format_duration(secs),
            self.eta_seconds is None ==> r@ == "Calculating..."@,
    {
        match self.eta_seconds {
            Some(secs) => format_duration(secs),
            None => "Calculating...".to_owned(),
        }
    }

    /// Check if the job has completed (successfully or not).
    pub fn is_finished(&self) -> (r: bool)
        ensures
            r == self.state.spec_is_terminal(),
    {
        self.state.is_terminal()
    }
}

/// What `format_speed` renders: binary units with two decimal places.
pub open spec fn spec_format_speed(bps: u64) -> Seq<char> {
    if bps >= GB {
        scaled2(bps as nat, GB as nat) + " GB/s"@
    } else if bps >= MB {
        scaled2(bps as nat, MB as nat) + " MB/s"@
    } else if bps >= KB {
        scaled2(bps as nat, KB as nat) + " KB/s"@
    } else {
        dec_str(bps as nat) + " B/s"@
    }
}

/// Format bytes per second as a human-readable speed.
pub fn format_speed(bps: u64) -> (r: String)
    ensures
        r@ == spec_format_speed(bps),
{
    if bps >= GB {
        let mut s = crate::text::scaled2_string(bps, GB);
        s.append(" GB/s");
        proof {
            assert(s@ =~= spec_format_speed(bps));
        }
        s
    } else if bps >= MB {
        let mut s = crate::text::scaled2_string(bps, MB);
        s.append(" MB/s");
        proof {
            assert(s@ =~= spec_format_speed(bps));
        }
        s
    } else if bps >= KB {
        let mut s = crate::text::scaled2_string(bps, KB);
        s.append(" KB/s");
        proof {
            assert(s@ =~= spec_format_speed(bps));
        }
        s
    } else {
        let mut s = crate::text::u64_to_string(bps);
        s.append(" B/s");
        proof {
            assert(s@ =~= spec_format_speed(bps));
        }
        s
    }
}

/// What `format_duration` renders: seconds, minutes with an optional
/// second part, or hours with an optional minute part.
pub open spec fn spec_format_duration(secs: u64) -> Seq<char> {
    if secs < 60 {
        dec_str(secs as nat) + "s"@
    } else if secs < 3600 {
        if secs % 60 > 0 {
            dec_str((secs / 60) as nat) + "m "@ + dec_str((secs % 60) as nat) + "s"@
        } else {
            dec_str((secs / 60) as nat) + "m"@
        }
    } else {
        if (secs % 3600) / 60 > 0 {
            dec_str((secs / 3600) as nat) + "h "@ + dec_str(((secs % 3600) / 60) as nat) + "m"@
        } else {
            dec_str((secs / 3600) as nat) + "h"@
        }
    }
}

/// Format seconds as a human-readable duration.
pub fn format_duration(secs: u64) -> (r: String)
    ensures
        r@ == spec_format_duration(secs),
{
    if secs < 60 {
        let mut s = crate::text::u64_to_string(secs);
        s.append("s");
        proof {
            assert(s@ =~= spec_format_duration(secs));
        }
        s
    } else if secs < 3600 {
        let mins = secs / 60;
        let remaining = secs % 60;
        let mut s = crate::text::u64_to_string(mins);
        if remaining > 0 {
            s.append("m ");
            let rs = crate::text::u64_to_string(remaining);
            s.append(rs.as_str());
            s.append("s");
            proof {
                assert(s@ =~= spec_format_duration(secs));
            }
            s
        } else {
            s.append("m");
            proof {
                assert(s@ =~= spec_format_duration(secs));
            }
            s
        }
    } else {
        let hours = secs / 3600;
        let mins = (secs % 3600) / 60;
        let mut s = crate::text::u64_to_string(hours);
        if mins > 0 {
            s.append("h ");
            let ms = crate::text::u64_to_string(mins);
            s.append(ms.as_str());
            s.append("m");
            proof {
                assert(s@ =~= spec_format_duration(secs));
            }
            s
        } else {
            s.append("h");
            proof {
                assert(s@ =~= spec_format_duration(secs));
            }
            s
        }
    }
}

} // verus!
