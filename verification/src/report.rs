//! Transfer reports: per-item outcomes, the aggregated summary, and the
//! plain-text export. Writing report files belongs to the caller.

use vstd::prelude::*;
use crate::job::JobId;
use crate::ordering::{lemma_sum_by_push, sum_by};
use crate::text::{dec_str, pad3};

verus! {

/// Status of an individual transfer item.
#[derive(Debug, Clone, Copy, PartialEq, Eq, Structural)]
pub enum TransferStatus {
    /// Item transferred successfully.
    Success,
    /// Item was skipped (e.g., conflict policy).
    Skipped,
    /// Item transfer failed.
    Failed,
}

impl TransferStatus {
    /// What `label` renders for each status.
    pub open spec fn spec_label(&self) -> Seq<char> {
        match *self {
            TransferStatus::Success => "Success"@,
            TransferStatus::Skipped => "Skipped"@,
            TransferStatus::Failed => "Failed"@,
        }
    }

    /// Get a display label for the status.
    pub fn label(&self) -> (r: &'static str)
        ensures
            r@ == self.spec_label(),
    {
        match self {
            TransferStatus::Success => "Success",
            TransferStatus::Skipped => "Skipped",
            TransferStatus::Failed => "Failed",
        }
    }

    /// What `symbol` renders for each status.
    pub open spec fn spec_symbol(&self) -> Seq<char> {
        match *self {
            TransferStatus::Success => "✓"@,
            TransferStatus::Skipped => "○"@,
            TransferStatus::Failed => "✗"@,
        }
    }

    /// Get a symbol for compact display.
    pub fn symbol(&self) -> (r: &'static str)
        ensures
            r@ == self.spec_symbol(),
    {
        match self {
            TransferStatus::Success => "✓",
            TransferStatus::Skipped => "○",
            TransferStatus::Failed => "✗",
        }
    }
}

/// Detailed result for a single transferred item.
#[derive(Debug, PartialEq)]
pub struct TransferItemResult {
    /// Source path.
    pub source: String,
    /// Destination path.
    pub destination: String,
    /// Whether this was a directory.
    pub is_directory: bool,
    /// Size in bytes (0 for directories).
    pub size_bytes: u64,
    /// Transfer status.
    pub status: TransferStatus,
    /// Reason for skip or failure.
    pub reason: Option<String>,
    /// Duration for this item in milliseconds (if tracked).
    pub duration_ms: Option<u64>,
}

impl Clone for TransferItemResult {
    /// A result clones field by field, to an equal record.
    fn clone(&self) -> (r: TransferItemResult)
        ensures
            r == *self,
    {
        TransferItemResult {
            source: self.source.clone(),
            destination: self.destination.clone(),
            is_directory: self.is_directory,
            size_bytes: self.size_bytes,
            status: self.status,
            reason: match &self.reason {
                Some(s) => Some(s.clone()),
                None => None,
            },
            duration_ms: self.duration_ms,
        }
    }
}

impl TransferItemResult {
    /// Create a success result for a file.
    pub fn success(source: String, destination: String, size_bytes: u64) -> (r: TransferItemResult)
        ensures
            r.source == source,
            r.destination == destination,
            !r.is_directory,
            r.size_bytes == size_bytes,
            r.status is Success,
            r.reason is None,
            r.duration_ms is None,
    {
        TransferItemResult {
            source,
            destination,
            is_directory: false,
            size_bytes,
            status: TransferStatus::Success,
            reason: None,
            duration_ms: None,
        }
    }

    /// Create a success result for a directory.
    pub fn success_dir(source: String, destination: String) -> (r: TransferItemResult)
        ensures
            r.source == source,
            r.destination == destination,
            r.is_directory,
            r.size_bytes == 0,
            r.status is Success,
            r.reason is None,
            r.duration_ms is None,
    {
        TransferItemResult {
            source,
            destination,
            is_directory: true,
            size_bytes: 0,
            status: TransferStatus::Success,
            reason: None,
            duration_ms: None,
        }
    }

    /// Create a skipped result.
    pub fn skipped(source: String, destination: String, reason: String) -> (r: TransferItemResult)
        ensures
            r.source == source,
            r.destination == destination,
            !r.is_directory,
            r.size_bytes == 0,
            r.status is Skipped,
            r.reason == Some(reason),
            r.duration_ms is None,
    {
        TransferItemResult {
            source,
            destination,
            is_directory: false,
            size_bytes: 0,
            status: TransferStatus::Skipped,
            reason: Some(reason),
            duration_ms: None,
        }
    }

    /// Create a failed result.
    pub fn failed(source: String, destination: String, error: String) -> (r: TransferItemResult)
        ensures
            r.source == source,
            r.destination == destination,
            !r.is_directory,
            r.size_bytes == 0,
            r.status is Failed,
            r.reason == Some(error),
            r.duration_ms is None,
    {
        TransferItemResult {
            source,
            destination,
            is_directory: false,
            size_bytes: 0,
            status: TransferStatus::Failed,
            reason: Some(error),
            duration_ms: None,
        }
    }

    /// Set the duration for this item.
    pub fn with_duration(self, duration_ms: u64) -> (r: TransferItemResult)
        ensures
            r == (TransferItemResult { duration_ms: Some(duration_ms), ..self }),
    {
        TransferItemResult { duration_ms: Some(duration_ms), ..self }
    }

    /// Check if the transfer succeeded.
    pub fn is_success(&self) -> (r: bool)
        ensures
            r == (self.status is Success),
    {
        matches!(self.status, TransferStatus::Success)
    }

    /// Check if the transfer failed.
    pub fn is_failed(&self) -> (r: bool)
        ensures
            r == (self.status is Failed),
    {
        matches!(self.status, TransferStatus::Failed)
    }
}

/// Counts an item with the given status as one.
pub open spec fn status_one(st: TransferStatus) -> spec_fn(TransferItemResult) -> int {
    |t: TransferItemResult|
        if t.status == st {
            1int
        } else {
            0int
        }
}

/// Weighs a successful item by its bytes.
pub open spec fn success_bytes() -> spec_fn(TransferItemResult) -> int {
    |t: TransferItemResult|
        if t.status is Success {
            t.size_bytes as int
        } else {
            0int
        }
}

/// Counts a successful directory as one.
pub open spec fn success_dir_one() -> spec_fn(TransferItemResult) -> int {
    |t: TransferItemResult|
        if t.status is Success && t.is_directory {
            1int
        } else {
            0int
        }
}

/// Counts a successful file as one.
pub open spec fn success_file_one() -> spec_fn(TransferItemResult) -> int {
    |t: TransferItemResult|
        if t.status is Success && !t.is_directory {
            1int
        } else {
            0int
        }
}

/// Summary statistics for a transfer operation.
#[derive(Debug, Clone, Copy, PartialEq, Eq, Structural)]
pub struct TransferSummary {
    /// Total number of items processed.
    pub total_items: usize,
    /// Number of items that succeeded.
    pub succeeded: usize,
    /// Number of items that were skipped.
    pub skipped: usize,
    /// Number of items that failed.
    pub failed: usize,
    /// Total bytes transferred.
    pub bytes_transferred: u64,
    /// Total duration in milliseconds.
    pub duration_ms: u64,
    /// Number of directories created.
    pub directories_created: usize,
    /// Number of files copied.
    pub files_copied: usize,
}

impl Default for TransferSummary {
    fn default() -> (r: TransferSummary)
        ensures
            r.total_items == 0 && r.succeeded == 0 && r.skipped == 0 && r.failed == 0
                && r.bytes_transferred == 0 && r.duration_ms == 0 && r.directories_created == 0
                && r.files_copied == 0,
    {
        TransferSummary {
            total_items: 0,
            succeeded: 0,
            skipped: 0,
            failed: 0,
            bytes_transferred: 0,
            duration_ms: 0,
            directories_created: 0,
            files_copied: 0,
        }
    }
}

impl TransferSummary {
    /// Check if all items succeeded.
    pub fn is_complete_success(&self) -> (r: bool)
        ensures
            r == (self.failed == 0),
    {
        self.failed == 0
    }

    /// Average transfer speed in bytes per second; the raw byte count when
    /// no time passed, capped at the largest representable speed.
    pub fn average_speed(&self) -> (r: u64)
        ensures
            r == spec_average_speed(*self),
    {
        if self.duration_ms == 0 {
            self.bytes_transferred
        } else {
            let q: u128 = ((self.bytes_transferred as u128) * 1000) / (self.duration_ms as u128);
            if q > u64::MAX as u128 {
                u64::MAX
            } else {
                q as u64
            }
        }
    }

    /// What `duration_display` renders: hours, minutes and seconds as
    /// applicable, fractional seconds below a minute, milliseconds below a
    /// second.
    pub open spec fn spec_duration_display(&self) -> Seq<char> {
        let secs = self.duration_ms / 1000;
        let ms = self.duration_ms % 1000;
        if secs >= 3600 {
            dec_str((secs / 3600) as nat) + "h "@ + dec_str(((secs % 3600) / 60) as nat) + "m "@
                + dec_str((secs % 60) as nat) + "s"@
        } else if secs >= 60 {
            dec_str((secs / 60) as nat) + "m "@ + dec_str((secs % 60) as nat) + "s"@
        } else if secs > 0 {
            dec_str(secs as nat) + "."@ + pad3(ms as nat) + "s"@
        } else {
            dec_str(self.duration_ms as nat) + "ms"@
        }
    }

    /// Get a human-readable duration.
    pub fn duration_display(&self) -> (r: String)
        ensures
            r@ == self.spec_duration_display(),
    {
        let secs = self.duration_ms / 1000;
        let ms = self.duration_ms % 1000;
        if secs >= 3600 {
            let mut s = crate::text::u64_to_string(secs / 3600);
            s.append("h ");
            let m = crate::text::u64_to_string((secs % 3600) / 60);
            s.append(m.as_str());
            s.append("m ");
            let sec = crate::text::u64_to_string(secs % 60);
            s.append(sec.as_str());
            s.append("s");
            proof {
                assert(s@ =~= self.spec_duration_display());
            }
            s
        } else if secs >= 60 {
            let mut s = crate::text::u64_to_string(secs / 60);
            s.append("m ");
            let sec = crate::text::u64_to_string(secs % 60);
            s.append(sec.as_str());
            s.append("s");
            proof {
                assert(s@ =~= self.spec_duration_display());
            }
            s
        } else if secs > 0 {
            let mut s = crate::text::u64_to_string(secs);
            s.append(".");
            let frac = crate::text::u64_to_string_3(ms);
            s.append(frac.as_str());
            s.append("s");
            proof {
                reveal_strlit(".");
                assert(s@ =~= self.spec_duration_display());
            }
            s
        } else {
            let mut s = crate::text::u64_to_string(self.duration_ms);
            s.append("ms");
            proof {
                assert(s@ =~= self.spec_duration_display());
            }
            s
        }
    }
}

/// The smaller of two mathematical integers.
pub open spec fn spec_min_int(a: int, b: int) -> int {
    if a <= b {
        a
    } else {
        b
    }
}

/// Type of transfer operation.
#[derive(Debug, Clone, Copy, PartialEq, Eq, Structural)]
pub enum TransferOperation {
    Copy,
    Move,
}

impl TransferOperation {
    /// What `label` renders for each operation.
    pub open spec fn spec_label(&self) -> Seq<char> {
        match *self {
            TransferOperation::Copy => "Copy"@,
            TransferOperation::Move => "Move"@,
        }
    }

    /// Get a display label.
    pub fn label(&self) -> (r: &'static str)
        ensures
            r@ == self.spec_label(),
    {
        match self {
            TransferOperation::Copy => "Copy",
            TransferOperation::Move => "Move",
        }
    }
}

/// Complete transfer report with all details.
#[derive(Debug, Clone)]
pub struct DetailedTransferReport {
    /// Unique identifier for the job.
    pub job_id: JobId,
    /// Type of operation (copy/move).
    pub operation: TransferOperation,
    /// When the transfer started, milliseconds since the Unix epoch.
    pub started_at: u64,
    /// When the transfer completed, milliseconds since the Unix epoch.
    pub completed_at: u64,
    /// Summary statistics.
    pub summary: TransferSummary,
    /// Individual item results.
    pub items: Vec<TransferItemResult>,
    /// Whether the operation was cancelled.
    pub was_cancelled: bool,
}

impl DetailedTransferReport {
    /// The report invariant: the summary's counters sum the items, and
    /// every item is accounted for — total is exactly succeeded plus
    /// skipped plus failed.
    pub open spec fn wf(&self) -> bool {
        &&& self.summary.total_items == self.items@.len()
        &&& self.summary.succeeded as int == sum_by(self.items@, status_one(TransferStatus::Success))
        &&& self.summary.skipped as int == sum_by(self.items@, status_one(TransferStatus::Skipped))
        &&& self.summary.failed as int == sum_by(self.items@, status_one(TransferStatus::Failed))
        &&& self.summary.total_items == self.summary.succeeded + self.summary.skipped
            + self.summary.failed
        &&& self.summary.bytes_transferred as int == sum_by(self.items@, success_bytes())
        &&& self.summary.directories_created as int == sum_by(self.items@, success_dir_one())
        &&& self.summary.files_copied as int == sum_by(self.items@, success_file_one())
    }

    /// Create a new report builder.
    pub fn builder(job_id: JobId, operation: TransferOperation, started_at: u64) -> (r:
        ReportBuilder)
        ensures
            r.spec_job_id() == job_id,
            r.spec_operation() == operation,
            r.spec_started_at() == started_at,
            r.spec_items().len() == 0,
            !r.spec_cancelled(),
    {
        ReportBuilder::new(job_id, operation, started_at)
    }

    /// Get all failed items.
    pub fn failed_items(&self) -> (r: Vec<TransferItemResult>)
        ensures
            r@ == self.items@.filter(|t: TransferItemResult| t.status is Failed),
    {
        filter_by_status(&self.items, TransferStatus::Failed)
    }

    /// Get all successful items.
    pub fn successful_items(&self) -> (r: Vec<TransferItemResult>)
        ensures
            r@ == self.items@.filter(|t: TransferItemResult| t.status is Success),
    {
        filter_by_status(&self.items, TransferStatus::Success)
    }

    /// Get all skipped items.
    pub fn skipped_items(&self) -> (r: Vec<TransferItemResult>)
        ensures
            r@ == self.items@.filter(|t: TransferItemResult| t.status is Skipped),
    {
        filter_by_status(&self.items, TransferStatus::Skipped)
    }

    /// Export the report to plain text: a header, the summary, and the
    /// failed and skipped items each under their own section.
    pub fn to_text(&self) -> (r: String)
        requires
            self.wf(),
            self.summary.total_items <= 1000000000,
        ensures
            r@ == spec_report_text(*self),
    {
        let mut out = String::new();
        out.append("=== ");
        out.append(self.operation.label());
        out.append(" Report ===\n");
        out.append("Job ID: ");
        let ids = self.job_id.display();
        out.append(ids.as_str());
        out.append("\n");
        out.append("Duration: ");
        let dur = self.summary.duration_display();
        out.append(dur.as_str());
        out.append("\n\n");
        out.append("--- Summary ---\n");
        out.append("Total items: ");
        let ti = crate::text::u64_to_string(self.summary.total_items as u64);
        out.append(ti.as_str());
        out.append("\n");
        out.append("Succeeded: ");
        let su = crate::text::u64_to_string(self.summary.succeeded as u64);
        out.append(su.as_str());
        out.append(" (");
        let pct = success_percent_tenths(self.summary.succeeded, self.summary.total_items);
        out.append(pct.as_str());
        out.append("%)\n");
        out.append("Skipped: ");
        let sk = crate::text::u64_to_string(self.summary.skipped as u64);
        out.append(sk.as_str());
        out.append("\n");
        out.append("Failed: ");
        let fa = crate::text::u64_to_string(self.summary.failed as u64);
        out.append(fa.as_str());
        out.append("\n");
        out.append("Bytes transferred: ");
        let by = format_bytes(self.summary.bytes_transferred);
        out.append(by.as_str());
        out.append("\n");
        out.append("Average speed: ");
        let sp = format_bytes(self.summary.average_speed());
        out.append(sp.as_str());
        out.append("/s\n");
        proof {
            assert(out@ =~= text_head(*self));
        }
        if self.was_cancelled {
            out.append("\n*** OPERATION WAS CANCELLED ***\n");
        }
        proof {
            assert(out@ =~= text_head(*self) + cancel_note(self.was_cancelled));
        }
        let ghost mid = out@;
        let failed = self.failed_items();
        if failed.len() > 0 {
            out.append("\n--- Failed Items ---\n");
            let ghost fpre = out@;
            let n = failed.len();
            let mut i: usize = 0;
            proof {
                assert(failed@.take(0).map_values(|t: TransferItemResult| spec_failed_line(t))
                    =~= Seq::<Seq<char>>::empty());
            }
            while i < n
                invariant
                    i <= n,
                    n == failed@.len(),
                    out@ == fpre + cat_lines(
                        failed@.take(i as int).map_values(
                            |t: TransferItemResult| spec_failed_line(t),
                        ),
                    ),
                decreases n - i,
            {
                out.append("✗ ");
                out.append(failed[i].source.as_str());
                out.append(" -> ");
                out.append(failed[i].destination.as_str());
                out.append("\n  Error: ");
                match &failed[i].reason {
                    Some(reason) => out.append(reason.as_str()),
                    None => out.append("Unknown error"),
                }
                out.append("\n");
                proof {
                    let lines = failed@.take(i + 1).map_values(
                        |t: TransferItemResult| spec_failed_line(t),
                    );
                    assert(lines.drop_last() =~= failed@.take(i as int).map_values(
                        |t: TransferItemResult| spec_failed_line(t),
                    ));
                    assert(lines.last() == spec_failed_line(failed@[i as int]));
                    assert(out@ =~= fpre + cat_lines(lines));
                }
                i += 1;
            }
            proof {
                assert(failed@.take(n as int) =~= failed@);
            }
        }
        proof {
            assert(out@ =~= mid + failed_section(self.items@));
        }
        let ghost mid2 = out@;
        let skipped = self.skipped_items();
        if skipped.len() > 0 {
            out.append("\n--- Skipped Items ---\n");
            let ghost spre = out@;
            let n = skipped.len();
            let mut i: usize = 0;
            proof {
                assert(skipped@.take(0).map_values(|t: TransferItemResult| spec_skipped_line(t))
                    =~= Seq::<Seq<char>>::empty());
            }
            while i < n
                invariant
                    i <= n,
                    n == skipped@.len(),
                    out@ == spre + cat_lines(
                        skipped@.take(i as int).map_values(
                            |t: TransferItemResult| spec_skipped_line(t),
                        ),
                    ),
                decreases n - i,
            {
                out.append("○ ");
                out.append(skipped[i].source.as_str());
                out.append(" -> ");
                out.append(skipped[i].destination.as_str());
                out.append("\n  Reason: ");
                match &skipped[i].reason {
                    Some(reason) => out.append(reason.as_str()),
                    None => out.append("Unknown reason"),
                }
                out.append("\n");
                proof {
                    let lines = skipped@.take(i + 1).map_values(
                        |t: TransferItemResult| spec_skipped_line(t),
                    );
                    assert(lines.drop_last() =~= skipped@.take(i as int).map_values(
                        |t: TransferItemResult| spec_skipped_line(t),
                    ));
                    assert(lines.last() == spec_skipped_line(skipped@[i as int]));
                    assert(out@ =~= spre + cat_lines(lines));
                }
                i += 1;
            }
            proof {
                assert(skipped@.take(n as int) =~= skipped@);
            }
        }
        proof {
            assert(out@ =~= mid2 + skipped_section(self.items@));
            assert(out@ =~= spec_report_text(*self));
        }
        out
    }
}

/// Concatenation of text pieces, in order.
pub open spec fn cat_lines(parts: Seq<Seq<char>>) -> Seq<char>
    decreases parts.len(),
{
    if parts.len() == 0 {
        Seq::<char>::empty()
    } else {
        cat_lines(parts.drop_last()) + parts.last()
    }
}

/// A failure's reason, or the fallback note.
pub open spec fn reason_or(o: Option<String>, alt: Seq<char>) -> Seq<char> {
    match o {
        Some(r) => r@,
        None => alt,
    }
}

/// One failed item's line in the text export.
pub open spec fn spec_failed_line(t: TransferItemResult) -> Seq<char> {
    "✗ "@ + t.source@ + " -> "@ + t.destination@ + "\n  Error: "@ + reason_or(
        t.reason,
        "Unknown error"@,
    ) + "\n"@
}

/// One skipped item's line in the text export.
pub open spec fn spec_skipped_line(t: TransferItemResult) -> Seq<char> {
    "○ "@ + t.source@ + " -> "@ + t.destination@ + "\n  Reason: "@ + reason_or(
        t.reason,
        "Unknown reason"@,
    ) + "\n"@
}

/// The failed-items section: absent without failures, else its banner and
/// one line per failed item, in report order.
pub open spec fn failed_section(items: Seq<TransferItemResult>) -> Seq<char> {
    let failed = items.filter(|t: TransferItemResult| t.status is Failed);
    if failed.len() == 0 {
        Seq::<char>::empty()
    } else {
        "\n--- Failed Items ---\n"@ + cat_lines(
            failed.map_values(|t: TransferItemResult| spec_failed_line(t)),
        )
    }
}

/// The skipped-items section, shaped like the failed one.
pub open spec fn skipped_section(items: Seq<TransferItemResult>) -> Seq<char> {
    let skipped = items.filter(|t: TransferItemResult| t.status is Skipped);
    if skipped.len() == 0 {
        Seq::<char>::empty()
    } else {
        "\n--- Skipped Items ---\n"@ + cat_lines(
            skipped.map_values(|t: TransferItemResult| spec_skipped_line(t)),
        )
    }
}

/// The cancellation note, present only on a cancelled run.
pub open spec fn cancel_note(was_cancelled: bool) -> Seq<char> {
    if was_cancelled {
        "\n*** OPERATION WAS CANCELLED ***\n"@
    } else {
        Seq::<char>::empty()
    }
}

/// The success share in tenths of a percent, as "NN.N"; an empty run
/// counts as complete.
pub open spec fn spec_pct_tenths(succeeded: int, total: int) -> Seq<char> {
    if total == 0 {
        dec_str(100) + ".0"@
    } else {
        let t = (succeeded * 1000 + total / 2) / total;
        dec_str((t / 10) as nat) + "."@ + dec_str((t % 10) as nat)
    }
}

/// The average speed a summary reports: the raw byte count when no time
/// passed, else bytes per second capped at the largest representable
/// speed.
pub open spec fn spec_average_speed(s: TransferSummary) -> u64 {
    if s.duration_ms == 0 {
        s.bytes_transferred
    } else {
        spec_min_int(
            (s.bytes_transferred as int) * 1000 / (s.duration_ms as int),
            u64::MAX as int,
        ) as u64
    }
}

/// The export's header and summary block.
pub open spec fn text_head(r: DetailedTransferReport) -> Seq<char> {
    "=== "@ + r.operation.spec_label() + " Report ===\n"@ + "Job ID: "@ + r.job_id.spec_display()
        + "\n"@ + "Duration: "@ + r.summary.spec_duration_display() + "\n\n"@
        + "--- Summary ---\n"@ + "Total items: "@ + dec_str(r.summary.total_items as nat) + "\n"@
        + "Succeeded: "@ + dec_str(r.summary.succeeded as nat) + " ("@ + spec_pct_tenths(
        r.summary.succeeded as int,
        r.summary.total_items as int,
    ) + "%)\n"@ + "Skipped: "@ + dec_str(r.summary.skipped as nat) + "\n"@ + "Failed: "@
        + dec_str(r.summary.failed as nat) + "\n"@ + "Bytes transferred: "@
        + crate::entry::spec_format_size(r.summary.bytes_transferred) + "\n"@
        + "Average speed: "@ + crate::entry::spec_format_size(spec_average_speed(r.summary))
        + "/s\n"@
}

/// The whole text export: header and summary, the cancellation note, and
/// the failed and skipped sections.
pub open spec fn spec_report_text(r: DetailedTransferReport) -> Seq<char> {
    text_head(r) + cancel_note(r.was_cancelled) + failed_section(r.items@) + skipped_section(
        r.items@,
    )
}

/// The success share in tenths of a percent, rendered as "NN.N"; an empty
/// run counts as complete.
fn success_percent_tenths(succeeded: usize, total: usize) -> (r: String)
    requires
        total <= 1000000000,
        succeeded <= total,
    ensures
        r@ == spec_pct_tenths(succeeded as int, total as int),
{
    if total == 0 {
        let mut s = crate::text::u64_to_string(100);
        s.append(".0");
        proof {
            reveal_strlit(".0");
            assert(s@ =~= spec_pct_tenths(succeeded as int, total as int));
        }
        return s;
    }
    let tenths: u64 = (((succeeded as u64) * 1000) + (total as u64) / 2) / (total as u64);
    let mut s = crate::text::u64_to_string(tenths / 10);
    s.append(".");
    let frac = crate::text::u64_to_string(tenths % 10);
    s.append(frac.as_str());
    proof {
        reveal_strlit(".");
        assert(s@ =~= spec_pct_tenths(succeeded as int, total as int));
    }
    s
}

/// Format bytes to a human-readable string.
pub fn format_bytes(bytes: u64) -> (r: String)
    ensures
        r@ == crate::entry::spec_format_size(bytes),
{
    crate::entry::format_size(bytes)
}

/// Builder for constructing transfer reports.
#[derive(Debug)]
pub struct ReportBuilder {
    job_id: JobId,
    operation: TransferOperation,
    started_at: u64,
    items: Vec<TransferItemResult>,
    was_cancelled: bool,
}

impl ReportBuilder {
    /// The job the report is for.
    pub closed spec fn spec_job_id(&self) -> JobId {
        self.job_id
    }

    /// The operation the report is for.
    pub closed spec fn spec_operation(&self) -> TransferOperation {
        self.operation
    }

    /// The items recorded so far.
    pub closed spec fn spec_items(&self) -> Seq<TransferItemResult> {
        self.items@
    }

    /// Whether the operation was cancelled.
    pub closed spec fn spec_cancelled(&self) -> bool {
        self.was_cancelled
    }

    /// When the transfer started, milliseconds since the Unix epoch.
    pub closed spec fn spec_started_at(&self) -> u64 {
        self.started_at
    }

    /// Create a new report builder.
    pub fn new(job_id: JobId, operation: TransferOperation, started_at: u64) -> (r: ReportBuilder)
        ensures
            r.spec_job_id() == job_id,
            r.spec_operation() == operation,
            r.spec_started_at() == started_at,
            r.spec_items().len() == 0,
            !r.spec_cancelled(),
    {
        ReportBuilder { job_id, operation, started_at, items: Vec::new(), was_cancelled: false }
    }

    /// Add an item result.
    pub fn add_item(&mut self, item: TransferItemResult)
        ensures
            final(self).spec_items() == old(self).spec_items().push(item),
            final(self).spec_job_id() == old(self).spec_job_id(),
            final(self).spec_operation() == old(self).spec_operation(),
            final(self).spec_started_at() == old(self).spec_started_at(),
            final(self).spec_cancelled() == old(self).spec_cancelled(),
    {
        self.items.push(item);
    }

    /// Mark the operation as cancelled.
    pub fn set_cancelled(&mut self, cancelled: bool)
        ensures
            final(self).spec_cancelled() == cancelled,
            final(self).spec_items() == old(self).spec_items(),
            final(self).spec_job_id() == old(self).spec_job_id(),
            final(self).spec_operation() == old(self).spec_operation(),
            final(self).spec_started_at() == old(self).spec_started_at(),
    {
        self.was_cancelled = cancelled;
    }

    /// Build the final report: the summary counts every item once, so the
    /// totals add up — total is succeeded plus skipped plus failed.
    pub fn build(self, completed_at: u64) -> (r: DetailedTransferReport)
        requires
            sum_by(self.spec_items(), success_bytes()) <= u64::MAX,
        ensures
            r.wf(),
            r.job_id == self.spec_job_id(),
            r.operation == self.spec_operation(),
            r.items@ == self.spec_items(),
            r.was_cancelled == self.spec_cancelled(),
            r.completed_at == completed_at,
            r.started_at == self.spec_started_at(),
            // the duration spans start to completion; a clock running
            // backwards counts as zero
            r.summary.duration_ms == (if completed_at >= self.spec_started_at() {
                (completed_at - self.spec_started_at()) as u64
            } else {
                0u64
            }),
    {
        let ghost items_seq = self.items@;
        let duration = if completed_at >= self.started_at {
            completed_at - self.started_at
        } else {
            0
        };
        let mut summary = TransferSummary {
            total_items: self.items.len(),
            succeeded: 0,
            skipped: 0,
            failed: 0,
            bytes_transferred: 0,
            duration_ms: duration,
            directories_created: 0,
            files_copied: 0,
        };
        let n = self.items.len();
        let mut i: usize = 0;
        while i < n
            invariant
                i <= n,
                self.items@ == items_seq,
                n == items_seq.len(),
                summary.succeeded as int == sum_by(
                    items_seq.take(i as int),
                    status_one(TransferStatus::Success),
                ),
                summary.skipped as int == sum_by(
                    items_seq.take(i as int),
                    status_one(TransferStatus::Skipped),
                ),
                summary.failed as int == sum_by(
                    items_seq.take(i as int),
                    status_one(TransferStatus::Failed),
                ),
                summary.succeeded + summary.skipped + summary.failed == i,
                summary.bytes_transferred as int == sum_by(
                    items_seq.take(i as int),
                    success_bytes(),
                ),
                summary.directories_created as int == sum_by(
                    items_seq.take(i as int),
                    success_dir_one(),
                ),
                summary.files_copied as int == sum_by(
                    items_seq.take(i as int),
                    success_file_one(),
                ),
                summary.directories_created + summary.files_copied == summary.succeeded,
                sum_by(items_seq, success_bytes()) <= u64::MAX,
                summary.total_items == n,
                summary.duration_ms == duration,
            decreases n - i,
        {
            proof {
                assert(items_seq.take(i + 1).drop_last() =~= items_seq.take(i as int));
                assert(items_seq.take(i + 1).last() == items_seq[i as int]);
                lemma_bytes_prefix(items_seq, i + 1);
            }
            let item = &self.items[i];
            match item.status {
                TransferStatus::Success => {
                    summary.succeeded += 1;
                    summary.bytes_transferred += item.size_bytes;
                    if item.is_directory {
                        summary.directories_created += 1;
                    } else {
                        summary.files_copied += 1;
                    }
                },
                TransferStatus::Skipped => {
                    summary.skipped += 1;
                },
                TransferStatus::Failed => {
                    summary.failed += 1;
                },
            }
            i += 1;
        }
        proof {
            assert(items_seq.take(n as int) =~= items_seq);
        }
        DetailedTransferReport {
            job_id: self.job_id,
            operation: self.operation,
            started_at: self.started_at,
            completed_at,
            summary,
            items: self.items,
            was_cancelled: self.was_cancelled,
        }
    }
}

/// The byte sum of a prefix never exceeds the whole's.
proof fn lemma_bytes_prefix(s: Seq<TransferItemResult>, i: int)
    requires
        0 <= i <= s.len(),
    ensures
        sum_by(s.take(i), success_bytes()) <= sum_by(s, success_bytes()),
{
    assert forall|t: TransferItemResult| #[trigger] success_bytes()(t) >= 0 by {}
    crate::ordering::lemma_sum_by_prefix_le(s, i, success_bytes());
}

/// Filters the items by status.
fn filter_by_status(items: &Vec<TransferItemResult>, st: TransferStatus) -> (r: Vec<
    TransferItemResult,
>)
    ensures
        st is Failed ==> r@ == items@.filter(|t: TransferItemResult| t.status is Failed),
        st is Success ==> r@ == items@.filter(|t: TransferItemResult| t.status is Success),
        st is Skipped ==> r@ == items@.filter(|t: TransferItemResult| t.status is Skipped),
{
    let mut out: Vec<TransferItemResult> = Vec::new();
    let n = items.len();
    let mut i: usize = 0;
    proof {
        reveal(Seq::filter);
        assert(items@.take(0).filter(|t: TransferItemResult| t.status is Failed) =~= Seq::<
            TransferItemResult,
        >::empty());
        assert(items@.take(0).filter(|t: TransferItemResult| t.status is Success) =~= Seq::<
            TransferItemResult,
        >::empty());
        assert(items@.take(0).filter(|t: TransferItemResult| t.status is Skipped) =~= Seq::<
            TransferItemResult,
        >::empty());
    }
    while i < n
        invariant
            i <= n,
            n == items@.len(),
            st is Failed ==> out@ == items@.take(i as int).filter(
                |t: TransferItemResult| t.status is Failed,
            ),
            st is Success ==> out@ == items@.take(i as int).filter(
                |t: TransferItemResult| t.status is Success,
            ),
            st is Skipped ==> out@ == items@.take(i as int).filter(
                |t: TransferItemResult| t.status is Skipped,
            ),
        decreases n - i,
    {
        proof {
            reveal(Seq::filter);
            assert(items@.take(i + 1).drop_last() =~= items@.take(i as int));
            assert(items@.take(i + 1).last() == items@[i as int]);
        }
        let keep = match (st, items[i].status) {
            (TransferStatus::Failed, TransferStatus::Failed) => true,
            (TransferStatus::Success, TransferStatus::Success) => true,
            (TransferStatus::Skipped, TransferStatus::Skipped) => true,
            _ => false,
        };
        if keep {
            out.push(items[i].clone());
        }
        i += 1;
    }
    proof {
        assert(items@.take(n as int) =~= items@);
    }
    out
}


/// The lowercase wire name of one status.
pub open spec fn status_wire(st: TransferStatus) -> Seq<char> {
    match st {
        TransferStatus::Success => "success"@,
        TransferStatus::Skipped => "skipped"@,
        TransferStatus::Failed => "failed"@,
    }
}

/// The lowercase wire name of one operation.
pub open spec fn operation_wire(op: TransferOperation) -> Seq<char> {
    match op {
        TransferOperation::Copy => "copy"@,
        TransferOperation::Move => "move"@,
    }
}

/// "true" or "false".
pub open spec fn bool_wire(b: bool) -> Seq<char> {
    if b {
        "true"@
    } else {
        "false"@
    }
}

/// One item as its persisted object.
pub open spec fn spec_item_json(t: TransferItemResult) -> Seq<char> {
    "{\n      \"source\": \""@ + crate::json::escape(t.source@) + "\",\n      \"destination\": \""@
        + crate::json::escape(t.destination@) + "\",\n      \"is_directory\": "@ + bool_wire(
        t.is_directory,
    ) + ",\n      \"size_bytes\": "@ + dec_str(t.size_bytes as nat) + ",\n      \"status\": \""@ + status_wire(
        t.status,
    ) + "\""@ + (match t.reason {
        Some(r) => ",\n      \"reason\": \""@ + crate::json::escape(r@) + "\""@,
        None => Seq::<char>::empty(),
    }) + (match t.duration_ms {
        Some(d) => ",\n      \"duration_ms\": "@ + dec_str(d as nat),
        None => Seq::<char>::empty(),
    }) + "\n    }"@
}

/// The summary as its persisted object.
pub open spec fn spec_summary_json(s: TransferSummary) -> Seq<char> {
    "{\n    \"total_items\": "@ + dec_str(s.total_items as nat) + ",\n    \"succeeded\": "@ + dec_str(
        s.succeeded as nat,
    ) + ",\n    \"skipped\": "@ + dec_str(s.skipped as nat) + ",\n    \"failed\": "@ + dec_str(
        s.failed as nat,
    ) + ",\n    \"bytes_transferred\": "@ + dec_str(s.bytes_transferred as nat) + ",\n    \"duration_ms\": "@
        + dec_str(s.duration_ms as nat) + ",\n    \"directories_created\": "@ + dec_str(
        s.directories_created as nat,
    ) + ",\n    \"files_copied\": "@ + dec_str(s.files_copied as nat) + "\n  }"@
}

/// The whole report as its persisted document.
pub open spec fn spec_report_json(r: DetailedTransferReport) -> Seq<char> {
    "{\n  \"job_id\": "@ + dec_str(r.job_id.0 as nat) + ",\n  \"operation\": \""@ + operation_wire(
        r.operation,
    ) + "\",\n  \"started_at\": "@ + dec_str(r.started_at as nat) + ",\n  \"completed_at\": "@ + dec_str(
        r.completed_at as nat,
    ) + ",\n  \"was_cancelled\": "@ + bool_wire(r.was_cancelled) + ",\n  \"summary\": "@
        + spec_summary_json(r.summary) + ",\n  \"items\": ["@ + spec_items_block(r.items@)
}

/// The items array's body and the document's close: an empty array stays
/// on one line; otherwise each item sits indented on its own lines.
pub open spec fn spec_items_block(items: Seq<TransferItemResult>) -> Seq<char> {
    if items.len() == 0 {
        "]"@ + "\n}"@
    } else {
        "\n    "@ + crate::text::join_with(
            items.map_values(|t: TransferItemResult| spec_item_json(t)),
            ",\n    "@,
        ) + "\n  ]"@ + "\n}"@
    }
}

/// An identity marker used to steer quantifier instantiation.
pub open spec fn trig(i: int) -> int {
    i
}

/// Renders "true" or "false".
fn bool_string(b: bool) -> (r: &'static str)
    ensures
        r@ == bool_wire(b),
{
    if b {
        "true"
    } else {
        "false"
    }
}

/// Renders one item's persisted object.
fn item_json(t: &TransferItemResult) -> (r: String)
    ensures
        r@ == spec_item_json(*t),
{
    let mut out = "{\n      \"source\": \"".to_owned();
    let src = crate::json::escape_string(t.source.as_str());
    out.append(src.as_str());
    out.append("\",\n      \"destination\": \"");
    let dst = crate::json::escape_string(t.destination.as_str());
    out.append(dst.as_str());
    out.append("\",\n      \"is_directory\": ");
    out.append(bool_string(t.is_directory));
    out.append(",\n      \"size_bytes\": ");
    let sz = crate::text::u64_to_string(t.size_bytes);
    out.append(sz.as_str());
    out.append(",\n      \"status\": \"");
    match t.status {
        TransferStatus::Success => out.append("success"),
        TransferStatus::Skipped => out.append("skipped"),
        TransferStatus::Failed => out.append("failed"),
    }
    out.append("\"");
    match &t.reason {
        Some(reason) => {
            out.append(",\n      \"reason\": \"");
            let esc = crate::json::escape_string(reason.as_str());
            out.append(esc.as_str());
            out.append("\"");
        },
        None => {},
    }
    match t.duration_ms {
        Some(d) => {
            out.append(",\n      \"duration_ms\": ");
            let ds = crate::text::u64_to_string(d);
            out.append(ds.as_str());
        },
        None => {},
    }
    out.append("\n    }");
    proof {
        assert(out@ =~= spec_item_json(*t));
    }
    out
}

impl DetailedTransferReport {
    /// Export the report to its persisted document: the stable field
    /// names, the operation and statuses in lowercase, and every string
    /// escaped so that the text reads back character for character.
    #[verifier::rlimit(100)]
    pub fn to_json(&self) -> (r: String)
        ensures
            r@ == spec_report_json(*self),
    {
        let mut out = "{\n  \"job_id\": ".to_owned();
        let id = crate::text::u64_to_string(self.job_id.0);
        out.append(id.as_str());
        out.append(",\n  \"operation\": \"");
        match self.operation {
            TransferOperation::Copy => out.append("copy"),
            TransferOperation::Move => out.append("move"),
        }
        out.append("\",\n  \"started_at\": ");
        let st = crate::text::u64_to_string(self.started_at);
        out.append(st.as_str());
        out.append(",\n  \"completed_at\": ");
        let ct = crate::text::u64_to_string(self.completed_at);
        out.append(ct.as_str());
        out.append(",\n  \"was_cancelled\": ");
        out.append(bool_string(self.was_cancelled));
        out.append(",\n  \"summary\": ");
        out.append("{\n    \"total_items\": ");
        let v = crate::text::u64_to_string(self.summary.total_items as u64);
        out.append(v.as_str());
        out.append(",\n    \"succeeded\": ");
        let v = crate::text::u64_to_string(self.summary.succeeded as u64);
        out.append(v.as_str());
        out.append(",\n    \"skipped\": ");
        let v = crate::text::u64_to_string(self.summary.skipped as u64);
        out.append(v.as_str());
        out.append(",\n    \"failed\": ");
        let v = crate::text::u64_to_string(self.summary.failed as u64);
        out.append(v.as_str());
        out.append(",\n    \"bytes_transferred\": ");
        let v = crate::text::u64_to_string(self.summary.bytes_transferred);
        out.append(v.as_str());
        out.append(",\n    \"duration_ms\": ");
        let v = crate::text::u64_to_string(self.summary.duration_ms);
        out.append(v.as_str());
        out.append(",\n    \"directories_created\": ");
        let v = crate::text::u64_to_string(self.summary.directories_created as u64);
        out.append(v.as_str());
        out.append(",\n    \"files_copied\": ");
        let v = crate::text::u64_to_string(self.summary.files_copied as u64);
        out.append(v.as_str());
        out.append("\n  }");
        out.append(",\n  \"items\": [");
        let mut docs: Vec<String> = Vec::new();
        let n = self.items.len();
        let mut i: usize = 0;
        while i < n
            invariant
                i <= n,
                n == self.items@.len(),
                docs@.len() == i,
                forall|k: int|
                    0 <= k < i ==> (#[trigger] docs@[k])@ == spec_item_json(self.items@[k]),
            decreases n - i,
        {
            docs.push(item_json(&self.items[i]));
            i += 1;
        }
        if n == 0 {
            out.append("]");
            out.append("\n}");
            proof {
                assert(docs@.map_values(|s2: String| s2@) =~= Seq::<Seq<char>>::empty());
                assert(out@ =~= spec_report_json(*self));
            }
            return out;
        }
        out.append("\n    ");
        let joined = crate::text::join_strings(&docs, ",\n    ");
        out.append(joined.as_str());
        out.append("\n  ]");
        out.append("\n}");
        proof {
            reveal_strlit(",\n    ");
            assert forall|k: int|
                0 <= k < n implies docs@.map_values(|s2: String| s2@)[k]
                == self.items@.map_values(|t: TransferItemResult| spec_item_json(t))[#[trigger] trig(
                k,
            )] by {
                assert((docs@[k])@ == spec_item_json(self.items@[k]));
            }
            assert(docs@.map_values(|s2: String| s2@) =~= self.items@.map_values(
                |t: TransferItemResult| spec_item_json(t),
            ));
            assert(joined@ == crate::text::join_with(
                self.items@.map_values(|t: TransferItemResult| spec_item_json(t)),
                ",\n    "@,
            ));
            assert(out@ =~= spec_report_json(*self));
        }
        out
    }
}

/// The name a persisted report takes: the lowercase operation and the
/// start stamp in milliseconds.
pub open spec fn spec_report_filename(op: TransferOperation, started_at: u64) -> Seq<char> {
    operation_wire(op) + "_"@ + dec_str(started_at as nat) + ".json"@
}

/// Build the file name a report persists under.
pub fn report_filename(op: TransferOperation, started_at: u64) -> (r: String)
    ensures
        r@ == spec_report_filename(op, started_at),
{
    let mut out = match op {
        TransferOperation::Copy => "copy".to_owned(),
        TransferOperation::Move => "move".to_owned(),
    };
    out.append("_");
    let stamp = crate::text::u64_to_string(started_at);
    out.append(stamp.as_str());
    out.append(".json");
    proof {
        assert(out@ =~= spec_report_filename(op, started_at));
    }
    out
}

} // verus!
