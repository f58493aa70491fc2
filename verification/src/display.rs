//! Pure display helpers behind the terminal front end: pane and sidebar
//! selectors, size/speed/time formatting, truncation, and the conflict
//! prompt's choices.

use vstd::prelude::*;
use crate::text::{dec_str, pad2, scaled1, scaled2};
use crate::entry::{GB, KB, MB, TB};

verus! {

/// Pane identifier.
#[derive(Debug, Clone, Copy, PartialEq, Eq, Structural)]
pub enum Pane {
    Left,
    Right,
}

impl Default for Pane {
    fn default() -> (r: Pane)
        ensures
            r is Left,
    {
        Pane::Left
    }
}

impl Pane {
    /// Toggle to the other pane.
    pub fn toggle(&self) -> (r: Pane)
        ensures
            self is Left ==> r is Right,
            self is Right ==> r is Left,
    {
        match self {
            Pane::Left => Pane::Right,
            Pane::Right => Pane::Left,
        }
    }
}

/// Which section of the sidebar is focused.
#[derive(Debug, Clone, Copy, PartialEq, Eq, Structural)]
pub enum SidebarSection {
    Favorites,
    Drives,
}

impl Default for SidebarSection {
    fn default() -> (r: SidebarSection)
        ensures
            r is Favorites,
    {
        SidebarSection::Favorites
    }
}

impl SidebarSection {
    /// Toggle between sections.
    pub fn toggle(&self) -> (r: SidebarSection)
        ensures
            self is Favorites ==> r is Drives,
            self is Drives ==> r is Favorites,
    {
        match self {
            SidebarSection::Favorites => SidebarSection::Drives,
            SidebarSection::Drives => SidebarSection::Favorites,
        }
    }
}

/// What the sidebar's `format_size` renders: one decimal place at every
/// binary unit.
pub open spec fn spec_sidebar_size(bytes: u64) -> Seq<char> {
    if bytes >= TB {
        scaled1(bytes as nat, TB as nat) + " TB"@
    } else if bytes >= GB {
        scaled1(bytes as nat, GB as nat) + " GB"@
    } else if bytes >= MB {
        scaled1(bytes as nat, MB as nat) + " MB"@
    } else if bytes >= KB {
        scaled1(bytes as nat, KB as nat) + " KB"@
    } else {
        dec_str(bytes as nat) + " B"@
    }
}

/// Format a size for the sidebar's free-space note.
pub fn format_size(bytes: u64) -> (r: String)
    ensures
        r@ == spec_sidebar_size(bytes),
{
    if bytes >= TB {
        let mut s = crate::text::scaled1_string(bytes, TB);
        s.append(" TB");
        proof {
            assert(s@ =~= spec_sidebar_size(bytes));
        }
        s
    } else if bytes >= GB {
        let mut s = crate::text::scaled1_string(bytes, GB);
        s.append(" GB");
        proof {
            assert(s@ =~= spec_sidebar_size(bytes));
        }
        s
    } else if bytes >= MB {
        let mut s = crate::text::scaled1_string(bytes, MB);
        s.append(" MB");
        proof {
            assert(s@ =~= spec_sidebar_size(bytes));
        }
        s
    } else if bytes >= KB {
        let mut s = crate::text::scaled1_string(bytes, KB);
        s.append(" KB");
        proof {
            assert(s@ =~= spec_sidebar_size(bytes));
        }
        s
    } else {
        let mut s = crate::text::u64_to_string(bytes);
        s.append(" B");
        proof {
            assert(s@ =~= spec_sidebar_size(bytes));
        }
        s
    }
}

/// Status bar showing current state information; rendering is the front
/// end's part.
#[derive(Debug, Clone)]
pub struct StatusBar {
    /// Number of entries in current directory.
    pub entry_count: usize,
    /// Number of selected entries.
    pub selected_count: usize,
    /// Total size of selected entries.
    pub selected_size: u64,
    /// Optional status message.
    pub message: Option<String>,
    /// Whether a job is in progress.
    pub job_in_progress: bool,
}

/// What the status bar's `format_size` renders: two decimal places from
/// megabytes up, one for kilobytes.
pub open spec fn spec_status_size(size: u64) -> Seq<char> {
    if size >= GB {
        scaled2(size as nat, GB as nat) + " GB"@
    } else if size >= MB {
        scaled2(size as nat, MB as nat) + " MB"@
    } else if size >= KB {
        scaled1(size as nat, KB as nat) + " KB"@
    } else {
        dec_str(size as nat) + " B"@
    }
}

impl StatusBar {
    /// Create a new status bar.
    pub fn new(entry_count: usize, selected_count: usize, selected_size: u64) -> (r: StatusBar)
        ensures
            r.entry_count == entry_count,
            r.selected_count == selected_count,
            r.selected_size == selected_size,
            r.message is None,
            !r.job_in_progress,
    {
        StatusBar { entry_count, selected_count, selected_size, message: None, job_in_progress: false }
    }

    /// Set a status message.
    pub fn message(self, msg: String) -> (r: StatusBar)
        ensures
            r == (StatusBar { message: Some(msg), ..self }),
    {
        StatusBar { message: Some(msg), ..self }
    }

    /// Set the job-in-progress flag.
    pub fn job_in_progress(self, in_progress: bool) -> (r: StatusBar)
        ensures
            r == (StatusBar { job_in_progress: in_progress, ..self }),
    {
        StatusBar { job_in_progress: in_progress, ..self }
    }

    /// Format a file size for the status bar.
    pub fn format_size(size: u64) -> (r: String)
        ensures
            r@ == spec_status_size(size),
    {
        if size >= GB {
            let mut s = crate::text::scaled2_string(size, GB);
            s.append(" GB");
            proof {
                assert(s@ =~= spec_status_size(size));
            }
            s
        } else if size >= MB {
            let mut s = crate::text::scaled2_string(size, MB);
            s.append(" MB");
            proof {
                assert(s@ =~= spec_status_size(size));
            }
            s
        } else if size >= KB {
            let mut s = crate::text::scaled1_string(size, KB);
            s.append(" KB");
            proof {
                assert(s@ =~= spec_status_size(size));
            }
            s
        } else {
            let mut s = crate::text::u64_to_string(size);
            s.append(" B");
            proof {
                assert(s@ =~= spec_status_size(size));
            }
            s
        }
    }
}

/// What the transfer panel's `format_speed` renders: one decimal place per
/// binary unit, plain below a kilobyte.
pub open spec fn spec_transfer_speed(bytes_per_sec: u64) -> Seq<char> {
    if bytes_per_sec >= GB {
        scaled1(bytes_per_sec as nat, GB as nat) + " GB/s"@
    } else if bytes_per_sec >= MB {
        scaled1(bytes_per_sec as nat, MB as nat) + " MB/s"@
    } else if bytes_per_sec >= KB {
        scaled1(bytes_per_sec as nat, KB as nat) + " KB/s"@
    } else {
        dec_str(bytes_per_sec as nat) + " B/s"@
    }
}

/// Format a transfer speed for the transfers panel.
pub fn format_speed(bytes_per_sec: u64) -> (r: String)
    ensures
        r@ == spec_transfer_speed(bytes_per_sec),
{
    if bytes_per_sec >= GB {
        let mut s = crate::text::scaled1_string(bytes_per_sec, GB);
        s.append(" GB/s");
        proof {
            assert(s@ =~= spec_transfer_speed(bytes_per_sec));
        }
        s
    } else if bytes_per_sec >= MB {
        let mut s = crate::text::scaled1_string(bytes_per_sec, MB);
        s.append(" MB/s");
        proof {
            assert(s@ =~= spec_transfer_speed(bytes_per_sec));
        }
        s
    } else if bytes_per_sec >= KB {
        let mut s = crate::text::scaled1_string(bytes_per_sec, KB);
        s.append(" KB/s");
        proof {
            assert(s@ =~= spec_transfer_speed(bytes_per_sec));
        }
        s
    } else {
        let mut s = crate::text::u64_to_string(bytes_per_sec);
        s.append(" B/s");
        proof {
            assert(s@ =~= spec_transfer_speed(bytes_per_sec));
        }
        s
    }
}

/// What `format_eta` renders: "Nh MMm", "Nm SSs" or "Ns", with the minor
/// field zero padded.
pub open spec fn spec_format_eta(secs: u64) -> Seq<char> {
    if secs >= 3600 {
        dec_str((secs / 3600) as nat) + "h "@ + pad2(((secs % 3600) / 60) as nat) + "m"@
    } else if secs >= 60 {
        dec_str((secs / 60) as nat) + "m "@ + pad2((secs % 60) as nat) + "s"@
    } else {
        dec_str(secs as nat) + "s"@
    }
}

/// Format an estimated remaining time for the transfers panel.
pub fn format_eta(secs: u64) -> (r: String)
    ensures
        r@ == spec_format_eta(secs),
{
    if secs >= 3600 {
        let hours = secs / 3600;
        let mins = (secs % 3600) / 60;
        let mut s = crate::text::u64_to_string(hours);
        s.append("h ");
        let ms = crate::text::u64_to_string_2(mins);
        s.append(ms.as_str());
        s.append("m");
        proof {
            assert(s@ =~= spec_format_eta(secs));
        }
        s
    } else if secs >= 60 {
        let mins = secs / 60;
        let rem = secs % 60;
        let mut s = crate::text::u64_to_string(mins);
        s.append("m ");
        let rs = crate::text::u64_to_string_2(rem);
        s.append(rs.as_str());
        s.append("s");
        proof {
            assert(s@ =~= spec_format_eta(secs));
        }
        s
    } else {
        let mut s = crate::text::u64_to_string(secs);
        s.append("s");
        proof {
            assert(s@ =~= spec_format_eta(secs));
        }
        s
    }
}

/// What `truncate_string` renders: the string itself when it fits, else
/// its head with a continuation mark.
pub open spec fn spec_truncate_string(s: Seq<char>, max_len: int) -> Seq<char> {
    if s.len() <= max_len {
        s
    } else if max_len >= 1 {
        s.subrange(0, max_len - 1) + seq!['…']
    } else {
        s.subrange(0, 0) + seq!['…']
    }
}

/// Shortens a string to at most `max_len` characters, marking the cut.
pub fn truncate_string(s: &str, max_len: usize) -> (r: String)
    ensures
        r@ == spec_truncate_string(s@, max_len as int),
{
    let len = s.unicode_len();
    if len <= max_len {
        s.to_owned()
    } else if max_len >= 1 {
        let mut out = s.substring_char(0, max_len - 1).to_owned();
        out.append("…");
        proof {
            reveal_strlit("…");
            assert(out@ =~= spec_truncate_string(s@, max_len as int));
        }
        out
    } else {
        let mut out = s.substring_char(0, 0).to_owned();
        out.append("…");
        proof {
            reveal_strlit("…");
            assert(out@ =~= spec_truncate_string(s@, max_len as int));
        }
        out
    }
}

/// What `truncate_path` renders: the path itself when it fits, a bare
/// ellipsis when almost nothing fits, else an ellipsis and the path's
/// tail.
pub open spec fn spec_truncate_path(path: Seq<char>, max_width: int) -> Seq<char> {
    if path.len() <= max_width {
        path
    } else if max_width <= 5 {
        "..."@
    } else {
        "..."@ + path.subrange(path.len() - (max_width - 3), path.len() as int)
    }
}

/// Shortens a path from the front, keeping its most telling tail.
pub fn truncate_path(path: &str, max_width: usize) -> (r: String)
    ensures
        r@ == spec_truncate_path(path@, max_width as int),
{
    let len = path.unicode_len();
    if len <= max_width {
        path.to_owned()
    } else if max_width <= 5 {
        "...".to_owned()
    } else {
        let tail = path.substring_char(len - (max_width - 3), len);
        let mut out = "...".to_owned();
        out.append(tail);
        proof {
            assert(out@ =~= spec_truncate_path(path@, max_width as int));
        }
        out
    }
}

/// What `format_bytes_with_commas` renders: decimal digits grouped by
/// thousands.
pub open spec fn with_commas(s: Seq<char>) -> Seq<char>
    decreases s.len(),
{
    if s.len() <= 3 {
        s
    } else {
        with_commas(s.take(s.len() - 3)) + seq![','] + s.skip(s.len() - 3)
    }
}

/// Format a byte count with thousands separators.
pub fn format_bytes_with_commas(bytes: u64) -> (r: String)
    ensures
        r@ == with_commas(dec_str(bytes as nat)),
{
    let digits = crate::text::u64_to_string(bytes);
    group_digits(digits.as_str())
}

/// Inserts a comma before every trailing group of three characters.
fn group_digits(s: &str) -> (r: String)
    ensures
        r@ == with_commas(s@),
    decreases s@.len(),
{
    let len = s.unicode_len();
    if len <= 3 {
        s.to_owned()
    } else {
        let head = s.substring_char(0, len - 3);
        let tail = s.substring_char(len - 3, len);
        proof {
            assert(head@ =~= s@.take(s@.len() - 3));
            assert(tail@ =~= s@.skip(s@.len() - 3));
        }
        let mut out = group_digits(head);
        out.append(",");
        out.append(tail);
        proof {
            reveal_strlit(",");
            assert(","@ =~= seq![',']);
            assert(out@ =~= with_commas(s@));
        }
        out
    }
}

/// Transfer status indicator for the status bar.
#[derive(Debug, Clone, PartialEq, Eq, Structural)]
pub struct TransferStatus {
    pub active_count: usize,
    pub completed_count: usize,
    pub failed_count: usize,
}

impl TransferStatus {
    /// Create a transfer status summary.
    pub fn new(active: usize, completed: usize, failed: usize) -> (r: TransferStatus)
        ensures
            r.active_count == active,
            r.completed_count == completed,
            r.failed_count == failed,
    {
        TransferStatus { active_count: active, completed_count: completed, failed_count: failed }
    }

    /// What `format` renders: nothing when idle, else the non-zero counts
    /// marked and bracketed.
    pub open spec fn spec_format(&self) -> Seq<char> {
        if self.active_count == 0 && self.completed_count == 0 && self.failed_count == 0 {
            Seq::<char>::empty()
        } else {
            " ["@ + self.spec_parts() + "]"@
        }
    }

    /// The joined non-zero parts.
    pub open spec fn spec_parts(&self) -> Seq<char> {
        let a: Seq<Seq<char>> = if self.active_count > 0 {
            seq![dec_str(self.active_count as nat) + "▶"@]
        } else {
            seq![]
        };
        let b: Seq<Seq<char>> = if self.completed_count > 0 {
            seq![dec_str(self.completed_count as nat) + "✓"@]
        } else {
            seq![]
        };
        let c: Seq<Seq<char>> = if self.failed_count > 0 {
            seq![dec_str(self.failed_count as nat) + "✗"@]
        } else {
            seq![]
        };
        join_sp(a + b + c)
    }

    /// Format for status bar display.
    pub fn format(&self) -> (r: String)
        ensures
            r@ == self.spec_format(),
    {
        if self.active_count == 0 && self.completed_count == 0 && self.failed_count == 0 {
            proof {
                reveal_strlit("");
                assert(""@ =~= Seq::<char>::empty());
            }
            return "".to_owned();
        }
        let mut parts: Vec<String> = Vec::new();
        let ghost mut expect: Seq<Seq<char>> = seq![];
        if self.active_count > 0 {
            let mut p = crate::text::u64_to_string(self.active_count as u64);
            p.append("▶");
            parts.push(p);
            proof {
                reveal_strlit("▶");
                expect = expect + seq![dec_str(self.active_count as nat) + "▶"@];
            }
        }
        if self.completed_count > 0 {
            let mut p = crate::text::u64_to_string(self.completed_count as u64);
            p.append("✓");
            parts.push(p);
            proof {
                reveal_strlit("✓");
                expect = expect + seq![dec_str(self.completed_count as nat) + "✓"@];
            }
        }
        if self.failed_count > 0 {
            let mut p = crate::text::u64_to_string(self.failed_count as u64);
            p.append("✗");
            parts.push(p);
            proof {
                reveal_strlit("✗");
                expect = expect + seq![dec_str(self.failed_count as nat) + "✗"@];
            }
        }
        proof {
            assert(parts@.map_values(|s: String| s@) =~= expect);
            let a: Seq<Seq<char>> = if self.active_count > 0 {
                seq![dec_str(self.active_count as nat) + "▶"@]
            } else {
                seq![]
            };
            let b: Seq<Seq<char>> = if self.completed_count > 0 {
                seq![dec_str(self.completed_count as nat) + "✓"@]
            } else {
                seq![]
            };
            let c: Seq<Seq<char>> = if self.failed_count > 0 {
                seq![dec_str(self.failed_count as nat) + "✗"@]
            } else {
                seq![]
            };
            assert(expect =~= a + b + c);
        }
        let joined = join_space(&parts);
        let mut out = " [".to_owned();
        out.append(joined.as_str());
        out.append("]");
        proof {
            assert(out@ =~= self.spec_format());
        }
        out
    }
}

/// Joining with single spaces, at spec level.
pub open spec fn join_sp(parts: Seq<Seq<char>>) -> Seq<char>
    decreases parts.len(),
{
    if parts.len() == 0 {
        Seq::<char>::empty()
    } else if parts.len() == 1 {
        parts[0]
    } else {
        join_sp(parts.drop_last()) + seq![' '] + parts.last()
    }
}

/// Joins strings with single spaces.
fn join_space(parts: &Vec<String>) -> (r: String)
    ensures
        r@ == join_sp(parts@.map_values(|s: String| s@)),
{
    let mut out = String::new();
    let n = parts.len();
    let mut i: usize = 0;
    while i < n
        invariant
            i <= n,
            n == parts@.len(),
            out@ == join_sp(parts@.map_values(|s: String| s@).take(i as int)),
        decreases n - i,
    {
        if i > 0 {
            out.append(" ");
        }
        out.append(parts[i].as_str());
        proof {
            reveal_strlit(" ");
            let views = parts@.map_values(|s: String| s@);
            assert(views.take(i + 1).drop_last() =~= views.take(i as int));
            assert(views.take(i + 1).last() == views[i as int]);
            if i > 0 {
                assert(out@ =~= join_sp(views.take(i + 1)));
            } else {
                assert(views.take(1int).len() == 1);
                assert(out@ =~= join_sp(views.take(1int)));
            }
        }
        i += 1;
    }
    proof {
        assert(parts@.map_values(|s: String| s@).take(n as int) =~= parts@.map_values(
            |s: String| s@,
        ));
    }
    out
}

/// Conflict resolution options offered by the conflict prompt.
#[derive(Debug, Clone, Copy, PartialEq, Eq, Structural)]
pub enum ConflictResolution {
    /// Overwrite the destination.
    Overwrite,
    /// Skip this file.
    Skip,
    /// Rename the source file.
    Rename,
    /// Keep the larger file.
    KeepLarger,
    /// Keep the newer file.
    KeepNewer,
    /// Cancel the entire operation.
    Cancel,
}

impl ConflictResolution {
    /// Get the hotkey for this resolution.
    pub fn hotkey(&self) -> (r: char)
        ensures
            self is Overwrite ==> r == 'o',
            self is Skip ==> r == 's',
            self is Rename ==> r == 'r',
            self is KeepLarger ==> r == 'l',
            self is KeepNewer ==> r == 'n',
            self is Cancel ==> r == 'c',
    {
        match self {
            ConflictResolution::Overwrite => 'o',
            ConflictResolution::Skip => 's',
            ConflictResolution::Rename => 'r',
            ConflictResolution::KeepLarger => 'l',
            ConflictResolution::KeepNewer => 'n',
            ConflictResolution::Cancel => 'c',
        }
    }

    /// What `label` renders for each choice.
    pub open spec fn spec_label(&self) -> Seq<char> {
        match *self {
            ConflictResolution::Overwrite => "Overwrite"@,
            ConflictResolution::Skip => "Skip"@,
            ConflictResolution::Rename => "Rename"@,
            ConflictResolution::KeepLarger => "Keep Larger"@,
            ConflictResolution::KeepNewer => "Keep Newer"@,
            ConflictResolution::Cancel => "Cancel All"@,
        }
    }

    /// Get the label for this resolution.
    pub fn label(&self) -> (r: &'static str)
        ensures
            r@ == self.spec_label(),
    {
        match self {
            ConflictResolution::Overwrite => "Overwrite",
            ConflictResolution::Skip => "Skip",
            ConflictResolution::Rename => "Rename",
            ConflictResolution::KeepLarger => "Keep Larger",
            ConflictResolution::KeepNewer => "Keep Newer",
            ConflictResolution::Cancel => "Cancel All",
        }
    }

    /// Get all resolution options, in prompt order.
    pub fn all() -> (r: Vec<ConflictResolution>)
        ensures
            r@ == seq![
                ConflictResolution::Overwrite,
                ConflictResolution::Skip,
                ConflictResolution::Rename,
                ConflictResolution::KeepLarger,
                ConflictResolution::KeepNewer,
                ConflictResolution::Cancel,
            ],
    {
        let mut v: Vec<ConflictResolution> = Vec::new();
        v.push(ConflictResolution::Overwrite);
        v.push(ConflictResolution::Skip);
        v.push(ConflictResolution::Rename);
        v.push(ConflictResolution::KeepLarger);
        v.push(ConflictResolution::KeepNewer);
        v.push(ConflictResolution::Cancel);
        proof {
            assert(v@ =~= seq![
                ConflictResolution::Overwrite,
                ConflictResolution::Skip,
                ConflictResolution::Rename,
                ConflictResolution::KeepLarger,
                ConflictResolution::KeepNewer,
                ConflictResolution::Cancel,
            ]);
        }
        v
    }
}

/// A crash dump left behind by an earlier run.
#[derive(Debug, Clone, PartialEq)]
pub struct CrashDump {
    /// Path to the crash dump file.
    pub path: String,
    /// Timestamp when the crash occurred.
    pub timestamp: String,
    /// Panic message.
    pub message: String,
    /// Backtrace if available.
    pub backtrace: String,
    /// Location where the panic occurred.
    pub location: String,
}

impl CrashDump {
    /// What `summary` renders.
    pub open spec fn spec_summary(&self) -> Seq<char> {
        "Crash at "@ + self.timestamp@ + ": "@ + self.message@ + " ("@ + self.location@ + ")"@
    }

    /// Get a short summary of the crash.
    pub fn summary(&self) -> (r: String)
        ensures
            r@ == self.spec_summary(),
    {
        let mut s = "Crash at ".to_owned();
        s.append(self.timestamp.as_str());
        s.append(": ");
        s.append(self.message.as_str());
        s.append(" (");
        s.append(self.location.as_str());
        s.append(")");
        proof {
            assert(s@ =~= self.spec_summary());
        }
        s
    }
}

} // verus!
