//! The folder transfer's decision core: per-item outcomes, the running
//! report, what a conflict resolution means for one file, and the order
//! sources are deleted in after a move. The file operations themselves and
//! the event loop around them are the caller's part.

use vstd::prelude::*;
use crate::conflict::ConflictResolution;
use crate::ordering::{
    insert_le, lemma_insert_le_at, lemma_sorted_le_measure, lemma_sort_le_multiset,
    lemma_sort_le_sorted, sort_le, sorted_le, sum_by,
};
use crate::plan::TransferItem;
use crate::text::lex_le;

verus! {

/// Result for a single item transfer.
#[derive(Debug, PartialEq)]
pub enum ItemResult {
    /// Item transferred successfully.
    Success { source: String, destination: String, bytes: u64 },
    /// Item was skipped (e.g., conflict policy).
    Skipped { source: String, destination: String, reason: String },
    /// Item transfer failed.
    Failed { source: String, destination: String, error: String },
}

impl Clone for ItemResult {
    /// A result clones field by field, to an equal value.
    fn clone(&self) -> (r: ItemResult)
        ensures
            r == *self,
    {
        match self {
            ItemResult::Success { source, destination, bytes } => ItemResult::Success {
                source: source.clone(),
                destination: destination.clone(),
                bytes: *bytes,
            },
            ItemResult::Skipped { source, destination, reason } => ItemResult::Skipped {
                source: source.clone(),
                destination: destination.clone(),
                reason: reason.clone(),
            },
            ItemResult::Failed { source, destination, error } => ItemResult::Failed {
                source: source.clone(),
                destination: destination.clone(),
                error: error.clone(),
            },
        }
    }
}

impl ItemResult {
    /// Check if this result is a success.
    pub fn is_success(&self) -> (r: bool)
        ensures
            r == (self is Success),
    {
        matches!(self, ItemResult::Success { .. })
    }

    /// Check if this result is a failure.
    pub fn is_failed(&self) -> (r: bool)
        ensures
            r == (self is Failed),
    {
        matches!(self, ItemResult::Failed { .. })
    }

    /// The source path of this result.
    pub open spec fn spec_source(&self) -> Seq<char> {
        match *self {
            ItemResult::Success { source, .. } => source@,
            ItemResult::Skipped { source, .. } => source@,
            ItemResult::Failed { source, .. } => source@,
        }
    }

    /// Get the source path.
    pub fn source(&self) -> (r: &String)
        ensures
            r@ == self.spec_source(),
    {
        match self {
            ItemResult::Success { source, .. } => source,
            ItemResult::Skipped { source, .. } => source,
            ItemResult::Failed { source, .. } => source,
        }
    }

    /// The bytes a successful result carried.
    pub open spec fn spec_bytes(&self) -> int {
        match *self {
            ItemResult::Success { bytes, .. } => bytes as int,
            _ => 0,
        }
    }
}

/// Counts a successful result as one.
pub open spec fn outcome_success() -> spec_fn(ItemResult) -> int {
    |t: ItemResult|
        if t is Success {
            1int
        } else {
            0int
        }
}

/// Counts a skipped result as one.
pub open spec fn outcome_skipped() -> spec_fn(ItemResult) -> int {
    |t: ItemResult|
        if t is Skipped {
            1int
        } else {
            0int
        }
}

/// Counts a failed result as one.
pub open spec fn outcome_failed() -> spec_fn(ItemResult) -> int {
    |t: ItemResult|
        if t is Failed {
            1int
        } else {
            0int
        }
}

/// Weighs a successful result by its bytes.
pub open spec fn outcome_bytes() -> spec_fn(ItemResult) -> int {
    |t: ItemResult| t.spec_bytes()
}

/// Aggregated results from a folder transfer.
#[derive(Debug, Clone)]
pub struct TransferReport {
    /// Individual item results.
    pub items: Vec<ItemResult>,
    /// Total bytes transferred.
    pub bytes_transferred: u64,
    /// Number of successful transfers.
    pub succeeded: usize,
    /// Number of skipped items.
    pub skipped: usize,
    /// Number of failed items.
    pub failed: usize,
    /// Total duration in milliseconds.
    pub duration_ms: u64,
}

impl TransferReport {
    /// Every item counted once: the three counters partition the items,
    /// and the bytes sum the successes.
    pub open spec fn wf(&self) -> bool {
        &&& self.succeeded as int == sum_by(self.items@, outcome_success())
        &&& self.skipped as int == sum_by(self.items@, outcome_skipped())
        &&& self.failed as int == sum_by(self.items@, outcome_failed())
        &&& self.succeeded + self.skipped + self.failed == self.items@.len()
        &&& self.bytes_transferred as int == sum_by(self.items@, outcome_bytes())
    }

    /// An empty report.
    pub fn new() -> (r: TransferReport)
        ensures
            r.wf(),
            r.items@.len() == 0,
            r.duration_ms == 0,
    {
        TransferReport {
            items: Vec::new(),
            bytes_transferred: 0,
            succeeded: 0,
            skipped: 0,
            failed: 0,
            duration_ms: 0,
        }
    }

    /// Record one item's outcome; the counters follow it.
    pub fn record(&mut self, result: ItemResult)
        requires
            old(self).wf(),
            old(self).items@.len() < usize::MAX,
            sum_by(old(self).items@, outcome_bytes()) + result.spec_bytes() <= u64::MAX,
        ensures
            final(self).wf(),
            final(self).items@ == old(self).items@.push(result),
            final(self).duration_ms == old(self).duration_ms,
    {
        proof {
            crate::ordering::lemma_sum_by_push(self.items@, result, outcome_success());
            crate::ordering::lemma_sum_by_push(self.items@, result, outcome_skipped());
            crate::ordering::lemma_sum_by_push(self.items@, result, outcome_failed());
            crate::ordering::lemma_sum_by_push(self.items@, result, outcome_bytes());
        }
        match &result {
            ItemResult::Success { bytes, .. } => {
                self.succeeded = self.succeeded + 1;
                self.bytes_transferred = self.bytes_transferred + *bytes;
            },
            ItemResult::Skipped { .. } => {
                self.skipped = self.skipped + 1;
            },
            ItemResult::Failed { .. } => {
                self.failed = self.failed + 1;
            },
        }
        self.items.push(result);
    }

    /// Check if the transfer completed without any failures.
    pub fn is_complete_success(&self) -> (r: bool)
        ensures
            r == (self.failed == 0),
    {
        self.failed == 0
    }

    /// Check if any items were transferred.
    pub fn has_transfers(&self) -> (r: bool)
        ensures
            r == (self.succeeded > 0),
    {
        self.succeeded > 0
    }

    /// Average transfer speed in bytes per second: whole-second rate past
    /// a second, a millisecond-scaled rate below, the raw byte count when
    /// no time passed; capped at the largest representable speed.
    pub fn average_speed(&self) -> (r: u64)
        ensures
            self.duration_ms == 0 ==> r == self.bytes_transferred,
            self.duration_ms >= 1000 ==> r as int == self.bytes_transferred as int / (
            self.duration_ms as int / 1000),
            0 < self.duration_ms < 1000 ==> r as int == crate::report::spec_min_int(
                (self.bytes_transferred as int) * 1000 / (self.duration_ms as int),
                u64::MAX as int,
            ),
    {
        if self.duration_ms >= 1000 {
            self.bytes_transferred / (self.duration_ms / 1000)
        } else if self.duration_ms > 0 {
            let q: u128 = ((self.bytes_transferred as u128) * 1000) / (self.duration_ms as u128);
            if q > u64::MAX as u128 {
                u64::MAX
            } else {
                q as u64
            }
        } else {
            self.bytes_transferred
        }
    }
}

/// Configuration for folder transfers.
#[derive(Debug, Clone, Copy, PartialEq, Eq, Structural)]
pub struct FolderTransferConfig {
    /// Maximum concurrent file copies.
    pub concurrency: usize,
    /// Whether to continue on individual file errors.
    pub continue_on_error: bool,
    /// Whether to delete the source after a successful move.
    pub delete_source_on_move: bool,
    /// Progress update interval in bytes.
    pub progress_interval_bytes: u64,
}

impl Default for FolderTransferConfig {
    fn default() -> (r: FolderTransferConfig)
        ensures
            r.concurrency == 2,
            r.continue_on_error,
            r.delete_source_on_move,
            r.progress_interval_bytes == 1048576,
    {
        FolderTransferConfig {
            concurrency: 2,
            continue_on_error: true,
            delete_source_on_move: true,
            progress_interval_bytes: 1048576,
        }
    }
}

/// What the executor does with one planned item, given the resolver's
/// answer.
#[derive(Debug, Clone, PartialEq)]
pub enum FileAction {
    /// Copy the file, overwriting when asked to.
    Proceed { overwrite: bool },
    /// Record the item as skipped.
    SkipItem { reason: String },
    /// Copy to a freshly generated name instead.
    RenameItem,
    /// Abort the whole transfer.
    Abort,
    /// Surface the conflict and record the item as awaiting the user.
    AwaitUser,
}

/// Decide what to do with one file: without a conflict it is copied
/// plainly; a resolution maps to its action; no resolution asks the user.
pub fn decide_file_action(has_conflict: bool, resolution: Option<ConflictResolution>) -> (r:
    FileAction)
    ensures
        !has_conflict ==> r == (FileAction::Proceed { overwrite: false }),
        has_conflict && resolution == Some(ConflictResolution::Skip) ==> (r matches
            FileAction::SkipItem { .. }),
        has_conflict && resolution == Some(ConflictResolution::Overwrite) ==> r == (
        FileAction::Proceed { overwrite: true }),
        has_conflict && resolution == Some(ConflictResolution::Rename) ==> r
            == FileAction::RenameItem,
        has_conflict && resolution == Some(ConflictResolution::Cancel) ==> r == FileAction::Abort,
        has_conflict && resolution is None ==> r == FileAction::AwaitUser,
{
    if !has_conflict {
        return FileAction::Proceed { overwrite: false };
    }
    match resolution {
        Some(ConflictResolution::Skip) => FileAction::SkipItem {
            reason: "Skipped due to conflict".to_owned(),
        },
        Some(ConflictResolution::Overwrite) => FileAction::Proceed { overwrite: true },
        Some(ConflictResolution::Rename) => FileAction::RenameItem,
        Some(ConflictResolution::Cancel) => FileAction::Abort,
        None => FileAction::AwaitUser,
    }
}

/// What the executor does with one planned directory, given the state of
/// its destination and the resolver's answer: an existing directory means
/// a merge, an existing file falls to the conflict policy.
pub fn decide_dir_action(
    dest_exists: bool,
    dest_is_dir: bool,
    resolution: Option<ConflictResolution>,
) -> (r: FileAction)
    ensures
        !dest_exists ==> r == (FileAction::Proceed { overwrite: false }),
        dest_exists && dest_is_dir ==> (r matches FileAction::SkipItem { .. }),
        dest_exists && !dest_is_dir && resolution == Some(ConflictResolution::Skip) ==> (r matches
            FileAction::SkipItem { .. }),
        dest_exists && !dest_is_dir && resolution == Some(ConflictResolution::Overwrite) ==> r == (
        FileAction::Proceed { overwrite: true }),
        dest_exists && !dest_is_dir && resolution != Some(ConflictResolution::Skip) && resolution
            != Some(ConflictResolution::Overwrite) ==> r == FileAction::Abort,
{
    if !dest_exists {
        return FileAction::Proceed { overwrite: false };
    }
    if dest_is_dir {
        return FileAction::SkipItem { reason: "Directory already exists".to_owned() };
    }
    match resolution {
        Some(ConflictResolution::Skip) => FileAction::SkipItem {
            reason: "Skipped due to conflict".to_owned(),
        },
        Some(ConflictResolution::Overwrite) => FileAction::Proceed { overwrite: true },
        _ => FileAction::Abort,
    }
}

/// The deletion order after a move: files first, then directories deepest
/// first, so children leave before their parents.
pub open spec fn delete_le(a: TransferItem, b: TransferItem) -> bool {
    if a.is_dir != b.is_dir {
        !a.is_dir
    } else if a.is_dir {
        a.depth >= b.depth
    } else {
        lex_le(a.source@, b.source@)
    }
}

/// The deletion order as a comparator value.
pub open spec fn delete_le_fn() -> spec_fn(TransferItem, TransferItem) -> bool {
    |a: TransferItem, b: TransferItem| delete_le(a, b)
}

/// In deletion order, every file precedes every directory, and directory
/// depth never increases: children are deleted before their parents.
pub proof fn lemma_delete_order(s: Seq<TransferItem>)
    requires
        sorted_le(s, delete_le_fn()),
    ensures
        forall|i: int, j: int|
            0 <= i <= j < s.len() && (#[trigger] s[i]).is_dir ==> (#[trigger] s[j]).is_dir,
        forall|i: int, j: int|
            0 <= i <= j < s.len() && (#[trigger] s[i]).is_dir && (#[trigger] s[j]).is_dir
                ==> s[i].depth >= s[j].depth,
{
    let kind_rank = |a: TransferItem|
        if a.is_dir {
            1int
        } else {
            0int
        };
    let depth_rank = |a: TransferItem|
        if a.is_dir {
            0int - a.depth as int
        } else {
            0int - (usize::MAX as int) - 1
        };
    assert forall|a: TransferItem, b: TransferItem| #[trigger]
        delete_le_fn()(a, b) implies kind_rank(a) <= kind_rank(b) && depth_rank(a) <= depth_rank(
        b,
    ) by {}
    lemma_sorted_le_measure(s, delete_le_fn(), kind_rank);
    lemma_sorted_le_measure(s, delete_le_fn(), depth_rank);
    assert forall|i: int, j: int|
        0 <= i <= j < s.len() && (#[trigger] s[i]).is_dir implies (#[trigger] s[j]).is_dir by {
        assert(kind_rank(s[i]) <= kind_rank(s[j]));
    }
    assert forall|i: int, j: int|
        0 <= i <= j < s.len() && (#[trigger] s[i]).is_dir && (#[trigger] s[j]).is_dir implies s[
    i].depth >= s[j].depth by {
        assert(depth_rank(s[i]) <= depth_rank(s[j]));
    }
}

/// Order the plan's items for source deletion: files first, directories
/// by descending depth.
pub fn deletion_order(items: Vec<TransferItem>) -> (r: Vec<TransferItem>)
    ensures
        r@ == sort_le(items@, delete_le_fn()),
        sorted_le(r@, delete_le_fn()),
        r@.to_multiset() == items@.to_multiset(),
{
    proof {
        assert forall|a: TransferItem, b: TransferItem| #[trigger]
            delete_le_fn()(a, b) || #[trigger] delete_le_fn()(b, a) by {
            crate::text::lemma_lex_le_total(a.source@, b.source@);
        }
        lemma_sort_le_sorted(items@, delete_le_fn());
        lemma_sort_le_multiset(items@, delete_le_fn());
    }
    let ghost orig = items@;
    let mut v = items;
    let mut acc: Vec<TransferItem> = Vec::new();
    proof {
        assert(orig.skip(orig.len() as int) =~= Seq::<TransferItem>::empty());
    }
    while v.len() > 0
        invariant
            v@.len() <= orig.len(),
            v@ == orig.take(v@.len() as int),
            acc@ == sort_le(orig.skip(v@.len() as int), delete_le_fn()),
        decreases v@.len(),
    {
        let ghost k = v@.len() as int;
        let x = v.pop().unwrap();
        proof {
            assert(orig.take(k).drop_last() =~= orig.take(k - 1));
            assert(orig.take(k).last() == orig[k - 1]);
            assert(orig.skip(k - 1)[0] == orig[k - 1]);
            assert(orig.skip(k - 1).skip(1) =~= orig.skip(k));
        }
        insert_delete(x, &mut acc);
    }
    proof {
        assert(orig.skip(0) =~= orig);
    }
    acc
}

/// Compares two items under the deletion order.
fn delete_le_exec(a: &TransferItem, b: &TransferItem) -> (r: bool)
    ensures
        r == delete_le(*a, *b),
{
    if a.is_dir != b.is_dir {
        !a.is_dir
    } else if a.is_dir {
        a.depth >= b.depth
    } else {
        crate::text::str_lex_le(a.source.as_str(), b.source.as_str())
    }
}

/// Inserts one item where the spec-level insertion puts it.
fn insert_delete(x: TransferItem, v: &mut Vec<TransferItem>)
    ensures
        final(v)@ == insert_le(x, old(v)@, delete_le_fn()),
{
    let ghost before = v@;
    let n = v.len();
    let mut i: usize = 0;
    let mut found = false;
    while !found && i < n
        invariant
            i <= n,
            v@ == before,
            n == v@.len(),
            found ==> i < n && delete_le_fn()(x, v@[i as int]),
            forall|k: int| 0 <= k < i ==> !delete_le_fn()(x, #[trigger] v@[k]),
        decreases n - i, (if found { 0int } else { 1int }),
    {
        if delete_le_exec(&x, &v[i]) {
            found = true;
        } else {
            i += 1;
        }
    }
    proof {
        lemma_insert_le_at(x, before, delete_le_fn(), i as int);
    }
    let ghost xg = x;
    v.insert(i, x);
    proof {
        assert(v@ =~= before.subrange(0, i as int) + seq![xg] + before.subrange(
            i as int,
            before.len() as int,
        ));
    }
}

} // verus!
