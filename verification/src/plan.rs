//! Transfer plan builder: mapping walked source trees to destination
//! paths, aggregating statistics, and ordering the work so that parents
//! come before children and directories before files. Walking the tree is
//! the caller's part; it hands in one `RawNode` per file-system node.

use vstd::prelude::*;
use crate::error::{ZError, ZResult};
use crate::ordering::{
    insert_le, lemma_insert_le_at, lemma_sorted_le_measure, lemma_sort_le_multiset,
    lemma_sort_le_sorted, lemma_sum_by_sort_le, sort_le, sorted_le, sum_by, total_le,
};
use crate::paths::{spec_join, spec_parent, spec_strip_prefix};
use crate::text::lex_le;

verus! {

/// An individual item in a transfer plan.
#[derive(Debug, PartialEq)]
pub struct TransferItem {
    /// Source path (file or directory).
    pub source: String,
    /// Destination path.
    pub destination: String,
    /// Whether this is a directory.
    pub is_dir: bool,
    /// Size in bytes (0 for directories).
    pub size: u64,
    /// Depth relative to the source root (0 for root items).
    pub depth: usize,
    /// Whether a conflict exists at the destination.
    pub has_conflict: bool,
}

impl Clone for TransferItem {
    /// An item clones field by field, to an equal record.
    fn clone(&self) -> (r: TransferItem)
        ensures
            r == *self,
    {
        TransferItem {
            source: self.source.clone(),
            destination: self.destination.clone(),
            is_dir: self.is_dir,
            size: self.size,
            depth: self.depth,
            has_conflict: self.has_conflict,
        }
    }
}

impl TransferItem {
    /// Create a new transfer item; whether the destination already exists
    /// is the caller's finding.
    pub fn new(
        source: String,
        destination: String,
        is_dir: bool,
        size: u64,
        depth: usize,
        has_conflict: bool,
    ) -> (r: TransferItem)
        ensures
            r.source == source,
            r.destination == destination,
            r.is_dir == is_dir,
            r.size == size,
            r.depth == depth,
            r.has_conflict == has_conflict,
    {
        TransferItem { source, destination, is_dir, size, depth, has_conflict }
    }
}

/// Statistics for a transfer plan.
#[derive(Debug, Clone, Copy, PartialEq, Eq, Structural)]
pub struct TransferStats {
    /// Total number of files.
    pub total_files: usize,
    /// Total number of directories.
    pub total_dirs: usize,
    /// Total bytes to transfer.
    pub total_bytes: u64,
    /// Number of items with conflicts.
    pub conflicts: usize,
    /// Number of items that would be skipped.
    pub skipped: usize,
}

impl Default for TransferStats {
    fn default() -> (r: TransferStats)
        ensures
            r.total_files == 0 && r.total_dirs == 0 && r.total_bytes == 0 && r.conflicts == 0
                && r.skipped == 0,
    {
        TransferStats { total_files: 0, total_dirs: 0, total_bytes: 0, conflicts: 0, skipped: 0 }
    }
}

impl TransferStats {
    /// Total number of items (files + directories).
    pub fn total_items(&self) -> (r: usize)
        requires
            self.total_files + self.total_dirs <= usize::MAX,
        ensures
            r == self.total_files + self.total_dirs,
    {
        self.total_files + self.total_dirs
    }
}

/// The order a plan's items obey: directories first, directories by
/// ascending depth, files by source path.
pub open spec fn item_le(a: TransferItem, b: TransferItem) -> bool {
    if a.is_dir != b.is_dir {
        a.is_dir
    } else if a.is_dir {
        a.depth <= b.depth
    } else {
        lex_le(a.source@, b.source@)
    }
}

/// The item ordering as a comparator value.
pub open spec fn item_le_fn() -> spec_fn(TransferItem, TransferItem) -> bool {
    |a: TransferItem, b: TransferItem| item_le(a, b)
}

/// Any two items are comparable.
pub proof fn lemma_item_le_total()
    ensures
        total_le(item_le_fn()),
{
    assert forall|a: TransferItem, b: TransferItem| #[trigger]
        item_le_fn()(a, b) || #[trigger] item_le_fn()(b, a) by {
        crate::text::lemma_lex_le_total(a.source@, b.source@);
    }
}

/// In a plan's order, every directory precedes every file, and directory
/// depth never decreases: parents are created before their children.
pub proof fn lemma_plan_order(s: Seq<TransferItem>)
    requires
        sorted_le(s, item_le_fn()),
    ensures
        forall|i: int, j: int|
            0 <= i <= j < s.len() && !(#[trigger] s[i]).is_dir ==> !(#[trigger] s[j]).is_dir,
        forall|i: int, j: int|
            0 <= i <= j < s.len() && (#[trigger] s[i]).is_dir && (#[trigger] s[j]).is_dir
                ==> s[i].depth <= s[j].depth,
{
    let kind_rank = |a: TransferItem|
        if a.is_dir {
            0int
        } else {
            1int
        };
    let depth_rank = |a: TransferItem|
        if a.is_dir {
            a.depth as int
        } else {
            usize::MAX as int + 1
        };
    lemma_sorted_le_measure(s, item_le_fn(), kind_rank);
    lemma_sorted_le_measure(s, item_le_fn(), depth_rank);
    assert forall|i: int, j: int|
        0 <= i <= j < s.len() && !(#[trigger] s[i]).is_dir implies !(#[trigger] s[j]).is_dir by {
        assert(kind_rank(s[i]) <= kind_rank(s[j]));
    }
    assert forall|i: int, j: int|
        0 <= i <= j < s.len() && (#[trigger] s[i]).is_dir && (#[trigger] s[j]).is_dir implies s[
        i].depth <= s[j].depth by {
        assert(depth_rank(s[i]) <= depth_rank(s[j]));
    }
}

/// A complete transfer plan for a folder operation.
#[derive(Debug, Clone)]
pub struct TransferPlan {
    /// All items to transfer, in order (directories first, then files).
    pub items: Vec<TransferItem>,
    /// Statistics about the transfer.
    pub stats: TransferStats,
    /// Whether this is a move operation.
    pub is_move: bool,
    /// Source roots (original source paths).
    pub source_roots: Vec<String>,
    /// Destination root.
    pub destination_root: String,
}

/// Whether a path lies at or under a root path.
pub open spec fn dest_under(d: Seq<char>, root: Seq<char>) -> bool {
    d.len() >= root.len() && d.subrange(0, root.len() as int) == root
}

impl TransferPlan {
    /// The plan invariant: items sorted in plan order, every destination
    /// under the destination root, and the statistics summing the items.
    pub open spec fn wf(&self) -> bool {
        &&& sorted_le(self.items@, item_le_fn())
        &&& forall|i: int|
            0 <= i < self.items@.len() ==> dest_under(
                (#[trigger] self.items@[i]).destination@,
                self.destination_root@,
            )
        &&& self.stats.total_files as int == sum_by(self.items@, file_one())
        &&& self.stats.total_dirs as int == sum_by(self.items@, dir_one())
        &&& self.stats.total_bytes as int == sum_by(self.items@, file_size())
        &&& self.stats.conflicts as int == sum_by(self.items@, conflict_one())
    }

    /// Get all directories, in plan order.
    pub fn directories(&self) -> (r: Vec<TransferItem>)
        ensures
            r@ == self.items@.filter(|t: TransferItem| t.is_dir),
    {
        filter_items(&self.items, true)
    }

    /// Get all files, in plan order.
    pub fn files(&self) -> (r: Vec<TransferItem>)
        ensures
            r@ == self.items@.filter(|t: TransferItem| !t.is_dir),
    {
        filter_items(&self.items, false)
    }

    /// Get the items with conflicts.
    pub fn conflicts(&self) -> (r: Vec<TransferItem>)
        ensures
            r@ == self.items@.filter(|t: TransferItem| t.has_conflict),
    {
        let mut out: Vec<TransferItem> = Vec::new();
        let n = self.items.len();
        let mut i: usize = 0;
        proof {
            reveal(Seq::filter);
            assert(self.items@.take(0).filter(|t: TransferItem| t.has_conflict) =~= Seq::<
                TransferItem,
            >::empty());
        }
        while i < n
            invariant
                i <= n,
                n == self.items@.len(),
                out@ == self.items@.take(i as int).filter(|t: TransferItem| t.has_conflict),
            decreases n - i,
        {
            proof {
                reveal(Seq::filter);
                assert(self.items@.take(i + 1).drop_last() =~= self.items@.take(i as int));
                assert(self.items@.take(i + 1).last() == self.items@[i as int]);
            }
            if self.items[i].has_conflict {
                out.push(self.items[i].clone());
            }
            i += 1;
        }
        proof {
            assert(self.items@.take(n as int) =~= self.items@);
        }
        out
    }

    /// Check if there are any conflicts.
    pub fn has_conflicts(&self) -> (r: bool)
        ensures
            r == (self.stats.conflicts > 0),
    {
        self.stats.conflicts > 0
    }
}

/// Counts a file as one.
pub open spec fn file_one() -> spec_fn(TransferItem) -> int {
    |t: TransferItem|
        if t.is_dir {
            0int
        } else {
            1int
        }
}

/// Counts a directory as one.
pub open spec fn dir_one() -> spec_fn(TransferItem) -> int {
    |t: TransferItem|
        if t.is_dir {
            1int
        } else {
            0int
        }
}

/// Weighs a file by its size.
pub open spec fn file_size() -> spec_fn(TransferItem) -> int {
    |t: TransferItem|
        if t.is_dir {
            0int
        } else {
            t.size as int
        }
}

/// Counts a conflicting item as one.
pub open spec fn conflict_one() -> spec_fn(TransferItem) -> int {
    |t: TransferItem|
        if t.has_conflict {
            1int
        } else {
            0int
        }
}

/// Weighs a raw node by its file size.
pub open spec fn node_size_w() -> spec_fn(RawNode) -> int {
    |n: RawNode|
        if n.is_dir {
            0int
        } else {
            n.size as int
        }
}

/// One file-system node of a walked source tree, as the caller found it.
#[derive(Debug, Clone)]
pub struct RawNode {
    /// The root this node was walked from.
    pub root: String,
    /// The node's own path.
    pub path: String,
    /// Whether the node is a directory.
    pub is_dir: bool,
    /// Size in bytes, files only.
    pub size: u64,
    /// Depth below the root (the root itself has depth 0).
    pub depth: usize,
    /// Whether the node's destination path already exists.
    pub dest_exists: bool,
}

/// The destination a node maps to: the destination root, extended by the
/// node's path relative to its root's parent — so the top-level source
/// directory's name is preserved under the destination.
pub open spec fn spec_dest_of(node: RawNode, destination: Seq<char>) -> Option<Seq<char>> {
    let parent = match spec_parent(node.root@) {
        Some(p) => p,
        None => Seq::<char>::empty(),
    };
    match spec_strip_prefix(node.path@, parent) {
        Some(rel) => Some(spec_join(destination, rel)),
        None => None,
    }
}

/// Whether a plan item carries exactly one walked node: the node's path
/// as source, its mapped destination, its kind, its size (zero for a
/// directory), its depth, and its destination-exists finding as the
/// conflict mark.
pub open spec fn item_matches_node(it: TransferItem, n: RawNode, destination: Seq<char>) -> bool {
    &&& it.source == n.path
    &&& (spec_dest_of(n, destination) matches Some(d) && it.destination@ == d)
    &&& it.is_dir == n.is_dir
    &&& it.size == (if n.is_dir {
        0u64
    } else {
        n.size
    })
    &&& it.depth == n.depth
    &&& it.has_conflict == n.dest_exists
}

/// Build a transfer plan from walked nodes. Fails without sources, and on
/// a node whose path does not lie under its root's parent; otherwise every
/// node becomes one item, mapped under the destination, ordered
/// directories-first by depth and files by source path.
pub fn build_plan(
    source_roots: Vec<String>,
    nodes: Vec<RawNode>,
    destination: String,
    is_move: bool,
) -> (r: ZResult<TransferPlan>)
    requires
        sum_by(nodes@, node_size_w()) <= u64::MAX,
    ensures
        source_roots@.len() == 0 ==> (r matches Err(e) && e is Internal),
        r is Ok ==> source_roots@.len() > 0,
        // success is owed whenever there are sources and every node's
        // destination is computable
        source_roots@.len() > 0 && (forall|k: int|
            0 <= k < nodes@.len() ==> (#[trigger] spec_dest_of(nodes@[k], destination@)) is Some)
            ==> r is Ok,
        r matches Err(e) ==> e is Internal || e is InvalidPath,
        (r matches Err(e) && e is Internal) ==> source_roots@.len() == 0,
        (r matches Err(e) && e is InvalidPath) ==> exists|k: int|
            0 <= k < nodes@.len() && (#[trigger] spec_dest_of(nodes@[k], destination@)) is None,
        r matches Ok(plan) ==> {
            &&& plan.wf()
            &&& plan.is_move == is_move
            &&& plan.destination_root == destination
            &&& plan.source_roots == source_roots
            &&& plan.items@.len() == nodes@.len()
            &&& plan.items@.to_multiset().len() == nodes@.len()
            // each item comes from its node: the plan is the sorted image
            // of the walk
            &&& exists|mapped: Seq<TransferItem>|
                mapped.len() == nodes@.len() && (forall|k: int|
                    0 <= k < nodes@.len() ==> item_matches_node(
                        #[trigger] mapped[k],
                        nodes@[k],
                        destination@,
                    )) && plan.items@ == #[trigger] sort_le(mapped, item_le_fn())
        },
{
    if source_roots.len() == 0 {
        return Err(
            ZError::Internal { message: "No sources provided for transfer plan".to_owned() },
        );
    }
    let ghost size_w = node_size_w();
    let mut items: Vec<TransferItem> = Vec::new();
    let n = nodes.len();
    let mut i: usize = 0;
    proof {
        assert forall|a: RawNode| #[trigger] size_w(a) >= 0 by {}
        crate::ordering::lemma_sum_by_prefix_le(nodes@, 0, size_w);
    }
    while i < n
        invariant
            i <= n,
            n == nodes@.len(),
            source_roots@.len() > 0,
            items@.len() == i,
            size_w == node_size_w(),
            sum_by(nodes@, size_w) <= u64::MAX,
            forall|k: int|
                0 <= k < i ==> dest_under(
                    (#[trigger] items@[k]).destination@,
                    destination@,
                ),
            forall|k: int|
                0 <= k < i ==> item_matches_node(#[trigger] items@[k], nodes@[k], destination@),
            sum_by(items@, file_size()) <= sum_by(nodes@.take(i as int), size_w),
            sum_by(items@, file_size()) >= 0,
            sum_by(items@, file_one()) + sum_by(items@, dir_one()) == i,
            sum_by(items@, file_one()) >= 0,
            sum_by(items@, dir_one()) >= 0,
            sum_by(items@, conflict_one()) >= 0,
            sum_by(items@, conflict_one()) <= i,
        decreases n - i,
    {
        let node = &nodes[i];
        let parent = match crate::paths::parent_of(node.root.as_str()) {
            Some(p) => p,
            None => String::new(),
        };
        proof {
            // the exec parent mirrors the spec's: the computed one, or
            // empty at a root
            assert(parent@ == (match crate::paths::spec_parent(node.root@) {
                Some(p) => p,
                None => Seq::<char>::empty(),
            }));
        }
        let rel = match crate::paths::strip_prefix(node.path.as_str(), parent.as_str()) {
            Some(rel) => rel,
            None => {
                proof {
                    assert(spec_dest_of(nodes@[i as int], destination@) is None);
                }
                return Err(
                    ZError::InvalidPath {
                        path: node.path.clone(),
                        reason: "Failed to compute relative path".to_owned(),
                    },
                );
            },
        };
        let dest = crate::paths::join_path(destination.as_str(), rel.as_str());
        let size = if node.is_dir {
            0
        } else {
            node.size
        };
        let item = TransferItem {
            source: node.path.clone(),
            destination: dest,
            is_dir: node.is_dir,
            size,
            depth: node.depth,
            has_conflict: node.dest_exists,
        };
        let ghost preitems = items@;
        proof {
            crate::ordering::lemma_sum_by_push(preitems, item, file_size());
            crate::ordering::lemma_sum_by_push(preitems, item, file_one());
            crate::ordering::lemma_sum_by_push(preitems, item, dir_one());
            crate::ordering::lemma_sum_by_push(preitems, item, conflict_one());
            assert(nodes@.take(i + 1).drop_last() =~= nodes@.take(i as int));
            assert(nodes@.take(i + 1).last() == nodes@[i as int]);
            assert(item.destination@ == spec_join(destination@, rel@));
            lemma_join_prefix(destination@, rel@);
            assert(spec_dest_of(nodes@[i as int], destination@) == Some(
                spec_join(destination@, rel@),
            ));
            assert(item_matches_node(item, nodes@[i as int], destination@));
        }
        items.push(item);
        proof {
            assert forall|a: RawNode| #[trigger] size_w(a) >= 0 by {}
            crate::ordering::lemma_sum_by_prefix_le(nodes@, i + 1, size_w);
        }
        i += 1;
    }
    proof {
        assert(nodes@.take(n as int) =~= nodes@);
    }
    assert(source_roots@.len() > 0);
    proof {
        assert forall|k: int|
            0 <= k < nodes@.len() implies (#[trigger] spec_dest_of(
            nodes@[k],
            destination@,
        )) is Some by {
            assert(item_matches_node(items@[k], nodes@[k], destination@));
        }
    }
    // order the work: directories first by depth, then files by path
    let ghost pre_sort = items@;
    let sorted_items = sort_items(items);
    proof {
        lemma_item_le_total();
        lemma_sort_le_sorted(pre_sort, item_le_fn());
        lemma_sort_le_multiset(pre_sort, item_le_fn());
        lemma_sum_by_sort_le(pre_sort, item_le_fn(), file_size());
        lemma_sum_by_sort_le(pre_sort, item_le_fn(), file_one());
        lemma_sum_by_sort_le(pre_sort, item_le_fn(), dir_one());
        lemma_sum_by_sort_le(pre_sort, item_le_fn(), conflict_one());
        lemma_dest_under_sort(pre_sort, destination@);
    }
    let mut stats = TransferStats {
        total_files: 0,
        total_dirs: 0,
        total_bytes: 0,
        conflicts: 0,
        skipped: 0,
    };
    let m = sorted_items.len();
    let mut k: usize = 0;
    while k < m
        invariant
            k <= m,
            m == sorted_items@.len(),
            stats.total_files as int == sum_by(sorted_items@.take(k as int), file_one()),
            stats.total_dirs as int == sum_by(sorted_items@.take(k as int), dir_one()),
            stats.total_bytes as int == sum_by(sorted_items@.take(k as int), file_size()),
            stats.conflicts as int == sum_by(sorted_items@.take(k as int), conflict_one()),
            stats.skipped == 0,
            sum_by(sorted_items@, file_size()) <= u64::MAX,
            sum_by(sorted_items@, file_one()) + sum_by(sorted_items@, dir_one())
                == sorted_items@.len(),
            sum_by(sorted_items@, conflict_one()) <= sorted_items@.len(),
            stats.total_files + stats.total_dirs <= k,
            stats.conflicts <= k,
        decreases m - k,
    {
        proof {
            assert(sorted_items@.take(k + 1).drop_last() =~= sorted_items@.take(k as int));
            assert(sorted_items@.take(k + 1).last() == sorted_items@[k as int]);
            lemma_prefix_sums(sorted_items@, k + 1);
        }
        let it = &sorted_items[k];
        if it.is_dir {
            stats.total_dirs += 1;
        } else {
            stats.total_files += 1;
            stats.total_bytes += it.size;
        }
        if it.has_conflict {
            stats.conflicts += 1;
        }
        k += 1;
    }
    proof {
        broadcast use vstd::seq_lib::group_to_multiset_ensures;

        assert(sorted_items@.take(m as int) =~= sorted_items@);
        assert(sorted_items@.to_multiset().len() == sorted_items@.len());
    }
    proof {
        // the pre-sort item list witnesses the node-by-node mapping
        assert(pre_sort.len() == nodes@.len() && (forall|k: int|
            0 <= k < nodes@.len() ==> item_matches_node(
                #[trigger] pre_sort[k],
                nodes@[k],
                destination@,
            )) && sorted_items@ == sort_le(pre_sort, item_le_fn()));
    }
    Ok(
        TransferPlan {
            items: sorted_items,
            stats,
            is_move,
            source_roots,
            destination_root: destination,
        },
    )
}

/// A joined path starts with the directory it was joined under.
proof fn lemma_join_prefix(dir: Seq<char>, name: Seq<char>)
    ensures
        dest_under(spec_join(dir, name), dir),
{
    let j = spec_join(dir, name);
    assert(j.subrange(0, dir.len() as int) =~= dir);
}

/// Sorting keeps every destination under the root.
proof fn lemma_dest_under_sort(s: Seq<TransferItem>, root: Seq<char>)
    requires
        forall|i: int| 0 <= i < s.len() ==> dest_under((#[trigger] s[i]).destination@, root),
    ensures
        forall|i: int|
            0 <= i < sort_le(s, item_le_fn()).len() ==> dest_under(
                (#[trigger] sort_le(s, item_le_fn())[i]).destination@,
                root,
            ),
{
    broadcast use vstd::seq_lib::group_to_multiset_ensures;

    lemma_sort_le_multiset(s, item_le_fn());
    let t = sort_le(s, item_le_fn());
    assert forall|i: int| 0 <= i < t.len() implies dest_under(
        (#[trigger] t[i]).destination@,
        root,
    ) by {
        assert(t.to_multiset().count(t[i]) > 0);
        assert(s.to_multiset().count(t[i]) > 0);
        assert(s.contains(t[i]));
        let w = choose|w: int| 0 <= w < s.len() && s[w] == t[i];
        assert(dest_under((s[w]).destination@, root));
    }
}

/// The four prefix sums stay within the whole's bounds.
proof fn lemma_prefix_sums(s: Seq<TransferItem>, i: int)
    requires
        0 <= i <= s.len(),
    ensures
        sum_by(s.take(i), file_size()) <= sum_by(s, file_size()),
        0 <= sum_by(s.take(i), file_size()),
        sum_by(s.take(i), file_one()) + sum_by(s.take(i), dir_one()) == i,
        sum_by(s.take(i), conflict_one()) <= i,
        0 <= sum_by(s.take(i), conflict_one()),
    decreases i,
{
    assert forall|t: TransferItem| #[trigger] file_size()(t) >= 0 by {}
    crate::ordering::lemma_sum_by_prefix_le(s, i, file_size());
    crate::ordering::lemma_sum_by_nonneg(s.take(i), file_size());
    if i > 0 {
        lemma_prefix_sums(s, i - 1);
        assert(s.take(i).drop_last() =~= s.take(i - 1));
        assert(s.take(i).last() == s[i - 1]);
    }
}

/// Stable insertion sort of plan items under the plan order.
fn sort_items(items: Vec<TransferItem>) -> (r: Vec<TransferItem>)
    ensures
        r@ == sort_le(items@, item_le_fn()),
{
    let ghost orig = items@;
    let mut v = items;
    let mut acc: Vec<TransferItem> = Vec::new();
    proof {
        assert(orig.skip(orig.len() as int) =~= Seq::<TransferItem>::empty());
    }
    while v.len() > 0
        invariant
            v@.len() <= orig.len(),
            v@ == orig.take(v@.len() as int),
            acc@ == sort_le(orig.skip(v@.len() as int), item_le_fn()),
        decreases v@.len(),
    {
        let ghost k = v@.len() as int;
        let x = v.pop().unwrap();
        proof {
            assert(orig.take(k).drop_last() =~= orig.take(k - 1));
            assert(orig.take(k).last() == orig[k - 1]);
            assert(orig.skip(k - 1)[0] == orig[k - 1]);
            assert(orig.skip(k - 1).skip(1) =~= orig.skip(k));
        }
        insert_item(x, &mut acc);
    }
    proof {
        assert(orig.skip(0) =~= orig);
    }
    acc
}

/// Compares two plan items under the plan order.
fn item_le_exec(a: &TransferItem, b: &TransferItem) -> (r: bool)
    ensures
        r == item_le(*a, *b),
{
    if a.is_dir != b.is_dir {
        a.is_dir
    } else if a.is_dir {
        a.depth <= b.depth
    } else {
        crate::text::str_lex_le(a.source.as_str(), b.source.as_str())
    }
}

/// Inserts one item where the spec-level insertion puts it.
fn insert_item(x: TransferItem, v: &mut Vec<TransferItem>)
    ensures
        final(v)@ == insert_le(x, old(v)@, item_le_fn()),
{
    let ghost before = v@;
    let n = v.len();
    let mut i: usize = 0;
    let mut found = false;
    while !found && i < n
        invariant
            i <= n,
            v@ == before,
            n == v@.len(),
            found ==> i < n && item_le_fn()(x, v@[i as int]),
            forall|k: int| 0 <= k < i ==> !item_le_fn()(x, #[trigger] v@[k]),
        decreases n - i, (if found { 0int } else { 1int }),
    {
        if item_le_exec(&x, &v[i]) {
            found = true;
        } else {
            i += 1;
        }
    }
    proof {
        lemma_insert_le_at(x, before, item_le_fn(), i as int);
    }
    let ghost xg = x;
    v.insert(i, x);
    proof {
        assert(v@ =~= before.subrange(0, i as int) + seq![xg] + before.subrange(
            i as int,
            before.len() as int,
        ));
    }
}

/// Filters the items by directory-ness.
fn filter_items(items: &Vec<TransferItem>, want_dir: bool) -> (r: Vec<TransferItem>)
    ensures
        want_dir ==> r@ == items@.filter(|t: TransferItem| t.is_dir),
        !want_dir ==> r@ == items@.filter(|t: TransferItem| !t.is_dir),
{
    let mut out: Vec<TransferItem> = Vec::new();
    let n = items.len();
    let mut i: usize = 0;
    proof {
        reveal(Seq::filter);
        assert(items@.take(0).filter(|t: TransferItem| t.is_dir) =~= Seq::<TransferItem>::empty());
        assert(items@.take(0).filter(|t: TransferItem| !t.is_dir) =~= Seq::<
            TransferItem,
        >::empty());
    }
    while i < n
        invariant
            i <= n,
            n == items@.len(),
            want_dir ==> out@ == items@.take(i as int).filter(|t: TransferItem| t.is_dir),
            !want_dir ==> out@ == items@.take(i as int).filter(|t: TransferItem| !t.is_dir),
        decreases n - i,
    {
        proof {
            reveal(Seq::filter);
            assert(items@.take(i + 1).drop_last() =~= items@.take(i as int));
            assert(items@.take(i + 1).last() == items@[i as int]);
        }
        if items[i].is_dir == want_dir {
            out.push(items[i].clone());
        }
        i += 1;
    }
    proof {
        assert(items@.take(n as int) =~= items@);
    }
    out
}

} // verus!
