//! File-system watching with debouncing: the per-directory grouping of raw
//! change notifications and the bookkeeping of watched directories. The
//! notification source and the polling task are the caller's part.

use vstd::prelude::*;
use crate::error::ZError;
use crate::selection::holds_path;

verus! {

/// Default debounce duration in milliseconds.
pub const DEFAULT_DEBOUNCE_MS: u64 = 300;

/// Kind of file system change.
#[derive(Debug, Clone, Copy, PartialEq, Eq, Structural)]
pub enum WatchEventKind {
    /// Files or directories were created.
    Created,
    /// Files or directories were modified.
    Modified,
    /// Files or directories were deleted.
    Deleted,
    /// Files or directories were renamed.
    Renamed,
    /// Generic change (refresh needed).
    Changed,
}

impl WatchEventKind {
    /// What `label` renders for each kind.
    pub open spec fn spec_label(&self) -> Seq<char> {
        match *self {
            WatchEventKind::Created => "Created"@,
            WatchEventKind::Modified => "Modified"@,
            WatchEventKind::Deleted => "Deleted"@,
            WatchEventKind::Renamed => "Renamed"@,
            WatchEventKind::Changed => "Changed"@,
        }
    }

    /// Get a display label.
    pub fn label(&self) -> (r: &'static str)
        ensures
            r@ == self.spec_label(),
    {
        match self {
            WatchEventKind::Created => "Created",
            WatchEventKind::Modified => "Modified",
            WatchEventKind::Deleted => "Deleted",
            WatchEventKind::Renamed => "Renamed",
            WatchEventKind::Changed => "Changed",
        }
    }
}

/// File system change event, debounced per directory.
#[derive(Debug, Clone, PartialEq)]
pub struct WatchEvent {
    /// The directory that changed.
    pub directory: String,
    /// What kind of change occurred.
    pub kind: WatchEventKind,
    /// Paths that changed (if known).
    pub paths: Vec<String>,
}

/// Configuration for the file watcher.
#[derive(Debug, Clone, Copy, PartialEq, Eq, Structural)]
pub struct WatcherConfig {
    /// Debounce duration in milliseconds.
    pub debounce_ms: u64,
    /// Maximum directories to watch simultaneously.
    pub max_watched_dirs: usize,
    /// Whether to watch subdirectories recursively.
    pub recursive: bool,
}

impl Default for WatcherConfig {
    /// Watch the immediate directory only, ten directories at most, with
    /// the default debounce.
    fn default() -> (r: WatcherConfig)
        ensures
            r.debounce_ms == DEFAULT_DEBOUNCE_MS,
            r.max_watched_dirs == 10,
            !r.recursive,
    {
        WatcherConfig { debounce_ms: DEFAULT_DEBOUNCE_MS, max_watched_dirs: 10, recursive: false }
    }
}

/// The set of watched directories, bounded by the configuration.
#[derive(Debug, Clone)]
pub struct WatchList {
    dirs: Vec<String>,
    max_watched_dirs: usize,
}

impl WatchList {
    /// Each directory is held once, and no more than the bound allows.
    pub closed spec fn wf(&self) -> bool {
        &&& self.dirs@.len() <= self.max_watched_dirs
        &&& forall|i: int, j: int|
            0 <= i < j < self.dirs@.len() ==> (#[trigger] self.dirs@[i])@ != (
            #[trigger] self.dirs@[j])@
    }

    /// Whether `p` is watched.
    pub closed spec fn spec_watching(&self, p: Seq<char>) -> bool {
        holds_path(self.dirs@, p)
    }

    /// How many directories are watched.
    pub closed spec fn spec_count(&self) -> int {
        self.dirs@.len() as int
    }

    /// The configured bound.
    pub closed spec fn spec_max(&self) -> int {
        self.max_watched_dirs as int
    }

    /// Create an empty watch list under the given bound.
    pub fn new(max_watched_dirs: usize) -> (r: WatchList)
        ensures
            r.wf(),
            r.spec_count() == 0,
            r.spec_max() == max_watched_dirs,
    {
        WatchList { dirs: Vec::new(), max_watched_dirs }
    }

    /// Watch a directory. Watching an already-watched directory is a
    /// no-op; past the bound the request is refused.
    pub fn watch(&mut self, path: &str) -> (r: Result<(), ZError>)
        requires
            old(self).wf(),
        ensures
            final(self).wf(),
            final(self).spec_max() == old(self).spec_max(),
            r is Ok ==> final(self).spec_watching(path@),
            r is Ok ==> forall|q: Seq<char>|
                q != path@ ==> final(self).spec_watching(q) == old(self).spec_watching(q),
            r is Err <==> (!old(self).spec_watching(path@) && old(self).spec_count() >= old(
                self,
            ).spec_max()),
            r is Err ==> final(self).spec_count() == old(self).spec_count() && forall|q: Seq<char>|
                final(self).spec_watching(q) == old(self).spec_watching(q),
    {
        if contains_dir(&self.dirs, path) {
            return Ok(());
        }
        if self.dirs.len() >= self.max_watched_dirs {
            return Err(
                ZError::InvalidOperation {
                    operation: "watch".to_owned(),
                    reason: "Maximum watched directories reached".to_owned(),
                },
            );
        }
        let ghost pre = self.dirs@;
        let owned = path.to_owned();
        proof {
            lemma_dirs_push(self.dirs@, owned);
        }
        self.dirs.push(owned);
        proof {
            assert(self.dirs@.take(self.dirs@.len() - 1) =~= pre);
        }
        Ok(())
    }

    /// Stop watching a directory; unknown directories are ignored.
    pub fn unwatch(&mut self, path: &str)
        requires
            old(self).wf(),
        ensures
            final(self).wf(),
            final(self).spec_max() == old(self).spec_max(),
            !final(self).spec_watching(path@),
            forall|q: Seq<char>|
                q != path@ ==> final(self).spec_watching(q) == old(self).spec_watching(q),
    {
        let n = self.dirs.len();
        let mut i: usize = 0;
        while i < n
            invariant
                i <= n,
                self.dirs@ == old(self).dirs@,
                self.max_watched_dirs == old(self).max_watched_dirs,
                self.dirs@.len() <= self.max_watched_dirs,
                n == self.dirs@.len(),
                forall|a: int, b: int|
                    0 <= a < b < self.dirs@.len() ==> (#[trigger] self.dirs@[a])@ != (
                    #[trigger] self.dirs@[b])@,
                forall|k: int| 0 <= k < i ==> (#[trigger] self.dirs@[k])@ != path@,
            decreases n - i,
        {
            if crate::text::str_eq(self.dirs[i].as_str(), path) {
                let ghost pre = self.dirs@;
                self.dirs.remove(i);
                proof {
                    pre.remove_ensures(i as int);
                    lemma_dirs_remove(pre, self.dirs@, i as int, path@);
                }
                return ;
            }
            i += 1;
        }
        proof {
            if holds_path(self.dirs@, path@) {
                let w = choose|w: int|
                    0 <= w < self.dirs@.len() && (#[trigger] self.dirs@[w])@ == path@;
                assert((self.dirs@[w])@ != path@);
            }
        }
    }

    /// The watched directories.
    pub fn watched_dirs(&self) -> (r: Vec<String>)
        ensures
            r@.len() == self.spec_count(),
            forall|q: Seq<char>| holds_path(r@, q) == self.spec_watching(q),
    {
        let mut out: Vec<String> = Vec::new();
        let n = self.dirs.len();
        let mut i: usize = 0;
        while i < n
            invariant
                i <= n,
                n == self.dirs@.len(),
                out@ =~= self.dirs@.take(i as int),
            decreases n - i,
        {
            out.push(self.dirs[i].clone());
            i += 1;
        }
        proof {
            assert(self.dirs@.take(n as int) =~= self.dirs@);
        }
        out
    }

    /// Check if a directory is being watched.
    pub fn is_watching(&self, path: &str) -> (r: bool)
        ensures
            r == self.spec_watching(path@),
    {
        contains_dir(&self.dirs, path)
    }
}

/// One directory's pending, not yet flushed changes.
#[derive(Debug, PartialEq)]
pub struct DebounceGroup {
    /// The directory the changes belong to.
    pub directory: String,
    /// When the group last saw a raw event, in milliseconds.
    pub last_event_ms: u64,
    /// The changed paths seen so far.
    pub pending_paths: Vec<String>,
    /// The strongest kind seen so far.
    pub pending_kind: WatchEventKind,
}

/// Two groups that agree in every observable field: the path list is
/// compared by its contents.
pub open spec fn group_like(a: DebounceGroup, b: DebounceGroup) -> bool {
    &&& a.directory == b.directory
    &&& a.last_event_ms == b.last_event_ms
    &&& a.pending_kind == b.pending_kind
    &&& a.pending_paths@ == b.pending_paths@
}

impl Clone for DebounceGroup {
    /// A group clones field by field; the copy agrees in every field, the
    /// path list by contents.
    fn clone(&self) -> (r: DebounceGroup)
        ensures
            group_like(r, *self),
    {
        let mut paths: Vec<String> = Vec::new();
        let m = self.pending_paths.len();
        let mut k: usize = 0;
        while k < m
            invariant
                k <= m,
                m == self.pending_paths@.len(),
                paths@ =~= self.pending_paths@.take(k as int),
            decreases m - k,
        {
            paths.push(self.pending_paths[k].clone());
            k += 1;
        }
        proof {
            assert(self.pending_paths@.take(m as int) =~= self.pending_paths@);
        }
        let r = DebounceGroup {
            directory: self.directory.clone(),
            last_event_ms: self.last_event_ms,
            pending_paths: paths,
            pending_kind: self.pending_kind,
        };
        proof {
            assert(r.pending_paths@ =~= self.pending_paths@);
        }
        r
    }
}

/// No path is held twice.
pub open spec fn paths_distinct(v: Seq<String>) -> bool {
    forall|a: int, b: int| 0 <= a < b < v.len() ==> (#[trigger] v[a])@ != (#[trigger] v[b])@
}

/// One flushed event carries exactly one group: its directory, its
/// pending kind, and its pending paths.
pub open spec fn event_matches_group(e: WatchEvent, g: DebounceGroup) -> bool {
    &&& e.directory == g.directory
    &&& e.kind == g.pending_kind
    &&& e.paths@ == g.pending_paths@
}

/// The debouncer: raw events grouped by parent directory, flushed once a
/// group has been quiet long enough.
#[derive(Debug, Clone)]
pub struct Debouncer {
    groups: Vec<DebounceGroup>,
}

impl Debouncer {
    /// Each directory has at most one group, and no group holds a path
    /// twice.
    pub closed spec fn wf(&self) -> bool {
        &&& forall|i: int, j: int|
            0 <= i < j < self.groups@.len() ==> (#[trigger] self.groups@[i]).directory@ != (
            #[trigger] self.groups@[j]).directory@
        &&& forall|i: int|
            0 <= i < self.groups@.len() ==> paths_distinct(
                (#[trigger] self.groups@[i]).pending_paths@,
            )
    }

    /// The pending groups.
    pub closed spec fn spec_groups(&self) -> Seq<DebounceGroup> {
        self.groups@
    }

    /// Whether a directory has a pending group.
    pub closed spec fn spec_has_group(&self, dir: Seq<char>) -> bool {
        exists|i: int|
            0 <= i < self.groups@.len() && (#[trigger] self.groups@[i]).directory@ == dir
    }

    /// Create an empty debouncer.
    pub fn new() -> (r: Debouncer)
        ensures
            r.wf(),
            r.spec_groups().len() == 0,
    {
        Debouncer { groups: Vec::new() }
    }

    /// Record one raw change: the path joins its directory's group (which
    /// is created on first sight), the group's clock resets to `now`, and
    /// a kind other than Modified overrides a Modified one.
    pub fn record(&mut self, dir: &str, path: &str, kind: WatchEventKind, now: u64)
        requires
            old(self).wf(),
        ensures
            final(self).wf(),
            final(self).spec_has_group(dir@),
            forall|q: Seq<char>|
                q != dir@ ==> final(self).spec_has_group(q) == old(self).spec_has_group(q),
            // the directory's group carries the update: its clock is
            // `now`, the path is among its pending paths, and a kind
            // other than Modified takes the group over
            forall|i: int|
                0 <= i < final(self).spec_groups().len() && (#[trigger] final(self).spec_groups()[i]).directory@ == dir@ ==> {
                    &&& final(self).spec_groups()[i].last_event_ms == now
                    &&& holds_path(final(self).spec_groups()[i].pending_paths@, path@)
                    &&& (!(kind is Modified) ==> final(self).spec_groups()[i].pending_kind
                        == kind)
                },
            // a Modified record never downgrades an earlier kind
            kind is Modified ==> forall|i: int, j: int|
                0 <= i < final(self).spec_groups().len() && 0 <= j < old(self).spec_groups().len()
                    && (#[trigger] final(self).spec_groups()[i]).directory@ == dir@ && (
                #[trigger] old(self).spec_groups()[j]).directory@ == dir@ ==> final(self).spec_groups()[i].pending_kind == old(self).spec_groups()[j].pending_kind,
    {
        let n = self.groups.len();
        let mut i: usize = 0;
        while i < n
            invariant
                i <= n,
                self.groups@ == old(self).groups@,
                n == self.groups@.len(),
                forall|a: int, b: int|
                    0 <= a < b < self.groups@.len() ==> (#[trigger] self.groups@[a]).directory@
                        != (#[trigger] self.groups@[b]).directory@,
                forall|a: int|
                    0 <= a < self.groups@.len() ==> paths_distinct(
                        (#[trigger] self.groups@[a]).pending_paths@,
                    ),
                forall|k: int| 0 <= k < i ==> (#[trigger] self.groups@[k]).directory@ != dir@,
            decreases n - i,
        {
            if crate::text::str_eq(self.groups[i].directory.as_str(), dir) {
                let ghost pre = self.groups@;
                let g = &mut self.groups[i];
                g.last_event_ms = now;
                if !contains_dir(&g.pending_paths, path) {
                    let ghost prepaths = g.pending_paths@;
                    let owned = path.to_owned();
                    proof {
                        lemma_dirs_push(prepaths, owned);
                    }
                    g.pending_paths.push(owned);
                }
                if !matches!(kind, WatchEventKind::Modified) {
                    g.pending_kind = kind;
                }
                proof {
                    assert(holds_path(self.groups@[i as int].pending_paths@, path@));
                    assert forall|w: int|
                        0 <= w < self.groups@.len() && (#[trigger] self.groups@[w]).directory@
                            == dir@ implies w == i by {
                        if w != i {
                            assert((self.groups@[w]).directory == (pre[w]).directory);
                            assert((pre[w]).directory@ != (pre[i as int]).directory@);
                        }
                    }
                    assert forall|a: int|
                        0 <= a < self.groups@.len() implies paths_distinct(
                        (#[trigger] self.groups@[a]).pending_paths@,
                    ) by {
                        if a != i {
                            assert(self.groups@[a] == pre[a]);
                        }
                    }
                    assert forall|a: int, b: int|
                        0 <= a < b < self.groups@.len() implies (
                    #[trigger] self.groups@[a]).directory@ != (
                    #[trigger] self.groups@[b]).directory@ by {
                        assert((self.groups@[a]).directory == (pre[a]).directory);
                        assert((self.groups@[b]).directory == (pre[b]).directory);
                        assert((pre[a]).directory@ != (pre[b]).directory@);
                    }
                    assert((self.groups@[i as int]).directory@ == dir@);
                    assert forall|q: Seq<char>| q != dir@ implies self.spec_has_group(q) == old(
                        self,
                    ).spec_has_group(q) by {
                        if old(self).spec_has_group(q) {
                            let w = choose|w: int|
                                0 <= w < pre.len() && (#[trigger] pre[w]).directory@ == q;
                            assert((self.groups@[w]).directory == (pre[w]).directory);
                            assert((self.groups@[w]).directory@ == q);
                        }
                        if self.spec_has_group(q) {
                            let w = choose|w: int|
                                0 <= w < self.groups@.len() && (
                                #[trigger] self.groups@[w]).directory@ == q;
                            assert((self.groups@[w]).directory == (pre[w]).directory);
                            assert((pre[w]).directory@ == q);
                        }
                    }
                }
                return ;
            }
            i += 1;
        }
        let ghost pre = self.groups@;
        let mut paths: Vec<String> = Vec::new();
        paths.push(path.to_owned());
        proof {
            assert(paths@[0]@ == path@);
            assert(holds_path(paths@, path@));
        }
        let group = DebounceGroup {
            directory: dir.to_owned(),
            last_event_ms: now,
            pending_paths: paths,
            pending_kind: kind,
        };
        self.groups.push(group);
        proof {
            assert((self.groups@[pre.len() as int]).directory@ == dir@);
            assert forall|w: int|
                0 <= w < self.groups@.len() && (#[trigger] self.groups@[w]).directory@
                    == dir@ implies w == pre.len() by {
                if w < pre.len() {
                    assert(self.groups@[w] == pre[w]);
                }
            }
            assert forall|a: int|
                0 <= a < self.groups@.len() implies paths_distinct(
                (#[trigger] self.groups@[a]).pending_paths@,
            ) by {
                if a < pre.len() {
                    assert(self.groups@[a] == pre[a]);
                }
            }
            assert forall|a: int, b: int|
                0 <= a < b < self.groups@.len() implies (#[trigger] self.groups@[a]).directory@
                != (#[trigger] self.groups@[b]).directory@ by {
                if b == self.groups@.len() - 1 {
                    assert(self.groups@[a] == pre[a]);
                    assert((pre[a]).directory@ != dir@);
                } else {
                    assert(self.groups@[a] == pre[a]);
                    assert(self.groups@[b] == pre[b]);
                }
            }
            assert forall|q: Seq<char>| q != dir@ implies final(self).spec_has_group(q) == old(
                self,
            ).spec_has_group(q) by {
                if old(self).spec_has_group(q) {
                    let w = choose|w: int| 0 <= w < pre.len() && (#[trigger] pre[w]).directory@ == q;
                    assert((self.groups@[w]).directory@ == q);
                }
                if final(self).spec_has_group(q) {
                    let w = choose|w: int|
                        0 <= w < self.groups@.len() && (#[trigger] self.groups@[w]).directory@ == q;
                    assert(w < pre.len());
                    assert((pre[w]).directory@ == q);
                }
            }
        }
    }

    /// Whether a group has aged past the debounce window.
    pub open spec fn spec_ready(g: DebounceGroup, now: u64, debounce_ms: u64) -> bool {
        now >= g.last_event_ms && now - g.last_event_ms >= debounce_ms
    }

    /// Flush every group that has been quiet for the debounce window: each
    /// becomes one event, and only the young groups stay.
    pub fn flush_ready(&mut self, now: u64, debounce_ms: u64) -> (r: Vec<WatchEvent>)
        requires
            old(self).wf(),
        ensures
            final(self).wf(),
            // what stays is exactly the young groups, in order
            final(self).spec_groups().len() == old(self).spec_groups().filter(
                |g: DebounceGroup| !Debouncer::spec_ready(g, now, debounce_ms),
            ).len(),
            forall|k: int|
                0 <= k < final(self).spec_groups().len() ==> group_like(
                    #[trigger] final(self).spec_groups()[k],
                    old(self).spec_groups().filter(
                        |g: DebounceGroup| !Debouncer::spec_ready(g, now, debounce_ms),
                    )[k],
                ),
            // each aged group becomes exactly one event, in order, with
            // its directory, its pending kind and its pending paths
            r@.len() == old(self).spec_groups().filter(
                |g: DebounceGroup| Debouncer::spec_ready(g, now, debounce_ms),
            ).len(),
            forall|k: int|
                0 <= k < r@.len() ==> event_matches_group(
                    #[trigger] r@[k],
                    old(self).spec_groups().filter(
                        |g: DebounceGroup| Debouncer::spec_ready(g, now, debounce_ms),
                    )[k],
                ),
            // one event per aged group
            r@.len() + final(self).spec_groups().len() == old(self).spec_groups().len(),
    {
        let ghost orig = self.groups@;
        let ghost pred = |g: DebounceGroup| !Debouncer::spec_ready(g, now, debounce_ms);
        let mut kept: Vec<DebounceGroup> = Vec::new();
        let mut events: Vec<WatchEvent> = Vec::new();
        let n = self.groups.len();
        let mut i: usize = 0;
        proof {
            reveal(Seq::filter);
            assert(orig.take(0).filter(pred) =~= Seq::<DebounceGroup>::empty());
        }
        while i < n
            invariant
                i <= n,
                self.groups@ == orig,
                n == orig.len(),
                kept@.len() == orig.take(i as int).filter(
                    |g: DebounceGroup| !Debouncer::spec_ready(g, now, debounce_ms),
                ).len(),
                forall|k: int|
                    0 <= k < kept@.len() ==> group_like(
                        #[trigger] kept@[k],
                        orig.take(i as int).filter(
                            |g: DebounceGroup| !Debouncer::spec_ready(g, now, debounce_ms),
                        )[k],
                    ),
                events@.len() == orig.take(i as int).filter(
                    |g: DebounceGroup| Debouncer::spec_ready(g, now, debounce_ms),
                ).len(),
                forall|k: int|
                    0 <= k < events@.len() ==> event_matches_group(
                        #[trigger] events@[k],
                        orig.take(i as int).filter(
                            |g: DebounceGroup| Debouncer::spec_ready(g, now, debounce_ms),
                        )[k],
                    ),
                kept@.len() + events@.len() == i,
                forall|a: int, b: int|
                    0 <= a < b < orig.len() ==> (#[trigger] orig[a]).directory@ != (
                    #[trigger] orig[b]).directory@,
                forall|a: int|
                    0 <= a < orig.len() ==> paths_distinct((#[trigger] orig[a]).pending_paths@),
            decreases n - i,
        {
            proof {
                reveal(Seq::filter);
                assert(orig.take(i + 1).drop_last() =~= orig.take(i as int));
                assert(orig.take(i + 1).last() == orig[i as int]);
            }
            let g = &self.groups[i];
            let aged = now >= g.last_event_ms && now - g.last_event_ms >= debounce_ms;
            if aged {
                let mut paths: Vec<String> = Vec::new();
                let m = g.pending_paths.len();
                let mut k: usize = 0;
                while k < m
                    invariant
                        k <= m,
                        m == g.pending_paths@.len(),
                        paths@ =~= g.pending_paths@.take(k as int),
                    decreases m - k,
                {
                    paths.push(g.pending_paths[k].clone());
                    k += 1;
                }
                proof {
                    assert(paths@ =~= orig[i as int].pending_paths@);
                }
                let ev = WatchEvent {
                    directory: g.directory.clone(),
                    kind: g.pending_kind,
                    paths,
                };
                let ghost preevents = events@;
                proof {
                    assert(event_matches_group(ev, orig[i as int]));
                }
                events.push(ev);
                proof {
                    let ready = |g2: DebounceGroup| Debouncer::spec_ready(g2, now, debounce_ms);
                    let newf = orig.take(i + 1).filter(ready);
                    assert(newf == orig.take(i as int).filter(ready).push(orig[i as int]));
                    assert forall|k2: int|
                        0 <= k2 < events@.len() implies event_matches_group(
                        #[trigger] events@[k2],
                        newf[k2],
                    ) by {
                        if k2 < preevents.len() {
                            assert(events@[k2] == preevents[k2]);
                            assert(newf[k2] == orig.take(i as int).filter(ready)[k2]);
                        } else {
                            assert(events@[k2] == ev);
                            assert(newf[k2] == orig[i as int]);
                        }
                    }
                }
            } else {
                kept.push(self.groups[i].clone());
            }
            i += 1;
        }
        proof {
            assert(orig.take(n as int) =~= orig);
            lemma_groups_filter_distinct(orig, pred);
            assert forall|a: int, b: int|
                0 <= a < b < kept@.len() implies (#[trigger] kept@[a]).directory@ != (
            #[trigger] kept@[b]).directory@ by {
                assert(group_like(kept@[a], orig.filter(pred)[a]));
                assert(group_like(kept@[b], orig.filter(pred)[b]));
                assert((orig.filter(pred)[a]).directory@ != (orig.filter(pred)[b]).directory@);
            }
            assert forall|a: int|
                0 <= a < kept@.len() implies paths_distinct(
                (#[trigger] kept@[a]).pending_paths@,
            ) by {
                assert(group_like(kept@[a], orig.filter(pred)[a]));
                lemma_group_filter_member(orig, pred, a);
                let w = choose|w: int| 0 <= w < orig.len() && #[trigger] orig[w] == orig.filter(
                    pred,
                )[a];
                assert(paths_distinct(orig[w].pending_paths@));
            }
        }
        self.groups = kept;
        events
    }
}

/// A filtered run of distinct-directory groups keeps its directories
/// distinct.
proof fn lemma_groups_filter_distinct(s: Seq<DebounceGroup>, pred: spec_fn(DebounceGroup) -> bool)
    requires
        forall|i: int, j: int|
            0 <= i < j < s.len() ==> (#[trigger] s[i]).directory@ != (#[trigger] s[j]).directory@,
    ensures
        forall|i: int, j: int|
            0 <= i < j < s.filter(pred).len() ==> (#[trigger] s.filter(pred)[i]).directory@ != (
            #[trigger] s.filter(pred)[j]).directory@,
    decreases s.len(),
{
    reveal(Seq::filter);
    if s.len() == 0 {
    } else {
        lemma_groups_filter_distinct(s.drop_last(), pred);
        let f = s.drop_last().filter(pred);
        if pred(s.last()) {
            assert(s.filter(pred) == f.push(s.last()));
            assert(f.push(s.last()).drop_last() =~= f);
            assert forall|i: int, j: int|
                0 <= i < j < s.filter(pred).len() implies (
            #[trigger] s.filter(pred)[i]).directory@ != (#[trigger] s.filter(pred)[j]).directory@ by {
                if j == s.filter(pred).len() - 1 {
                    assert(s.filter(pred)[i] == f[i]);
                    lemma_group_filter_member(s.drop_last(), pred, i);
                } else {
                    assert(s.filter(pred)[i] == f[i]);
                    assert(s.filter(pred)[j] == f[j]);
                }
            }
        }
    }
}

/// Every element of the filtered groups occurs among the originals.
proof fn lemma_group_filter_member(s: Seq<DebounceGroup>, pred: spec_fn(DebounceGroup) -> bool, i: int)
    requires
        0 <= i < s.filter(pred).len(),
    ensures
        exists|k: int| 0 <= k < s.len() && #[trigger] s[k] == s.filter(pred)[i],
    decreases s.len(),
{
    reveal(Seq::filter);
    if s.len() == 0 {
    } else {
        let f = s.drop_last().filter(pred);
        if pred(s.last()) && i == s.filter(pred).len() - 1 {
            assert(s[s.len() - 1] == s.filter(pred)[i]);
        } else {
            lemma_group_filter_member(s.drop_last(), pred, i);
            let k = choose|k: int|
                0 <= k < s.drop_last().len() && #[trigger] s.drop_last()[k] == s.drop_last().filter(
                    pred,
                )[i];
            assert(s[k] == s.filter(pred)[i]);
        }
    }
}

/// Pushing a new directory keeps the list duplicate-free.
proof fn lemma_dirs_push(v: Seq<String>, x: String)
    requires
        forall|i: int, j: int| 0 <= i < j < v.len() ==> (#[trigger] v[i])@ != (#[trigger] v[j])@,
        !holds_path(v, x@),
    ensures
        forall|i: int, j: int|
            0 <= i < j < v.push(x).len() ==> (#[trigger] v.push(x)[i])@ != (
            #[trigger] v.push(x)[j])@,
        forall|q: Seq<char>|
            #[trigger] holds_path(v.push(x), q) <==> (holds_path(v, q) || x@ == q),
{
    let w = v.push(x);
    assert forall|i: int, j: int| 0 <= i < j < w.len() implies (#[trigger] w[i])@ != (
    #[trigger] w[j])@ by {
        if j == w.len() - 1 {
            assert(w[i] == v[i]);
            if v[i]@ == x@ {
                assert(holds_path(v, x@));
            }
        } else {
            assert(w[i] == v[i]);
            assert(w[j] == v[j]);
        }
    }
    assert forall|q: Seq<char>| #[trigger] holds_path(w, q) <==> (holds_path(v, q) || x@ == q) by {
        if holds_path(w, q) {
            let k = choose|k: int| 0 <= k < w.len() && (#[trigger] w[k])@ == q;
            if k < v.len() {
                assert(v[k] == w[k]);
            } else {
                assert(w[k] == x);
            }
        }
        if holds_path(v, q) {
            let k = choose|k: int| 0 <= k < v.len() && (#[trigger] v[k])@ == q;
            assert(w[k] == v[k]);
        }
        if x@ == q {
            assert(w[v.len() as int] == x);
        }
    }
}

/// Removing the matched index removes exactly that directory.
proof fn lemma_dirs_remove(pre: Seq<String>, post: Seq<String>, i: int, p: Seq<char>)
    requires
        0 <= i < pre.len(),
        post == pre.remove(i),
        (pre[i])@ == p,
        forall|a: int, b: int| 0 <= a < b < pre.len() ==> (#[trigger] pre[a])@ != (#[trigger] pre[b])@,
    ensures
        forall|a: int, b: int|
            0 <= a < b < post.len() ==> (#[trigger] post[a])@ != (#[trigger] post[b])@,
        !holds_path(post, p),
        forall|q: Seq<char>| q != p ==> holds_path(post, q) == holds_path(pre, q),
{
    pre.remove_ensures(i);
    assert forall|t: int| 0 <= t < post.len() implies post[t] == (if t < i {
        pre[t]
    } else {
        pre[t + 1]
    }) by {
        assert(post == pre.subrange(0, i) + pre.subrange(i + 1, pre.len() as int));
    }
    assert forall|a: int, b: int| 0 <= a < b < post.len() implies (#[trigger] post[a])@ != (
    #[trigger] post[b])@ by {
        let oa = if a < i {
            a
        } else {
            a + 1
        };
        let ob = if b < i {
            b
        } else {
            b + 1
        };
        assert(post[a] == (if a < i {
            pre[a]
        } else {
            pre[a + 1]
        }));
        assert(post[b] == (if b < i {
            pre[b]
        } else {
            pre[b + 1]
        }));
        assert((pre[oa])@ != (pre[ob])@);
    }
    if holds_path(post, p) {
        let w = choose|w: int| 0 <= w < post.len() && (#[trigger] post[w])@ == p;
        assert(post[w] == (if w < i {
            pre[w]
        } else {
            pre[w + 1]
        }));
        if w < i {
            assert((pre[w])@ != (pre[i])@);
        } else {
            assert((pre[w + 1])@ != (pre[i])@);
        }
        assert(false);
    }
    assert forall|q: Seq<char>| q != p implies holds_path(post, q) == holds_path(pre, q) by {
        if holds_path(pre, q) {
            let w = choose|w: int| 0 <= w < pre.len() && (#[trigger] pre[w])@ == q;
            if w < i {
                assert(post[w] == pre[w]);
            } else {
                assert(post[w - 1] == pre[w]);
            }
        }
        if holds_path(post, q) {
            let w = choose|w: int| 0 <= w < post.len() && (#[trigger] post[w])@ == q;
            assert(post[w] == (if w < i {
                pre[w]
            } else {
                pre[w + 1]
            }));
            if w < i {
                assert((pre[w])@ == q);
            } else {
                assert((pre[w + 1])@ == q);
            }
        }
    }
}

/// Checks whether the list holds `path`.
fn contains_dir(v: &Vec<String>, path: &str) -> (r: bool)
    ensures
        r == holds_path(v@, path@),
{
    let n = v.len();
    let mut i: usize = 0;
    while i < n
        invariant
            i <= n,
            n == v@.len(),
            forall|k: int| 0 <= k < i ==> (#[trigger] v@[k])@ != path@,
        decreases n - i,
    {
        if crate::text::str_eq(v[i].as_str(), path) {
            return true;
        }
        i += 1;
    }
    false
}

} // verus!
