//! Selection model for file entries: cursor, anchor, and the selected set.

use vstd::prelude::*;
use crate::entry::EntryMeta;

verus! {

/// Whether a path list holds `p`.
pub open spec fn holds_path(v: Seq<String>, p: Seq<char>) -> bool {
    exists|i: int| 0 <= i < v.len() && (#[trigger] v[i])@ == p
}

/// Membership after a push: the old members, plus the new path.
proof fn lemma_holds_path_push(v: Seq<String>, x: String)
    ensures
        forall|q: Seq<char>|
            #[trigger] holds_path(v.push(x), q) <==> (holds_path(v, q) || x@ == q),
{
    let w = v.push(x);
    assert forall|q: Seq<char>|
        #[trigger] holds_path(w, q) <==> (holds_path(v, q) || x@ == q) by {
        if holds_path(w, q) {
            let i = choose|i: int| 0 <= i < w.len() && (#[trigger] w[i])@ == q;
            if i < v.len() {
                assert(v[i] == w[i]);
            } else {
                assert(w[i] == x);
            }
        }
        if holds_path(v, q) {
            let i = choose|i: int| 0 <= i < v.len() && (#[trigger] v[i])@ == q;
            assert(w[i] == v[i]);
        }
        if x@ == q {
            assert(w[v.len() as int] == x);
        }
    }
}

/// Modifier keys for click operations.
#[derive(Debug, Clone, Copy, PartialEq, Eq, Structural)]
pub struct ClickModifiers {
    pub ctrl: bool,
    pub shift: bool,
    pub alt: bool,
}

impl Default for ClickModifiers {
    fn default() -> (r: ClickModifiers)
        ensures
            !r.ctrl && !r.shift && !r.alt,
    {
        ClickModifiers { ctrl: false, shift: false, alt: false }
    }
}

impl ClickModifiers {
    /// No modifier held.
    pub fn none() -> (r: ClickModifiers)
        ensures
            !r.ctrl && !r.shift && !r.alt,
    {
        ClickModifiers { ctrl: false, shift: false, alt: false }
    }

    /// Control held.
    pub fn ctrl() -> (r: ClickModifiers)
        ensures
            r.ctrl && !r.shift && !r.alt,
    {
        ClickModifiers { ctrl: true, shift: false, alt: false }
    }

    /// Shift held.
    pub fn shift() -> (r: ClickModifiers)
        ensures
            !r.ctrl && r.shift && !r.alt,
    {
        ClickModifiers { ctrl: false, shift: true, alt: false }
    }

    /// Control and shift held.
    pub fn ctrl_shift() -> (r: ClickModifiers)
        ensures
            r.ctrl && r.shift && !r.alt,
    {
        ClickModifiers { ctrl: true, shift: true, alt: false }
    }
}

/// Selection state for a directory listing.
#[derive(Debug, Clone)]
pub struct Selection {
    /// Selected entry paths, each held once.
    selected: Vec<String>,
    /// The cursor position (focused item index).
    cursor: usize,
    /// Anchor for range selection.
    anchor: Option<usize>,
    /// Total number of entries (for bounds checking).
    entry_count: usize,
}

impl Selection {
    /// The selection invariant: the cursor stays inside the entries (and at
    /// 0 when there are none), the anchor stays inside the entries, and no
    /// path is held twice.
    pub closed spec fn wf(&self) -> bool {
        &&& self.entry_count > 0 ==> self.cursor < self.entry_count
        &&& self.entry_count == 0 ==> self.cursor == 0
        &&& match self.anchor {
            Some(a) => a < self.entry_count,
            None => true,
        }
        &&& forall|i: int, j: int|
            0 <= i < j < self.selected@.len() ==> (#[trigger] self.selected@[i])@ != (
            #[trigger] self.selected@[j])@
    }

    /// The selected paths as the crate's contracts see them.
    pub closed spec fn spec_paths(&self) -> Seq<String> {
        self.selected@
    }

    /// Whether `p` is in the selected set.
    pub closed spec fn spec_selected(&self, p: Seq<char>) -> bool {
        holds_path(self.selected@, p)
    }

    /// The number of selected paths.
    pub closed spec fn spec_count(&self) -> int {
        self.selected@.len() as int
    }

    /// The cursor position.
    pub closed spec fn spec_cursor(&self) -> int {
        self.cursor as int
    }

    /// The anchor, if set.
    pub closed spec fn spec_anchor(&self) -> Option<int> {
        match self.anchor {
            Some(a) => Some(a as int),
            None => None,
        }
    }

    /// The number of entries the selection ranges over.
    pub closed spec fn spec_entry_count(&self) -> int {
        self.entry_count as int
    }

    /// Create a new empty selection.
    pub fn new() -> (r: Selection)
        ensures
            r.wf(),
            r.spec_count() == 0,
            r.spec_cursor() == 0,
            r.spec_anchor() is None,
            r.spec_entry_count() == 0,
    {
        Selection { selected: Vec::new(), cursor: 0, anchor: None, entry_count: 0 }
    }

    /// Create a selection with a given entry count.
    pub fn with_count(entry_count: usize) -> (r: Selection)
        ensures
            r.wf(),
            r.spec_count() == 0,
            r.spec_cursor() == 0,
            r.spec_anchor() is None,
            r.spec_entry_count() == entry_count,
    {
        Selection { selected: Vec::new(), cursor: 0, anchor: None, entry_count }
    }

    /// Update the entry count (after listing refresh); the cursor is
    /// clamped to the new range and an out-of-range anchor is dropped.
    pub fn set_entry_count(&mut self, count: usize)
        requires
            old(self).wf(),
        ensures
            final(self).wf(),
            final(self).spec_entry_count() == count,
            final(self).spec_cursor() == (if count == 0 {
                0int
            } else if old(self).spec_cursor() >= count {
                count - 1
            } else {
                old(self).spec_cursor()
            }),
            final(self).spec_paths() == old(self).spec_paths(),
    {
        self.entry_count = count;
        if count == 0 {
            self.cursor = 0;
        } else if self.cursor >= count {
            self.cursor = count - 1;
        }
        match self.anchor {
            Some(a) => {
                if a >= count {
                    self.anchor = None;
                }
            },
            None => {},
        }
    }

    /// Get the current cursor position.
    pub fn cursor(&self) -> (r: usize)
        ensures
            r == self.spec_cursor(),
    {
        self.cursor
    }

    /// Check if an index is the cursor position.
    pub fn is_cursor(&self, index: usize) -> (r: bool)
        ensures
            r == (self.spec_cursor() == index),
    {
        self.cursor == index
    }

    /// Check if a path is selected.
    pub fn is_selected(&self, path: &str) -> (r: bool)
        ensures
            r == self.spec_selected(path@),
    {
        contains_path(&self.selected, path)
    }

    /// Check if an entry is selected by index (requires entry list).
    pub fn is_index_selected(&self, index: usize, entries: &Vec<EntryMeta>) -> (r: bool)
        ensures
            r == (index < entries@.len() && self.spec_selected(entries@[index as int].path@)),
    {
        if index < entries.len() {
            self.is_selected(entries[index].path.as_str())
        } else {
            false
        }
    }

    /// Get the number of selected items.
    pub fn count(&self) -> (r: usize)
        ensures
            r == self.spec_count(),
    {
        self.selected.len()
    }

    /// Check if the selection is empty.
    pub fn is_empty(&self) -> (r: bool)
        ensures
            r == (self.spec_count() == 0),
    {
        self.selected.len() == 0
    }

    /// Get all selected paths.
    pub fn selected_paths(&self) -> (r: Vec<String>)
        ensures
            r@ == self.spec_paths(),
    {
        let mut out: Vec<String> = Vec::new();
        let n = self.selected.len();
        let mut i: usize = 0;
        while i < n
            invariant
                i <= n,
                n == self.selected@.len(),
                out@ =~= self.selected@.take(i as int),
            decreases n - i,
        {
            out.push(self.selected[i].clone());
            i += 1;
        }
        proof {
            assert(self.selected@.take(n as int) =~= self.selected@);
        }
        out
    }

    /// Get the selected entries from a list, in the list's order.
    pub fn selected_entries(&self, entries: &Vec<EntryMeta>) -> (r: Vec<EntryMeta>)
        ensures
            r@ == entries@.filter(selected_pred(*self)),
    {
        let mut out: Vec<EntryMeta> = Vec::new();
        let n = entries.len();
        let mut i: usize = 0;
        proof {
            reveal(Seq::filter);
            assert(entries@.take(0).filter(selected_pred(*self)) =~= Seq::<EntryMeta>::empty());
        }
        while i < n
            invariant
                i <= n,
                n == entries@.len(),
                out@ == entries@.take(i as int).filter(selected_pred(*self)),
            decreases n - i,
        {
            proof {
                reveal(Seq::filter);
                assert(entries@.take(i + 1).drop_last() =~= entries@.take(i as int));
                assert(entries@.take(i + 1).last() == entries@[i as int]);
            }
            if self.is_selected(entries[i].path.as_str()) {
                out.push(entries[i].clone());
            }
            i += 1;
        }
        proof {
            assert(entries@.take(n as int) =~= entries@);
        }
        out
    }

    /// Move cursor up.
    pub fn move_up(&mut self)
        requires
            old(self).wf(),
        ensures
            final(self).wf(),
            final(self).spec_cursor() == (if old(self).spec_cursor() > 0 {
                old(self).spec_cursor() - 1
            } else {
                0int
            }),
            final(self).spec_anchor() is None,
            final(self).spec_paths() == old(self).spec_paths(),
            final(self).spec_entry_count() == old(self).spec_entry_count(),
    {
        if self.cursor > 0 {
            self.cursor = self.cursor - 1;
        }
        self.anchor = None;
    }

    /// Move cursor down.
    pub fn move_down(&mut self)
        requires
            old(self).wf(),
        ensures
            final(self).wf(),
            final(self).spec_cursor() == (if old(self).spec_cursor() + 1 < old(
                self,
            ).spec_entry_count() {
                old(self).spec_cursor() + 1
            } else {
                old(self).spec_cursor()
            }),
            final(self).spec_anchor() is None,
            final(self).spec_paths() == old(self).spec_paths(),
            final(self).spec_entry_count() == old(self).spec_entry_count(),
    {
        if self.cursor + 1 < self.entry_count {
            self.cursor = self.cursor + 1;
        }
        self.anchor = None;
    }

    /// Move cursor to the first entry.
    pub fn move_to_first(&mut self)
        requires
            old(self).wf(),
        ensures
            final(self).wf(),
            final(self).spec_cursor() == 0,
            final(self).spec_anchor() is None,
            final(self).spec_paths() == old(self).spec_paths(),
            final(self).spec_entry_count() == old(self).spec_entry_count(),
    {
        self.cursor = 0;
        self.anchor = None;
    }

    /// Move cursor to the last entry.
    pub fn move_to_last(&mut self)
        requires
            old(self).wf(),
        ensures
            final(self).wf(),
            final(self).spec_cursor() == (if old(self).spec_entry_count() > 0 {
                old(self).spec_entry_count() - 1
            } else {
                old(self).spec_cursor()
            }),
            final(self).spec_anchor() is None,
            final(self).spec_paths() == old(self).spec_paths(),
            final(self).spec_entry_count() == old(self).spec_entry_count(),
    {
        if self.entry_count > 0 {
            self.cursor = self.entry_count - 1;
        }
        self.anchor = None;
    }

    /// Move cursor up by a page; at the top it stays put.
    pub fn page_up(&mut self, page_size: usize)
        requires
            old(self).wf(),
        ensures
            final(self).wf(),
            final(self).spec_cursor() == (if old(self).spec_cursor() >= page_size {
                old(self).spec_cursor() - page_size
            } else {
                0int
            }),
            final(self).spec_anchor() is None,
            final(self).spec_paths() == old(self).spec_paths(),
            final(self).spec_entry_count() == old(self).spec_entry_count(),
    {
        if self.cursor >= page_size {
            self.cursor = self.cursor - page_size;
        } else {
            self.cursor = 0;
        }
        self.anchor = None;
    }

    /// Move cursor down by a page; at the last entry it stays put.
    pub fn page_down(&mut self, page_size: usize)
        requires
            old(self).wf(),
            old(self).spec_cursor() + page_size <= usize::MAX,
        ensures
            final(self).wf(),
            final(self).spec_cursor() == (if old(self).spec_entry_count() == 0 {
                old(self).spec_cursor()
            } else if old(self).spec_cursor() + page_size < old(self).spec_entry_count() {
                old(self).spec_cursor() + page_size
            } else {
                old(self).spec_entry_count() - 1
            }),
            final(self).spec_anchor() is None,
            final(self).spec_paths() == old(self).spec_paths(),
            final(self).spec_entry_count() == old(self).spec_entry_count(),
    {
        if self.entry_count > 0 {
            let target = self.cursor + page_size;
            if target < self.entry_count {
                self.cursor = target;
            } else {
                self.cursor = self.entry_count - 1;
            }
        }
        self.anchor = None;
    }

    /// Set cursor to a specific position; out-of-range positions are
    /// ignored.
    pub fn set_cursor(&mut self, index: usize)
        requires
            old(self).wf(),
        ensures
            final(self).wf(),
            final(self).spec_cursor() == (if index < old(self).spec_entry_count() {
                index as int
            } else {
                old(self).spec_cursor()
            }),
            index < old(self).spec_entry_count() ==> final(self).spec_anchor() is None,
            index >= old(self).spec_entry_count() ==> final(self).spec_anchor() == old(
                self,
            ).spec_anchor(),
            final(self).spec_paths() == old(self).spec_paths(),
            final(self).spec_entry_count() == old(self).spec_entry_count(),
    {
        if index < self.entry_count {
            self.cursor = index;
            self.anchor = None;
        }
    }

    /// Toggle selection of the entry at cursor.
    pub fn toggle_at_cursor(&mut self, entries: &Vec<EntryMeta>)
        requires
            old(self).wf(),
        ensures
            final(self).wf(),
            old(self).spec_cursor() < entries@.len() ==> {
                let p = entries@[old(self).spec_cursor()].path@;
                &&& final(self).spec_selected(p) == !old(self).spec_selected(p)
                &&& forall|q: Seq<char>|
                    q != p ==> final(self).spec_selected(q) == old(self).spec_selected(q)
            },
            old(self).spec_cursor() >= entries@.len() ==> final(self).spec_paths() == old(self).spec_paths(),
            final(self).spec_cursor() == old(self).spec_cursor(),
            final(self).spec_anchor() == old(self).spec_anchor(),
            final(self).spec_entry_count() == old(self).spec_entry_count(),
    {
        if self.cursor < entries.len() {
            let path = entries[self.cursor].path.clone();
            self.toggle(path.as_str());
        }
    }

    /// Toggle selection of a path.
    pub fn toggle(&mut self, path: &str)
        requires
            old(self).wf(),
        ensures
            final(self).wf(),
            final(self).spec_selected(path@) == !old(self).spec_selected(path@),
            forall|q: Seq<char>|
                q != path@ ==> final(self).spec_selected(q) == old(self).spec_selected(q),
            final(self).spec_cursor() == old(self).spec_cursor(),
            final(self).spec_anchor() == old(self).spec_anchor(),
            final(self).spec_entry_count() == old(self).spec_entry_count(),
    {
        if contains_path(&self.selected, path) {
            remove_path(&mut self.selected, path);
        } else {
            let owned = path.to_owned();
            proof {
                lemma_holds_path_push(self.selected@, owned);
            }
            self.selected.push(owned);
            proof {
                assert(self.selected@.take(self.selected@.len() - 1) =~= old(self).selected@);
                lemma_push_keeps_distinct(self.selected@);
            }
        }
    }

    /// Select a single path (clear others first).
    pub fn select_single(&mut self, path: &str)
        requires
            old(self).wf(),
        ensures
            final(self).wf(),
            final(self).spec_selected(path@),
            forall|q: Seq<char>| q != path@ ==> !final(self).spec_selected(q),
            final(self).spec_count() == 1,
            final(self).spec_cursor() == old(self).spec_cursor(),
            final(self).spec_anchor() == old(self).spec_anchor(),
            final(self).spec_entry_count() == old(self).spec_entry_count(),
    {
        self.selected = Vec::new();
        let owned = path.to_owned();
        proof {
            lemma_holds_path_push(self.selected@, owned);
        }
        self.selected.push(owned);
    }

    /// Select the entry at cursor (single selection).
    pub fn select_at_cursor(&mut self, entries: &Vec<EntryMeta>)
        requires
            old(self).wf(),
        ensures
            final(self).wf(),
            old(self).spec_cursor() < entries@.len() ==> {
                let p = entries@[old(self).spec_cursor()].path@;
                &&& final(self).spec_selected(p)
                &&& forall|q: Seq<char>| q != p ==> !final(self).spec_selected(q)
            },
            old(self).spec_cursor() >= entries@.len() ==> final(self).spec_paths() == old(self).spec_paths(),
            final(self).spec_cursor() == old(self).spec_cursor(),
            final(self).spec_entry_count() == old(self).spec_entry_count(),
    {
        if self.cursor < entries.len() {
            let path = entries[self.cursor].path.clone();
            self.select_single(path.as_str());
        }
    }

    /// Add a path to the selection.
    pub fn add(&mut self, path: &str)
        requires
            old(self).wf(),
        ensures
            final(self).wf(),
            final(self).spec_selected(path@),
            forall|q: Seq<char>|
                q != path@ ==> final(self).spec_selected(q) == old(self).spec_selected(q),
            final(self).spec_cursor() == old(self).spec_cursor(),
            final(self).spec_anchor() == old(self).spec_anchor(),
            final(self).spec_entry_count() == old(self).spec_entry_count(),
    {
        if !contains_path(&self.selected, path) {
            let ghost pre = self.selected@;
            let owned = path.to_owned();
            proof {
                lemma_holds_path_push(self.selected@, owned);
            }
            self.selected.push(owned);
            proof {
                assert(self.selected@.take(self.selected@.len() - 1) =~= pre);
                lemma_push_keeps_distinct(self.selected@);
            }
        }
    }

    /// Remove a path from the selection.
    pub fn remove(&mut self, path: &str)
        requires
            old(self).wf(),
        ensures
            final(self).wf(),
            !final(self).spec_selected(path@),
            forall|q: Seq<char>|
                q != path@ ==> final(self).spec_selected(q) == old(self).spec_selected(q),
            final(self).spec_cursor() == old(self).spec_cursor(),
            final(self).spec_anchor() == old(self).spec_anchor(),
            final(self).spec_entry_count() == old(self).spec_entry_count(),
    {
        if contains_path(&self.selected, path) {
            remove_path(&mut self.selected, path);
        }
    }

    /// Select all entries.
    pub fn select_all(&mut self, entries: &Vec<EntryMeta>)
        requires
            old(self).wf(),
        ensures
            final(self).wf(),
            forall|q: Seq<char>|
                final(self).spec_selected(q) <==> (exists|i: int|
                    0 <= i < entries@.len() && (#[trigger] entries@[i]).path@ == q),
            final(self).spec_cursor() == old(self).spec_cursor(),
            final(self).spec_anchor() == old(self).spec_anchor(),
            final(self).spec_entry_count() == old(self).spec_entry_count(),
    {
        self.selected = Vec::new();
        let n = entries.len();
        let mut i: usize = 0;
        while i < n
            invariant
                i <= n,
                n == entries@.len(),
                self.wf(),
                self.cursor == old(self).cursor,
                self.anchor == old(self).anchor,
                self.entry_count == old(self).entry_count,
                forall|q: Seq<char>|
                    self.spec_selected(q) <==> (exists|k: int|
                        0 <= k < i && (#[trigger] entries@[k]).path@ == q),
            decreases n - i,
        {
            let ghost pre = *self;
            self.add(entries[i].path.as_str());
            proof {
                assert forall|q: Seq<char>| self.spec_selected(q) implies (exists|k: int|
                    0 <= k < i + 1 && (#[trigger] entries@[k]).path@ == q) by {
                    if q == entries@[i as int].path@ {
                        assert(entries@[i as int].path@ == q);
                    } else {
                        assert(pre.spec_selected(q));
                    }
                }
            }
            i += 1;
        }
    }

    /// Clear the selection.
    pub fn clear(&mut self)
        requires
            old(self).wf(),
        ensures
            final(self).wf(),
            final(self).spec_count() == 0,
            forall|q: Seq<char>| !final(self).spec_selected(q),
            final(self).spec_anchor() is None,
            final(self).spec_cursor() == old(self).spec_cursor(),
            final(self).spec_entry_count() == old(self).spec_entry_count(),
    {
        self.selected = Vec::new();
        self.anchor = None;
    }

    /// Invert the selection with respect to an entry list.
    pub fn invert(&mut self, entries: &Vec<EntryMeta>)
        requires
            old(self).wf(),
        ensures
            final(self).wf(),
            forall|q: Seq<char>|
                final(self).spec_selected(q) <==> ((exists|i: int|
                    0 <= i < entries@.len() && (#[trigger] entries@[i]).path@ == q) && !old(
                    self,
                ).spec_selected(q)),
            final(self).spec_cursor() == old(self).spec_cursor(),
            final(self).spec_anchor() == old(self).spec_anchor(),
            final(self).spec_entry_count() == old(self).spec_entry_count(),
    {
        let mut fresh: Vec<String> = Vec::new();
        let n = entries.len();
        let mut i: usize = 0;
        while i < n
            invariant
                i <= n,
                n == entries@.len(),
                forall|a: int, b: int|
                    0 <= a < b < fresh@.len() ==> (#[trigger] fresh@[a])@ != (
                    #[trigger] fresh@[b])@,
                forall|q: Seq<char>|
                    #[trigger] holds_path(fresh@, q) <==> ((exists|k: int|
                        0 <= k < i && (#[trigger] entries@[k]).path@ == q) && !old(
                        self,
                    ).spec_selected(q)),
            decreases n - i,
        {
            let ghost prefresh = fresh@;
            let was_selected = self.is_selected(entries[i].path.as_str());
            let in_fresh = contains_path(&fresh, entries[i].path.as_str());
            if !was_selected && !in_fresh {
                let owned = entries[i].path.clone();
                proof {
                    lemma_holds_path_push(fresh@, owned);
                }
                fresh.push(owned);
                proof {
                    assert(fresh@.take(fresh@.len() - 1) =~= prefresh);
                    lemma_push_keeps_distinct(fresh@);
                }
            }
            proof {
                assert forall|q: Seq<char>|
                    #[trigger] holds_path(fresh@, q) <==> ((exists|k: int|
                        0 <= k < i + 1 && (#[trigger] entries@[k]).path@ == q) && !old(
                        self,
                    ).spec_selected(q)) by {
                    let p = entries@[i as int].path@;
                    if holds_path(fresh@, q) {
                        if holds_path(prefresh, q) {
                        } else {
                            assert(q == p);
                            assert(entries@[i as int].path@ == q);
                        }
                    }
                    if ((exists|k: int|
                        0 <= k < i + 1 && (#[trigger] entries@[k]).path@ == q) && !old(
                        self,
                    ).spec_selected(q)) {
                        let k = choose|k: int|
                            0 <= k < i + 1 && (#[trigger] entries@[k]).path@ == q;
                        if k < i {
                            assert(holds_path(prefresh, q));
                        } else {
                            assert(q == p);
                            if was_selected || in_fresh {
                                assert(holds_path(prefresh, q) || old(self).spec_selected(q));
                            }
                        }
                    }
                }
            }
            i += 1;
        }
        self.selected = fresh;
    }

    /// Select range between two positions (inclusive, either order); the
    /// range's paths join the selection.
    pub fn select_range(&mut self, entries: &Vec<EntryMeta>, from: usize, to: usize)
        requires
            old(self).wf(),
        ensures
            final(self).wf(),
            forall|q: Seq<char>|
                final(self).spec_selected(q) <==> (old(self).spec_selected(q) || (exists|k: int|
                    range_lo(from as int, to as int) <= k <= range_hi(from as int, to as int) && 0
                        <= k < entries@.len() && (#[trigger] entries@[k]).path@ == q)),
            final(self).spec_cursor() == old(self).spec_cursor(),
            final(self).spec_anchor() == old(self).spec_anchor(),
            final(self).spec_entry_count() == old(self).spec_entry_count(),
    {
        let (start, end) = if from <= to {
            (from, to)
        } else {
            (to, from)
        };
        let n = entries.len();
        let mut k: usize = if start > n {
            n
        } else {
            start
        };
        while k < n && k <= end
            invariant
                k <= n,
                k <= end + 1,
                n == entries@.len(),
                start <= end,
                start > n ==> k == n,
                start <= n ==> start <= k,
                range_lo(from as int, to as int) == start as int,
                range_hi(from as int, to as int) == end as int,
                self.wf(),
                self.cursor == old(self).cursor,
                self.anchor == old(self).anchor,
                self.entry_count == old(self).entry_count,
                forall|q: Seq<char>|
                    self.spec_selected(q) <==> (old(self).spec_selected(q) || (exists|j: int|
                        start <= j < k && 0 <= j < entries@.len() && (
                        #[trigger] entries@[j]).path@ == q)),
            decreases n - k,
        {
            let ghost pre = *self;
            self.add(entries[k].path.as_str());
            proof {
                assert forall|q: Seq<char>|
                    self.spec_selected(q) <==> (old(self).spec_selected(q) || (exists|j: int|
                        start <= j < k + 1 && 0 <= j < entries@.len() && (
                        #[trigger] entries@[j]).path@ == q)) by {
                    let p = entries@[k as int].path@;
                    if self.spec_selected(q) {
                        if q == p {
                            assert(entries@[k as int].path@ == q);
                        } else {
                            assert(pre.spec_selected(q));
                        }
                    }
                    if (old(self).spec_selected(q) || (exists|j: int|
                        start <= j < k + 1 && 0 <= j < entries@.len() && (
                        #[trigger] entries@[j]).path@ == q)) {
                        if old(self).spec_selected(q) {
                            assert(pre.spec_selected(q));
                        } else {
                            let j = choose|j: int|
                                start <= j < k + 1 && 0 <= j < entries@.len() && (
                                #[trigger] entries@[j]).path@ == q;
                            if j < k {
                                assert(pre.spec_selected(q));
                            } else {
                                assert(q == p);
                            }
                        }
                        if q == p {
                            assert(self.spec_selected(p));
                        }
                    }
                }
            }
            k += 1;
        }
        proof {
            assert forall|q: Seq<char>|
                self.spec_selected(q) <==> (old(self).spec_selected(q) || (exists|j: int|
                    range_lo(from as int, to as int) <= j <= range_hi(from as int, to as int) && 0
                        <= j < entries@.len() && (#[trigger] entries@[j]).path@ == q)) by {
                if self.spec_selected(q) && !old(self).spec_selected(q) {
                    let j = choose|j: int|
                        start <= j < k && 0 <= j < entries@.len() && (
                        #[trigger] entries@[j]).path@ == q;
                    assert(j <= end);
                }
                if (exists|j: int|
                    start as int <= j <= end as int && 0 <= j < entries@.len() && (
                    #[trigger] entries@[j]).path@ == q) {
                    let j = choose|j: int|
                        start as int <= j <= end as int && 0 <= j < entries@.len() && (
                        #[trigger] entries@[j]).path@ == q;
                    assert(j < k);
                }
            }
        }
    }

    /// Click on an entry (for mouse interaction).
    ///
    /// Plain click selects the one entry and seeds the anchor; Ctrl
    /// toggles; Shift reseeds the range from the anchor (or cursor);
    /// Ctrl+Shift adds the range to the selection.
    pub fn click(&mut self, index: usize, entries: &Vec<EntryMeta>, modifiers: ClickModifiers)
        requires
            old(self).wf(),
            old(self).spec_entry_count() == entries@.len(),
        ensures
            final(self).wf(),
            index < entries@.len() ==> final(self).spec_cursor() == index,
            index >= entries@.len() ==> *final(self) == *old(self),
            index < entries@.len() && !modifiers.ctrl && !modifiers.shift ==> {
                let p = entries@[index as int].path@;
                &&& final(self).spec_selected(p)
                &&& forall|q: Seq<char>| q != p ==> !final(self).spec_selected(q)
                &&& final(self).spec_anchor() == Some(index as int)
            },
            index < entries@.len() && modifiers.ctrl && !modifiers.shift ==> {
                let p = entries@[index as int].path@;
                &&& final(self).spec_selected(p) == !old(self).spec_selected(p)
                &&& forall|q: Seq<char>|
                    q != p ==> final(self).spec_selected(q) == old(self).spec_selected(q)
            },
            // shift reseeds the selection to the range between the anchor
            // (or cursor) and the clicked entry
            index < entries@.len() && !modifiers.ctrl && modifiers.shift ==> {
                let a0: int = match old(self).spec_anchor() {
                    Some(a) => a,
                    None => old(self).spec_cursor(),
                };
                &&& forall|q: Seq<char>|
                    final(self).spec_selected(q) <==> (exists|k: int|
                        range_lo(a0, index as int) <= k <= range_hi(a0, index as int) && 0 <= k
                            < entries@.len() && (#[trigger] entries@[k]).path@ == q)
                &&& final(self).spec_anchor() == old(self).spec_anchor()
            },
            // ctrl+shift unions that range into the selection
            index < entries@.len() && modifiers.ctrl && modifiers.shift ==> {
                let a0: int = match old(self).spec_anchor() {
                    Some(a) => a,
                    None => old(self).spec_cursor(),
                };
                &&& forall|q: Seq<char>|
                    final(self).spec_selected(q) <==> (old(self).spec_selected(q) || (exists|
                        k: int|
                        range_lo(a0, index as int) <= k <= range_hi(a0, index as int) && 0 <= k
                            < entries@.len() && (#[trigger] entries@[k]).path@ == q))
                &&& final(self).spec_anchor() == old(self).spec_anchor()
            },
    {
        if index >= entries.len() {
            return ;
        }
        if modifiers.ctrl && !modifiers.shift {
            // Ctrl+Click: toggle selection
            let path = entries[index].path.clone();
            self.toggle(path.as_str());
            self.cursor = index;
        } else if !modifiers.ctrl && modifiers.shift {
            // Shift+Click: reseed the range from anchor (or cursor)
            let anchor = match self.anchor {
                Some(a) => a,
                None => self.cursor,
            };
            self.selected = Vec::new();
            proof {
                assert(forall|q: Seq<char>| !self.spec_selected(q));
            }
            let ghost a0: int = anchor as int;
            let ghost pre = *self;
            self.select_range(entries, anchor, index);
            let ghost mid = *self;
            self.cursor = index;
            proof {
                assert forall|q: Seq<char>|
                    self.spec_selected(q) <==> (exists|k: int|
                        range_lo(a0, index as int) <= k <= range_hi(a0, index as int) && 0 <= k
                            < entries@.len() && (#[trigger] entries@[k]).path@ == q) by {
                    assert(mid.spec_selected(q) <==> (pre.spec_selected(q) || (exists|k: int|
                        range_lo(a0, index as int) <= k <= range_hi(a0, index as int) && 0 <= k
                            < entries@.len() && (#[trigger] entries@[k]).path@ == q)));
                    assert(self.spec_selected(q) == mid.spec_selected(q));
                    assert(!pre.spec_selected(q));
                }
            }
        } else if modifiers.ctrl && modifiers.shift {
            // Ctrl+Shift+Click: add the range to the selection
            let anchor = match self.anchor {
                Some(a) => a,
                None => self.cursor,
            };
            let ghost a0: int = anchor as int;
            let ghost pre = *self;
            self.select_range(entries, anchor, index);
            let ghost mid = *self;
            self.cursor = index;
            proof {
                assert forall|q: Seq<char>|
                    self.spec_selected(q) <==> (pre.spec_selected(q) || (exists|k: int|
                        range_lo(a0, index as int) <= k <= range_hi(a0, index as int) && 0 <= k
                            < entries@.len() && (#[trigger] entries@[k]).path@ == q)) by {
                    assert(mid.spec_selected(q) <==> (pre.spec_selected(q) || (exists|k: int|
                        range_lo(a0, index as int) <= k <= range_hi(a0, index as int) && 0 <= k
                            < entries@.len() && (#[trigger] entries@[k]).path@ == q)));
                    assert(self.spec_selected(q) == mid.spec_selected(q));
                    assert(pre.spec_selected(q) == old(self).spec_selected(q));
                }
                assert(self.spec_anchor() == old(self).spec_anchor());
                assert forall|q: Seq<char>|
                    self.spec_selected(q) <==> (old(self).spec_selected(q) || (exists|k: int|
                        range_lo(a0, index as int) <= k <= range_hi(a0, index as int) && 0 <= k
                            < entries@.len() && (#[trigger] entries@[k]).path@ == q)) by {
                    assert(self.spec_selected(q) <==> (pre.spec_selected(q) || (exists|k: int|
                        range_lo(a0, index as int) <= k <= range_hi(a0, index as int) && 0 <= k
                            < entries@.len() && (#[trigger] entries@[k]).path@ == q)));
                    assert(pre.spec_selected(q) == old(self).spec_selected(q));
                }
            }
        } else {
            // Plain click: single selection
            let path = entries[index].path.clone();
            self.selected = Vec::new();
            proof {
                lemma_holds_path_push(self.selected@, path);
            }
            self.selected.push(path);
            self.cursor = index;
            self.anchor = Some(index);
        }
    }

    /// Move cursor up with selection extension (Shift+Up): the anchor is
    /// seeded at the cursor if absent, and the selection becomes the range
    /// between anchor and cursor.
    pub fn move_up_extend(&mut self, entries: &Vec<EntryMeta>)
        requires
            old(self).wf(),
        ensures
            final(self).wf(),
            final(self).spec_cursor() == (if old(self).spec_cursor() > 0 {
                old(self).spec_cursor() - 1
            } else {
                old(self).spec_cursor()
            }),
            final(self).spec_entry_count() == old(self).spec_entry_count(),
    {
        if self.anchor.is_none() {
            if self.entry_count > 0 {
                self.anchor = Some(self.cursor);
            }
        }
        if self.cursor > 0 {
            self.cursor = self.cursor - 1;
            self.update_range_selection(entries);
        }
    }

    /// Move cursor down with selection extension (Shift+Down).
    pub fn move_down_extend(&mut self, entries: &Vec<EntryMeta>)
        requires
            old(self).wf(),
        ensures
            final(self).wf(),
            final(self).spec_cursor() == (if old(self).spec_cursor() + 1 < old(
                self,
            ).spec_entry_count() {
                old(self).spec_cursor() + 1
            } else {
                old(self).spec_cursor()
            }),
            final(self).spec_entry_count() == old(self).spec_entry_count(),
    {
        if self.anchor.is_none() {
            if self.entry_count > 0 {
                self.anchor = Some(self.cursor);
            }
        }
        if self.cursor + 1 < self.entry_count {
            self.cursor = self.cursor + 1;
            self.update_range_selection(entries);
        }
    }

    /// Reseed the selection as the range between anchor and cursor.
    fn update_range_selection(&mut self, entries: &Vec<EntryMeta>)
        requires
            old(self).wf(),
        ensures
            final(self).wf(),
            final(self).spec_cursor() == old(self).spec_cursor(),
            final(self).spec_anchor() == old(self).spec_anchor(),
            final(self).spec_entry_count() == old(self).spec_entry_count(),
    {
        match self.anchor {
            Some(anchor) => {
                self.selected = Vec::new();
                let cur = self.cursor;
                self.select_range(entries, anchor, cur);
            },
            None => {},
        }
    }

    /// Get the entry at cursor, if any.
    pub fn cursor_entry<'a>(&self, entries: &'a Vec<EntryMeta>) -> (r: Option<&'a EntryMeta>)
        ensures
            match r {
                Some(e) => self.spec_cursor() < entries@.len() && *e == entries@[self.spec_cursor()],
                None => self.spec_cursor() >= entries@.len(),
            },
    {
        if self.cursor < entries.len() {
            Some(&entries[self.cursor])
        } else {
            None
        }
    }

    /// Get the entries to operate on: the selected ones, or the cursor
    /// entry if nothing is selected — the contract for what the next
    /// command acts on.
    pub fn operation_targets(&self, entries: &Vec<EntryMeta>) -> (r: Vec<EntryMeta>)
        ensures
            self.spec_count() > 0 ==> r@ == entries@.filter(selected_pred(*self)),
            self.spec_count() == 0 && self.spec_cursor() < entries@.len() ==> r@ == seq![
                entries@[self.spec_cursor()],
            ],
            self.spec_count() == 0 && self.spec_cursor() >= entries@.len() ==> r@.len() == 0,
    {
        if self.selected.len() == 0 {
            let mut out: Vec<EntryMeta> = Vec::new();
            if self.cursor < entries.len() {
                out.push(entries[self.cursor].clone());
            }
            out
        } else {
            self.selected_entries(entries)
        }
    }
}

/// The lower end of an inclusive range given in either order.
pub open spec fn range_lo(a: int, b: int) -> int {
    if a <= b {
        a
    } else {
        b
    }
}

/// The upper end of an inclusive range given in either order.
pub open spec fn range_hi(a: int, b: int) -> int {
    if a <= b {
        b
    } else {
        a
    }
}

/// Membership of an entry's path in a selection, as a predicate value.
pub open spec fn selected_pred(s: Selection) -> spec_fn(EntryMeta) -> bool {
    |e: EntryMeta| s.spec_selected(e.path@)
}

/// Checks whether the list holds `path`.
fn contains_path(v: &Vec<String>, path: &str) -> (r: bool)
    ensures
        r == holds_path(v@, path@),
{
    let n = v.len();
    let mut i: usize = 0;
    while i < n
        invariant
            i <= n,
            n == v@.len(),
            forall|k: int| 0 <= k < i ==> (#[trigger] v@[k])@ != path@,
        decreases n - i,
    {
        if crate::text::str_eq(v[i].as_str(), path) {
            return true;
        }
        i += 1;
    }
    false
}

/// A list whose prefix is duplicate-free and whose last element is new is
/// duplicate-free as a whole.
proof fn lemma_push_keeps_distinct(w: Seq<String>)
    requires
        w.len() >= 1,
        forall|i: int, j: int|
            0 <= i < j < w.len() - 1 ==> (#[trigger] w[i])@ != (#[trigger] w[j])@,
        !holds_path(w.take(w.len() - 1), w.last()@),
    ensures
        forall|i: int, j: int| 0 <= i < j < w.len() ==> (#[trigger] w[i])@ != (#[trigger] w[j])@,
{
    let pre = w.take(w.len() - 1);
    assert forall|i: int, j: int| 0 <= i < j < w.len() implies (#[trigger] w[i])@ != (
    #[trigger] w[j])@ by {
        if j == w.len() - 1 {
            assert(pre[i] == w[i]);
            if w[i]@ == w.last()@ {
                assert(holds_path(pre, w.last()@));
            }
        }
    }
}

/// Removes the first occurrence of `path` from a duplicate-free list.
fn remove_path(v: &mut Vec<String>, path: &str)
    requires
        forall|i: int, j: int|
            0 <= i < j < old(v)@.len() ==> (#[trigger] old(v)@[i])@ != (#[trigger] old(v)@[j])@,
        holds_path(old(v)@, path@),
    ensures
        forall|i: int, j: int|
            0 <= i < j < final(v)@.len() ==> (#[trigger] final(v)@[i])@ != (
            #[trigger] final(v)@[j])@,
        !holds_path(final(v)@, path@),
        forall|q: Seq<char>|
            q != path@ ==> holds_path(final(v)@, q) == holds_path(old(v)@, q),
        final(v)@.len() == old(v)@.len() - 1,
{
    let n = v.len();
    let mut i: usize = 0;
    while i < n
        invariant
            i <= n,
            v@ == old(v)@,
            n == v@.len(),
            holds_path(v@, path@),
            forall|a: int, b: int|
                0 <= a < b < v@.len() ==> (#[trigger] v@[a])@ != (#[trigger] v@[b])@,
            forall|k: int| 0 <= k < i ==> (#[trigger] v@[k])@ != path@,
        decreases n - i,
    {
        if crate::text::str_eq(v[i].as_str(), path) {
            let ghost pre = v@;
            v.remove(i);
            proof {
                pre.remove_ensures(i as int);
                assert forall|t: int| 0 <= t < v@.len() implies v@[t] == (if t < i as int {
                    pre[t]
                } else {
                    pre[t + 1]
                }) by {
                    assert(v@ == pre.subrange(0, i as int) + pre.subrange(
                        i + 1,
                        pre.len() as int,
                    ));
                }
                assert forall|i2: int, j2: int|
                    0 <= i2 < j2 < v@.len() implies (#[trigger] v@[i2])@ != (#[trigger] v@[j2])@ by {
                    let oi = if i2 < i as int {
                        i2
                    } else {
                        i2 + 1
                    };
                    let oj = if j2 < i as int {
                        j2
                    } else {
                        j2 + 1
                    };
                    assert(v@[i2] == (if i2 < i as int {
                        pre[i2]
                    } else {
                        pre[i2 + 1]
                    }));
                    assert(v@[j2] == (if j2 < i as int {
                        pre[j2]
                    } else {
                        pre[j2 + 1]
                    }));
                    assert(pre.len() == v@.len() + 1);
                    assert(0 <= oi < oj < pre.len());
                    assert((pre[oi])@ != (pre[oj])@);
                    assert(v@[i2] == pre[oi]);
                    assert(v@[j2] == pre[oj]);
                    assert((pre[oi])@ != (pre[oj])@);
                }
                assert forall|q: Seq<char>| q != path@ implies holds_path(v@, q) == holds_path(
                    pre,
                    q,
                ) by {
                    if holds_path(pre, q) {
                        let w = choose|w: int| 0 <= w < pre.len() && (#[trigger] pre[w])@ == q;
                        if w < i as int {
                            assert(v@[w] == pre[w]);
                        } else {
                            assert(v@[w - 1] == pre[w]);
                        }
                    }
                    if holds_path(v@, q) {
                        let w = choose|w: int| 0 <= w < v@.len() && (#[trigger] v@[w])@ == q;
                        if w < i as int {
                            assert(pre[w] == v@[w]);
                        } else {
                            assert(pre[w + 1] == v@[w]);
                        }
                    }
                }
                if holds_path(v@, path@) {
                    let w = choose|w: int| 0 <= w < v@.len() && (#[trigger] v@[w])@ == path@;
                    assert(v@[w] == (if w < i as int {
                        pre[w]
                    } else {
                        pre[w + 1]
                    }));
                    if w < i as int {
                        assert((pre[w])@ != path@);
                    } else {
                        assert((pre[w + 1])@ == path@);
                        assert((pre[i as int])@ == path@);
                    }
                    assert(false);
                }
            }
            return ;
        }
        i += 1;
    }
    proof {
        let w = choose|w: int| 0 <= w < v@.len() && (#[trigger] v@[w])@ == path@;
        assert((v@[w])@ != path@);
        assert(false);
    }
}

} // verus!
