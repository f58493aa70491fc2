//! Navigation state and history management.

use vstd::prelude::*;
use crate::entry::DirListing;
use crate::filter::FilterSpec;
use crate::sort::{SortField, SortSpec};

verus! {

/// Maximum history size to prevent unbounded memory growth.
pub const MAX_HISTORY_SIZE: usize = 100;

/// A history stack after a bounded push: the new entry goes on top, and
/// when the stack is full the oldest entry falls off the bottom.
pub open spec fn push_trimmed(st: Seq<Seq<char>>, x: Seq<char>) -> Seq<Seq<char>> {
    if st.len() < MAX_HISTORY_SIZE {
        st.push(x)
    } else {
        st.skip(1).push(x)
    }
}

/// A bounded push keeps the bound.
pub proof fn lemma_push_trimmed_bounded(st: Seq<Seq<char>>, x: Seq<char>)
    requires
        st.len() <= MAX_HISTORY_SIZE,
    ensures
        push_trimmed(st, x).len() <= MAX_HISTORY_SIZE,
        push_trimmed(st, x).len() > 0,
{
}

/// What a navigation pushes is exactly what the next step back returns:
/// after a bounded push of the prior current path, the top of the stack is
/// that path.
pub proof fn lemma_navigate_then_back(st: Seq<Seq<char>>, cur: Seq<char>)
    ensures
        push_trimmed(st, cur).len() > 0,
        push_trimmed(st, cur).last() == cur,
{
}

/// Navigation state for a single pane.
#[derive(Debug, Clone)]
pub struct NavigationState {
    /// Current directory path.
    current_path: String,
    /// Back history stack (most recent at the end).
    back_stack: Vec<String>,
    /// Forward history stack (most recent at the end).
    forward_stack: Vec<String>,
    /// Current sort specification.
    pub sort: SortSpec,
    /// Current filter specification.
    pub filter: FilterSpec,
    /// Cached directory listing (invalidated on navigation or refresh).
    cached_listing: Option<DirListing>,
}

impl NavigationState {
    /// Both history stacks stay within the bound.
    pub closed spec fn wf(&self) -> bool {
        &&& self.back_stack@.len() <= MAX_HISTORY_SIZE
        &&& self.forward_stack@.len() <= MAX_HISTORY_SIZE
    }

    /// The history bound, visible to callers: a well-formed navigation
    /// state never holds more than the maximum on either stack.
    pub proof fn lemma_history_bounded(&self)
        requires
            self.wf(),
        ensures
            self.spec_back().len() <= MAX_HISTORY_SIZE,
            self.spec_forward().len() <= MAX_HISTORY_SIZE,
    {
    }

    /// The current path.
    pub closed spec fn spec_current(&self) -> Seq<char> {
        self.current_path@
    }

    /// The back stack as path views, most recent last.
    pub closed spec fn spec_back(&self) -> Seq<Seq<char>> {
        self.back_stack@.map_values(|s: String| s@)
    }

    /// The forward stack as path views, most recent last.
    pub closed spec fn spec_forward(&self) -> Seq<Seq<char>> {
        self.forward_stack@.map_values(|s: String| s@)
    }

    /// The cached listing, if one is held.
    pub closed spec fn spec_cached(&self) -> Option<DirListing> {
        self.cached_listing
    }

    /// The sort specification in force.
    pub closed spec fn spec_sort(&self) -> SortSpec {
        self.sort
    }

    /// The filter specification in force.
    pub closed spec fn spec_filter(&self) -> FilterSpec {
        self.filter
    }

    /// Create a new navigation state starting at the given path.
    pub fn new(start_path: String) -> (r: NavigationState)
        ensures
            r.wf(),
            r.spec_current() == start_path@,
            r.spec_back().len() == 0,
            r.spec_forward().len() == 0,
            r.spec_cached() is None,
            r.spec_sort().field is Name && r.spec_sort().order is Ascending && r.spec_sort().directories_first,
            r.spec_filter().is_default_spec(),
    {
        let r = NavigationState {
            current_path: start_path,
            back_stack: Vec::new(),
            forward_stack: Vec::new(),
            sort: SortSpec {
                field: SortField::Name,
                order: crate::sort::SortOrder::Ascending,
                directories_first: true,
            },
            filter: FilterSpec::new(),
            cached_listing: None,
        };
        proof {
            assert(r.spec_back() =~= Seq::<Seq<char>>::empty());
            assert(r.spec_forward() =~= Seq::<Seq<char>>::empty());
        }
        r
    }

    /// Get the current directory path.
    pub fn current_path(&self) -> (r: &String)
        ensures
            r@ == self.spec_current(),
    {
        &self.current_path
    }

    /// Check if we can go back.
    pub fn can_go_back(&self) -> (r: bool)
        ensures
            r == (self.spec_back().len() > 0),
    {
        self.back_stack.len() > 0
    }

    /// Check if we can go forward.
    pub fn can_go_forward(&self) -> (r: bool)
        ensures
            r == (self.spec_forward().len() > 0),
    {
        self.forward_stack.len() > 0
    }

    /// Check if we can go to the parent directory.
    pub fn can_go_up(&self) -> (r: bool)
        ensures
            r == (crate::paths::spec_parent(self.spec_current()) is Some),
    {
        match crate::paths::parent_of(self.current_path.as_str()) {
            Some(_) => true,
            None => false,
        }
    }

    /// Navigate to a new directory, pushing the current path to history.
    /// Navigating to the current path is a no-op; otherwise the forward
    /// stack clears, the prior current path joins the back stack (bounded),
    /// and the cache is invalidated.
    pub fn navigate_to(&mut self, path: String)
        requires
            old(self).wf(),
        ensures
            final(self).wf(),
            path@ == old(self).spec_current() ==> *final(self) == *old(self),
            path@ != old(self).spec_current() ==> {
                &&& final(self).spec_current() == path@
                &&& final(self).spec_back() == push_trimmed(
                    old(self).spec_back(),
                    old(self).spec_current(),
                )
                &&& final(self).spec_forward().len() == 0
                &&& final(self).spec_cached() is None
                &&& final(self).spec_sort() == old(self).spec_sort()
                &&& final(self).spec_filter() == old(self).spec_filter()
            },
    {
        if crate::text::str_eq(path.as_str(), self.current_path.as_str()) {
            proof {
                assert(path@ == old(self).spec_current());
            }
            return ;
        }
        let ghost preback = self.back_stack@;
        let mut prior = path;
        core::mem::swap(&mut self.current_path, &mut prior);
        self.back_stack.push(prior);
        if self.back_stack.len() > MAX_HISTORY_SIZE {
            self.back_stack.remove(0);
            proof {
                assert(self.back_stack@ =~= preback.push(old(self).current_path).skip(1));
                assert(preback.push(old(self).current_path).skip(1) =~= preback.skip(1).push(
                    old(self).current_path,
                ));
                assert(self.spec_back() =~= push_trimmed(
                    preback.map_values(|s: String| s@),
                    old(self).current_path@,
                ));
            }
        } else {
            proof {
                assert(self.spec_back() =~= push_trimmed(
                    preback.map_values(|s: String| s@),
                    old(self).current_path@,
                ));
            }
        }
        self.forward_stack = Vec::new();
        self.cached_listing = None;
        proof {
            assert(self.spec_forward() =~= Seq::<Seq<char>>::empty());
        }
    }

    /// Go back to the previous directory; the prior current path moves to
    /// the forward stack (bounded). Returns the new current path, or `None`
    /// when there is no history.
    pub fn go_back(&mut self) -> (r: Option<String>)
        requires
            old(self).wf(),
        ensures
            final(self).wf(),
            old(self).spec_back().len() == 0 ==> r is None && final(self).spec_current() == old(self).spec_current() && final(self).spec_back() == old(self).spec_back() && final(self).spec_forward() == old(self).spec_forward() && final(self).spec_cached() == old(self).spec_cached(),
            old(self).spec_back().len() > 0 ==> {
                &&& match r {
                    Some(p) => p@ == old(self).spec_back().last(),
                    None => false,
                }
                &&& final(self).spec_current() == old(self).spec_back().last()
                &&& final(self).spec_back() == old(self).spec_back().drop_last()
                &&& final(self).spec_forward() == push_trimmed(
                    old(self).spec_forward(),
                    old(self).spec_current(),
                )
                &&& final(self).spec_cached() is None
            },
    {
        let ghost preback = self.back_stack@;
        let ghost prefwd = self.forward_stack@;
        match self.back_stack.pop() {
            Some(prev_path) => {
                proof {
                    assert(self.back_stack@ =~= preback.drop_last());
                    assert(self.spec_back() =~= preback.map_values(|s: String| s@).drop_last());
                }
                let mut prior = prev_path;
                core::mem::swap(&mut self.current_path, &mut prior);
                self.forward_stack.push(prior);
                if self.forward_stack.len() > MAX_HISTORY_SIZE {
                    self.forward_stack.remove(0);
                    proof {
                        assert(self.forward_stack@ =~= prefwd.push(old(self).current_path).skip(
                            1,
                        ));
                        assert(prefwd.push(old(self).current_path).skip(1) =~= prefwd.skip(
                            1,
                        ).push(old(self).current_path));
                        assert(self.spec_forward() =~= push_trimmed(
                            prefwd.map_values(|s: String| s@),
                            old(self).current_path@,
                        ));
                    }
                } else {
                    proof {
                        assert(self.spec_forward() =~= push_trimmed(
                            prefwd.map_values(|s: String| s@),
                            old(self).current_path@,
                        ));
                    }
                }
                self.cached_listing = None;
                Some(self.current_path.clone())
            },
            None => None,
        }
    }

    /// Go forward to the next directory (after going back); the prior
    /// current path moves to the back stack (bounded).
    pub fn go_forward(&mut self) -> (r: Option<String>)
        requires
            old(self).wf(),
        ensures
            final(self).wf(),
            old(self).spec_forward().len() == 0 ==> r is None && final(self).spec_current() == old(self).spec_current() && final(self).spec_back() == old(self).spec_back() && final(self).spec_forward() == old(self).spec_forward() && final(self).spec_cached() == old(self).spec_cached(),
            old(self).spec_forward().len() > 0 ==> {
                &&& match r {
                    Some(p) => p@ == old(self).spec_forward().last(),
                    None => false,
                }
                &&& final(self).spec_current() == old(self).spec_forward().last()
                &&& final(self).spec_forward() == old(self).spec_forward().drop_last()
                &&& final(self).spec_back() == push_trimmed(
                    old(self).spec_back(),
                    old(self).spec_current(),
                )
                &&& final(self).spec_cached() is None
            },
    {
        let ghost preback = self.back_stack@;
        let ghost prefwd = self.forward_stack@;
        match self.forward_stack.pop() {
            Some(next_path) => {
                proof {
                    assert(self.forward_stack@ =~= prefwd.drop_last());
                    assert(self.spec_forward() =~= prefwd.map_values(
                        |s: String| s@,
                    ).drop_last());
                }
                let mut prior = next_path;
                core::mem::swap(&mut self.current_path, &mut prior);
                self.back_stack.push(prior);
                if self.back_stack.len() > MAX_HISTORY_SIZE {
                    self.back_stack.remove(0);
                    proof {
                        assert(self.back_stack@ =~= preback.push(old(self).current_path).skip(
                            1,
                        ));
                        assert(preback.push(old(self).current_path).skip(1) =~= preback.skip(
                            1,
                        ).push(old(self).current_path));
                        assert(self.spec_back() =~= push_trimmed(
                            preback.map_values(|s: String| s@),
                            old(self).current_path@,
                        ));
                    }
                } else {
                    proof {
                        assert(self.spec_back() =~= push_trimmed(
                            preback.map_values(|s: String| s@),
                            old(self).current_path@,
                        ));
                    }
                }
                self.cached_listing = None;
                Some(self.current_path.clone())
            },
            None => None,
        }
    }

    /// Go up to the parent directory. Returns the new current path, or
    /// `None` when already at a root.
    pub fn go_up(&mut self) -> (r: Option<String>)
        requires
            old(self).wf(),
        ensures
            final(self).wf(),
            crate::paths::spec_parent(old(self).spec_current()) is None ==> r is None && *final(self) == *old(self),
            crate::paths::spec_parent(old(self).spec_current()) matches Some(parent) ==> {
                &&& match r {
                    Some(p) => p@ == parent,
                    None => false,
                }
                &&& final(self).spec_current() == parent
                &&& final(self).spec_cached() is None
            },
    {
        match crate::paths::parent_of(self.current_path.as_str()) {
            Some(parent) => {
                proof {
                    crate::paths::lemma_last_sep_index(self.current_path@);
                    // a path's parent is a strict prefix, never the path
                    assert(crate::paths::spec_parent(self.current_path@) == Some(parent@));
                    assert(parent@.len() < self.current_path@.len());
                    if parent@ == self.current_path@ {
                        assert(false);
                    }
                }
                self.navigate_to(parent);
                Some(self.current_path.clone())
            },
            None => None,
        }
    }

    /// Invalidate the cached listing, to be refreshed by the next lister.
    pub fn refresh(&mut self)
        requires
            old(self).wf(),
        ensures
            final(self).wf(),
            final(self).spec_cached() is None,
            final(self).spec_current() == old(self).spec_current(),
            final(self).spec_back() == old(self).spec_back(),
            final(self).spec_forward() == old(self).spec_forward(),
    {
        self.cached_listing = None;
    }

    /// Get the cached listing, if one is held.
    pub fn cached_listing(&self) -> (r: Option<&DirListing>)
        ensures
            match r {
                Some(l) => self.spec_cached() == Some(*l),
                None => self.spec_cached() is None,
            },
    {
        match &self.cached_listing {
            Some(l) => Some(l),
            None => None,
        }
    }

    /// Store a freshly computed listing for the current path.
    pub fn set_cached_listing(&mut self, listing: DirListing)
        requires
            old(self).wf(),
        ensures
            final(self).wf(),
            final(self).spec_cached() == Some(listing),
            final(self).spec_current() == old(self).spec_current(),
            final(self).spec_back() == old(self).spec_back(),
            final(self).spec_forward() == old(self).spec_forward(),
    {
        self.cached_listing = Some(listing);
    }

    /// Invalidate the cached listing (e.g., after file changes).
    pub fn invalidate_cache(&mut self)
        requires
            old(self).wf(),
        ensures
            final(self).wf(),
            final(self).spec_cached() is None,
            final(self).spec_current() == old(self).spec_current(),
            final(self).spec_back() == old(self).spec_back(),
            final(self).spec_forward() == old(self).spec_forward(),
    {
        self.cached_listing = None;
    }

    /// Update the sort specification and invalidate cache.
    pub fn set_sort(&mut self, sort: SortSpec)
        requires
            old(self).wf(),
        ensures
            final(self).wf(),
            final(self).spec_sort() == sort,
            final(self).spec_cached() is None,
            final(self).spec_current() == old(self).spec_current(),
    {
        self.sort = sort;
        self.cached_listing = None;
    }

    /// Update the filter specification and invalidate cache.
    pub fn set_filter(&mut self, filter: FilterSpec)
        requires
            old(self).wf(),
        ensures
            final(self).wf(),
            final(self).spec_filter() == filter,
            final(self).spec_cached() is None,
            final(self).spec_current() == old(self).spec_current(),
    {
        self.filter = filter;
        self.cached_listing = None;
    }

    /// Toggle sort field (cycle through or toggle order) and invalidate
    /// cache.
    pub fn toggle_sort(&mut self, field: SortField)
        requires
            old(self).wf(),
        ensures
            final(self).wf(),
            final(self).spec_sort().field == field,
            final(self).spec_cached() is None,
            final(self).spec_current() == old(self).spec_current(),
    {
        self.sort.toggle_or_set(field);
        self.cached_listing = None;
    }

    /// Toggle hidden files visibility and invalidate cache.
    pub fn toggle_hidden(&mut self)
        requires
            old(self).wf(),
        ensures
            final(self).wf(),
            final(self).spec_filter().show_hidden == !old(self).spec_filter().show_hidden,
            final(self).spec_cached() is None,
            final(self).spec_current() == old(self).spec_current(),
    {
        self.filter.toggle_hidden();
        self.cached_listing = None;
    }

    /// Set a search/filter pattern and invalidate cache.
    pub fn set_pattern(&mut self, pattern: Option<String>)
        requires
            old(self).wf(),
        ensures
            final(self).wf(),
            final(self).spec_filter().pattern == pattern,
            final(self).spec_cached() is None,
            final(self).spec_current() == old(self).spec_current(),
    {
        self.filter.pattern = pattern;
        self.cached_listing = None;
    }

    /// Get the back history (for display), oldest first.
    pub fn back_history(&self) -> (r: &Vec<String>)
        ensures
            r@.map_values(|s: String| s@) == self.spec_back(),
    {
        &self.back_stack
    }

    /// Get the forward history (for display), oldest first.
    pub fn forward_history(&self) -> (r: &Vec<String>)
        ensures
            r@.map_values(|s: String| s@) == self.spec_forward(),
    {
        &self.forward_stack
    }

    /// Clear all history.
    pub fn clear_history(&mut self)
        requires
            old(self).wf(),
        ensures
            final(self).wf(),
            final(self).spec_back().len() == 0,
            final(self).spec_forward().len() == 0,
            final(self).spec_current() == old(self).spec_current(),
    {
        self.back_stack = Vec::new();
        self.forward_stack = Vec::new();
        proof {
            assert(self.spec_back() =~= Seq::<Seq<char>>::empty());
            assert(self.spec_forward() =~= Seq::<Seq<char>>::empty());
        }
    }
}

} // verus!
