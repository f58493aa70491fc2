//! Filtering specifications for directory listings.

use vstd::prelude::*;
use crate::entry::EntryMeta;
use crate::text::{is_substring, lower_of};

verus! {

/// Whether a sequence of strings holds one whose characters are `x`.
pub open spec fn holds_string(v: Seq<String>, x: Seq<char>) -> bool {
    exists|i: int| 0 <= i < v.len() && (#[trigger] v[i])@ == x
}

/// A specification for filtering directory entries.
#[derive(Debug, Clone)]
pub struct FilterSpec {
    /// Text pattern to match against entry names (case-insensitive).
    /// If `None`, all entries match.
    pub pattern: Option<String>,
    /// Whether to show hidden files.
    pub show_hidden: bool,
    /// Whether to show system files.
    pub show_system: bool,
    /// Filter by file extensions (lowercase, without dots).
    /// If empty, all extensions match.
    pub extensions: Vec<String>,
    /// Minimum file size in bytes. `None` means no minimum.
    pub min_size: Option<u64>,
    /// Maximum file size in bytes. `None` means no maximum.
    pub max_size: Option<u64>,
}

impl Default for FilterSpec {
    /// The default filter: no pattern, hidden and system files excluded, no
    /// extension or size limits.
    fn default() -> (r: FilterSpec)
        ensures
            r.is_default_spec(),
    {
        FilterSpec {
            pattern: None,
            show_hidden: false,
            show_system: false,
            extensions: Vec::new(),
            min_size: None,
            max_size: None,
        }
    }
}

/// Whether one entry passes one filter.
pub open spec fn spec_matches(f: FilterSpec, e: EntryMeta) -> bool {
    &&& f.show_hidden || !e.spec_is_hidden()
    &&& f.show_system || !e.attributes.system
    &&& match f.pattern {
        Some(p) => is_substring(lower_of(e.name@), lower_of(p@)),
        None => true,
    }
    &&& (f.extensions@.len() > 0 && e.kind is File) ==> (match e.extension {
        Some(x) => holds_string(f.extensions@, x@),
        None => false,
    })
    &&& (e.kind is File ==> (match f.min_size {
        Some(m) => e.size >= m,
        None => true,
    }))
    &&& (e.kind is File ==> (match f.max_size {
        Some(m) => e.size <= m,
        None => true,
    }))
}

/// The matcher as a predicate value.
pub open spec fn matches_fn(f: FilterSpec) -> spec_fn(EntryMeta) -> bool {
    |e: EntryMeta| spec_matches(f, e)
}

impl FilterSpec {
    /// Create a new filter with default settings (show everything except
    /// hidden/system).
    pub fn new() -> (r: FilterSpec)
        ensures
            r.is_default_spec(),
    {
        FilterSpec {
            pattern: None,
            show_hidden: false,
            show_system: false,
            extensions: Vec::new(),
            min_size: None,
            max_size: None,
        }
    }

    /// Create a filter that shows all files including hidden.
    pub fn show_all() -> (r: FilterSpec)
        ensures
            r.pattern is None,
            r.show_hidden && r.show_system,
            r.extensions@.len() == 0,
            r.min_size is None && r.max_size is None,
    {
        FilterSpec {
            pattern: None,
            show_hidden: true,
            show_system: true,
            extensions: Vec::new(),
            min_size: None,
            max_size: None,
        }
    }

    /// Set the text pattern to filter by.
    pub fn with_pattern(self, pattern: String) -> (r: FilterSpec)
        ensures
            r == (FilterSpec { pattern: Some(pattern), ..self }),
    {
        FilterSpec { pattern: Some(pattern), ..self }
    }

    /// Clear the text pattern.
    pub fn clear_pattern(&mut self)
        ensures
            *final(self) == (FilterSpec { pattern: None::<String>, ..*old(self) }),
    {
        self.pattern = None;
    }

    /// Set whether to show hidden files.
    pub fn with_hidden(self, show: bool) -> (r: FilterSpec)
        ensures
            r == (FilterSpec { show_hidden: show, ..self }),
    {
        FilterSpec { show_hidden: show, ..self }
    }

    /// Toggle visibility of hidden files.
    pub fn toggle_hidden(&mut self)
        ensures
            *final(self) == (FilterSpec { show_hidden: !old(self).show_hidden, ..*old(self) }),
    {
        self.show_hidden = !self.show_hidden;
    }

    /// Add an extension to filter by; it is lowercased on the way in.
    pub fn with_extension(self, ext: &str) -> (r: FilterSpec)
        ensures
            r.extensions@ == self.extensions@.push(r.extensions@.last()),
            r.extensions@.len() == self.extensions@.len() + 1,
            r.extensions@.last()@ == lower_of(ext@),
            r.pattern == self.pattern,
            r.show_hidden == self.show_hidden,
            r.show_system == self.show_system,
            r.min_size == self.min_size,
            r.max_size == self.max_size,
    {
        let mut s = self;
        let lowered = crate::text::lowercase(ext);
        s.extensions.push(lowered);
        s
    }

    /// Set size range filter.
    pub fn with_size_range(self, min: Option<u64>, max: Option<u64>) -> (r: FilterSpec)
        ensures
            r == (FilterSpec { min_size: min, max_size: max, ..self }),
    {
        FilterSpec { min_size: min, max_size: max, ..self }
    }

    /// Check if an entry matches this filter.
    pub fn matches(&self, entry: &EntryMeta) -> (r: bool)
        ensures
            r == spec_matches(*self, *entry),
    {
        // Hidden file check
        if !self.show_hidden && entry.is_hidden() {
            return false;
        }
        // System file check
        if !self.show_system && entry.attributes.system {
            return false;
        }
        // Pattern check (case-insensitive)
        match &self.pattern {
            Some(pattern) => {
                let pattern_lower = crate::text::lowercase(pattern.as_str());
                let name_lower = crate::text::lowercase(entry.name.as_str());
                if !crate::text::str_contains(name_lower.as_str(), pattern_lower.as_str()) {
                    return false;
                }
            },
            None => {},
        }
        // Extension check (only for files)
        if self.extensions.len() > 0 && entry.kind.is_file() {
            match &entry.extension {
                Some(ext) => {
                    if !contains_string(&self.extensions, ext.as_str()) {
                        return false;
                    }
                },
                None => {
                    return false;
                },
            }
        }
        // Size range check (only for files)
        if entry.kind.is_file() {
            match self.min_size {
                Some(m) => {
                    if entry.size < m {
                        return false;
                    }
                },
                None => {},
            }
            match self.max_size {
                Some(m) => {
                    if entry.size > m {
                        return false;
                    }
                },
                None => {},
            }
        }
        true
    }

    /// Filter and clone matching entries.
    pub fn filter_owned(&self, entries: &Vec<EntryMeta>) -> (r: Vec<EntryMeta>)
        ensures
            r@ == entries@.filter(matches_fn(*self)),
    {
        let mut out: Vec<EntryMeta> = Vec::new();
        let n = entries.len();
        let mut i: usize = 0;
        proof {
            reveal(Seq::filter);
            assert(entries@.take(0).filter(matches_fn(*self)) =~= Seq::<EntryMeta>::empty());
        }
        while i < n
            invariant
                i <= n,
                n == entries@.len(),
                out@ == entries@.take(i as int).filter(matches_fn(*self)),
            decreases n - i,
        {
            proof {
                reveal(Seq::filter);
                assert(entries@.take(i + 1).drop_last() =~= entries@.take(i as int));
                assert(entries@.take(i + 1).last() == entries@[i as int]);
            }
            if self.matches(&entries[i]) {
                out.push(entries[i].clone());
            }
            i += 1;
        }
        proof {
            assert(entries@.take(n as int) =~= entries@);
        }
        out
    }

    /// Returns `true` if this filter is "empty" (matches everything
    /// visible).
    pub open spec fn is_default_spec(&self) -> bool {
        &&& self.pattern is None
        &&& !self.show_hidden
        &&& !self.show_system
        &&& self.extensions@.len() == 0
        &&& self.min_size is None
        &&& self.max_size is None
    }

    /// Check whether this filter is the default one.
    pub fn is_default(&self) -> (r: bool)
        ensures
            r == self.is_default_spec(),
    {
        self.pattern.is_none() && !self.show_hidden && !self.show_system && self.extensions.len()
            == 0 && self.min_size.is_none() && self.max_size.is_none()
    }
}

/// Checks whether one of the strings equals `x`.
fn contains_string(v: &Vec<String>, x: &str) -> (r: bool)
    ensures
        r == holds_string(v@, x@),
{
    let n = v.len();
    let mut i: usize = 0;
    while i < n
        invariant
            i <= n,
            n == v@.len(),
            forall|k: int| 0 <= k < i ==> (#[trigger] v@[k])@ != x@,
        decreases n - i,
    {
        if crate::text::str_eq(v[i].as_str(), x) {
            return true;
        }
        i += 1;
    }
    false
}


/// The description parts of one filter's active settings: the quoted
/// pattern, the hidden marker, the dotted extension list, and the size
/// range.
pub open spec fn spec_active_parts(f: FilterSpec) -> Seq<Seq<char>> {
    let pat: Seq<Seq<char>> = match f.pattern {
        Some(p) => seq![seq!['"'] + p@ + seq!['"']],
        None => seq![],
    };
    let hid: Seq<Seq<char>> = if f.show_hidden {
        seq!["hidden"@]
    } else {
        seq![]
    };
    let ext: Seq<Seq<char>> = if f.extensions@.len() > 0 {
        seq![
            seq!['.'] + crate::text::join_with(
                f.extensions@.map_values(|s: String| s@),
                ", ."@,
            ),
        ]
    } else {
        seq![]
    };
    let size: Seq<Seq<char>> = match (f.min_size, f.max_size) {
        (Some(mn), Some(mx)) => seq![
            crate::entry::spec_format_size(mn) + " - "@ + crate::entry::spec_format_size(mx),
        ],
        (Some(mn), None) => seq!["> "@ + crate::entry::spec_format_size(mn)],
        (None, Some(mx)) => seq!["< "@ + crate::entry::spec_format_size(mx)],
        (None, None) => seq![],
    };
    pat + hid + ext + size
}

impl FilterSpec {
    /// Returns a description of the active filters for display: the parts
    /// joined with commas, or nothing when every setting is quiet.
    pub fn active_filters_description(&self) -> (r: Option<String>)
        ensures
            spec_active_parts(*self).len() == 0 <==> r is None,
            r matches Some(s) ==> s@ == crate::text::join_with(spec_active_parts(*self), ", "@),
    {
        let mut parts: Vec<String> = Vec::new();
        let ghost mut expect: Seq<Seq<char>> = seq![];
        match &self.pattern {
            Some(pattern) => {
                let mut p = "\"".to_owned();
                p.append(pattern.as_str());
                p.append("\"");
                proof {
                    reveal_strlit("\"");
                    assert(p@ =~= seq!['"'] + self.pattern->Some_0@ + seq!['"']);
                    expect = expect + seq![p@];
                }
                parts.push(p);
            },
            None => {},
        }
        if self.show_hidden {
            parts.push("hidden".to_owned());
            proof {
                expect = expect + seq!["hidden"@];
            }
        }
        if self.extensions.len() > 0 {
            let joined = crate::text::join_strings(&self.extensions, ", .");
            let mut e = ".".to_owned();
            e.append(joined.as_str());
            proof {
                reveal_strlit(".");
                assert(e@ =~= seq!['.'] + crate::text::join_with(
                    self.extensions@.map_values(|s2: String| s2@),
                    ", ."@,
                ));
                expect = expect + seq![e@];
            }
            parts.push(e);
        }
        match (self.min_size, self.max_size) {
            (Some(mn), Some(mx)) => {
                let mut s = crate::entry::format_size(mn);
                s.append(" - ");
                let xs = crate::entry::format_size(mx);
                s.append(xs.as_str());
                proof {
                    assert(s@ =~= crate::entry::spec_format_size(mn) + " - "@
                        + crate::entry::spec_format_size(mx));
                    expect = expect + seq![s@];
                }
                parts.push(s);
            },
            (Some(mn), None) => {
                let mut s = "> ".to_owned();
                let ms = crate::entry::format_size(mn);
                s.append(ms.as_str());
                proof {
                    expect = expect + seq![s@];
                }
                parts.push(s);
            },
            (None, Some(mx)) => {
                let mut s = "< ".to_owned();
                let xs = crate::entry::format_size(mx);
                s.append(xs.as_str());
                proof {
                    expect = expect + seq![s@];
                }
                parts.push(s);
            },
            (None, None) => {},
        }
        proof {
            assert(parts@.map_values(|s2: String| s2@) =~= expect);
            assert(expect =~= spec_active_parts(*self));
        }
        if parts.len() == 0 {
            None
        } else {
            Some(crate::text::join_strings(&parts, ", "))
        }
    }
}

} // verus!
