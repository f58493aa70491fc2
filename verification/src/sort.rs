//! Sorting specifications for directory listings.

use vstd::prelude::*;
use crate::entry::EntryMeta;
use crate::ordering::{
    insert_le, lemma_insert_le_at, lemma_sort_le_idempotent, lemma_sort_le_multiset,
    lemma_sort_le_sorted, sort_le, sorted_le, total_le,
};
use crate::text::{lex_le, lower_of};

verus! {

/// The field to sort entries by.
#[derive(Debug, Clone, Copy, PartialEq, Eq, Hash, Structural)]
pub enum SortField {
    /// Sort by file/folder name (case-insensitive).
    Name,
    /// Sort by file size.
    Size,
    /// Sort by modification date.
    Modified,
    /// Sort by creation date.
    Created,
    /// Sort by file extension.
    Extension,
    /// Sort by entry kind (directories first, then files).
    Kind,
}

impl Default for SortField {
    fn default() -> (r: SortField)
        ensures
            r is Name,
    {
        SortField::Name
    }
}

impl SortField {
    /// What `label` returns for each field.
    pub open spec fn spec_label(&self) -> Seq<char> {
        match *self {
            SortField::Name => "Name"@,
            SortField::Size => "Size"@,
            SortField::Modified => "Date Modified"@,
            SortField::Created => "Date Created"@,
            SortField::Extension => "Type"@,
            SortField::Kind => "Kind"@,
        }
    }

    /// Get a human-readable label for display.
    pub fn label(&self) -> (r: &'static str)
        ensures
            r@ == self.spec_label(),
    {
        match self {
            SortField::Name => "Name",
            SortField::Size => "Size",
            SortField::Modified => "Date Modified",
            SortField::Created => "Date Created",
            SortField::Extension => "Type",
            SortField::Kind => "Kind",
        }
    }
}

/// The order to sort entries.
#[derive(Debug, Clone, Copy, PartialEq, Eq, Hash, Structural)]
pub enum SortOrder {
    /// Ascending order (A-Z, smallest first, oldest first).
    Ascending,
    /// Descending order (Z-A, largest first, newest first).
    Descending,
}

impl Default for SortOrder {
    fn default() -> (r: SortOrder)
        ensures
            r is Ascending,
    {
        SortOrder::Ascending
    }
}

impl SortOrder {
    /// Toggle the sort order.
    pub fn toggle(&self) -> (r: SortOrder)
        ensures
            self is Ascending ==> r is Descending,
            self is Descending ==> r is Ascending,
    {
        match self {
            SortOrder::Ascending => SortOrder::Descending,
            SortOrder::Descending => SortOrder::Ascending,
        }
    }

    /// What `label` returns for each order.
    pub open spec fn spec_label(&self) -> Seq<char> {
        match *self {
            SortOrder::Ascending => "^"@,
            SortOrder::Descending => "v"@,
        }
    }

    /// Get a short label for display.
    pub fn label(&self) -> (r: &'static str)
        ensures
            r@ == self.spec_label(),
    {
        match self {
            SortOrder::Ascending => "^",
            SortOrder::Descending => "v",
        }
    }
}

/// Ordering on optional timestamps: absence sorts first, as the least value.
pub open spec fn opt_time_le(a: Option<i64>, b: Option<i64>) -> bool {
    match (a, b) {
        (Option::None, _) => true,
        (Option::Some(_), Option::None) => false,
        (Option::Some(x), Option::Some(y)) => x <= y,
    }
}

/// The extension an entry sorts by: its own, or empty.
pub open spec fn ext_key(e: EntryMeta) -> Seq<char> {
    match e.extension {
        Option::Some(s) => s@,
        Option::None => Seq::<char>::empty(),
    }
}

/// Ascending comparison of two entries under one sort field.
pub open spec fn key_le(field: SortField, a: EntryMeta, b: EntryMeta) -> bool {
    match field {
        SortField::Name => lex_le(lower_of(a.name@), lower_of(b.name@)),
        SortField::Size => a.size <= b.size,
        SortField::Modified => opt_time_le(a.modified, b.modified),
        SortField::Created => opt_time_le(a.created, b.created),
        SortField::Extension => lex_le(ext_key(a), ext_key(b)),
        SortField::Kind => lex_le(a.kind.spec_label(), b.kind.spec_label()),
    }
}

/// A complete sorting specification.
#[derive(Debug, Clone, Copy, PartialEq, Eq, Structural)]
pub struct SortSpec {
    /// The primary sort field.
    pub field: SortField,
    /// The sort order.
    pub order: SortOrder,
    /// Whether to always show directories before files.
    pub directories_first: bool,
}

impl Default for SortSpec {
    fn default() -> (r: SortSpec)
        ensures
            r.field is Name,
            r.order is Ascending,
            r.directories_first,
    {
        SortSpec { field: SortField::Name, order: SortOrder::Ascending, directories_first: true }
    }
}

/// Whether two entries tie under one sort field.
pub open spec fn key_eq(field: SortField, a: EntryMeta, b: EntryMeta) -> bool {
    key_le(field, a, b) && key_le(field, b, a)
}

/// The full entry ordering of one sort specification: the optional
/// directories-first grouping, then the field key in the requested order,
/// with ties under the key broken by case-insensitive name.
pub open spec fn entry_le(sp: SortSpec, a: EntryMeta, b: EntryMeta) -> bool {
    if sp.directories_first && (a.kind is Directory) != (b.kind is Directory) {
        a.kind is Directory
    } else if !key_eq(sp.field, a, b) {
        match sp.order {
            SortOrder::Ascending => key_le(sp.field, a, b),
            SortOrder::Descending => key_le(sp.field, b, a),
        }
    } else {
        lex_le(lower_of(a.name@), lower_of(b.name@))
    }
}

/// The entry ordering as a comparator value.
pub open spec fn entry_le_fn(sp: SortSpec) -> spec_fn(EntryMeta, EntryMeta) -> bool {
    |a: EntryMeta, b: EntryMeta| entry_le(sp, a, b)
}

/// Any two entries are comparable under any sort specification.
pub proof fn lemma_entry_le_total(sp: SortSpec)
    ensures
        total_le(entry_le_fn(sp)),
{
    assert forall|a: EntryMeta, b: EntryMeta| #[trigger]
        entry_le_fn(sp)(a, b) || #[trigger] entry_le_fn(sp)(b, a) by {
        crate::text::lemma_lex_le_total(lower_of(a.name@), lower_of(b.name@));
        crate::text::lemma_lex_le_total(ext_key(a), ext_key(b));
        crate::text::lemma_lex_le_total(a.kind.spec_label(), b.kind.spec_label());
    }
}

impl SortSpec {
    /// Create a new sort specification.
    pub fn new(field: SortField, order: SortOrder) -> (r: SortSpec)
        ensures
            r.field == field,
            r.order == order,
            r.directories_first,
    {
        SortSpec { field, order, directories_first: true }
    }

    /// Create a sort spec for sorting by name ascending.
    pub fn by_name() -> (r: SortSpec)
        ensures
            r.field is Name && r.order is Ascending && r.directories_first,
    {
        SortSpec::new(SortField::Name, SortOrder::Ascending)
    }

    /// Create a sort spec for sorting by size descending.
    pub fn by_size() -> (r: SortSpec)
        ensures
            r.field is Size && r.order is Descending && r.directories_first,
    {
        SortSpec::new(SortField::Size, SortOrder::Descending)
    }

    /// Create a sort spec for sorting by modification date descending.
    pub fn by_modified() -> (r: SortSpec)
        ensures
            r.field is Modified && r.order is Descending && r.directories_first,
    {
        SortSpec::new(SortField::Modified, SortOrder::Descending)
    }

    /// Toggle the order if the same field, otherwise set new field with
    /// ascending order.
    pub fn toggle_or_set(&mut self, field: SortField)
        ensures
            final(self).field == field,
            final(self).directories_first == old(self).directories_first,
            old(self).field == field ==> (final(self).order is Ascending <==> old(
                self,
            ).order is Descending),
            old(self).field != field ==> final(self).order is Ascending,
    {
        if self.field == field {
            self.order = self.order.toggle();
        } else {
            self.field = field;
            self.order = SortOrder::Ascending;
        }
    }

    /// Compares two entries under this specification.
    pub fn le(&self, a: &EntryMeta, b: &EntryMeta) -> (r: bool)
        ensures
            r == entry_le(*self, *a, *b),
    {
        if self.directories_first {
            let ad = a.kind.is_directory();
            let bd = b.kind.is_directory();
            if ad != bd {
                return ad;
            }
        }
        let forward = key_le_exec(self.field, a, b);
        let backward = key_le_exec(self.field, b, a);
        if !(forward && backward) {
            match self.order {
                SortOrder::Ascending => forward,
                SortOrder::Descending => backward,
            }
        } else {
            // a tie under the key breaks by case-insensitive name
            let la = crate::text::lowercase(a.name.as_str());
            let lb = crate::text::lowercase(b.name.as_str());
            crate::text::str_lex_le(la.as_str(), lb.as_str())
        }
    }

    /// Sort a slice of entries in place according to this specification.
    ///
    /// The result is the stable insertion sort of the input: sorted under
    /// `entry_le`, and a permutation of what went in.
    pub fn sort(&self, entries: &mut Vec<EntryMeta>)
        ensures
            final(entries)@ == sort_le(old(entries)@, entry_le_fn(*self)),
            sorted_le(final(entries)@, entry_le_fn(*self)),
            final(entries)@.to_multiset() == old(entries)@.to_multiset(),
            final(entries)@.len() == old(entries)@.len(),
    {
        proof {
            lemma_entry_le_total(*self);
            lemma_sort_le_sorted(old(entries)@, entry_le_fn(*self));
            lemma_sort_le_multiset(old(entries)@, entry_le_fn(*self));
        }
        let ghost orig = entries@;
        let mut acc: Vec<EntryMeta> = Vec::new();
        proof {
            assert(orig.skip(orig.len() as int) =~= Seq::<EntryMeta>::empty());
        }
        while entries.len() > 0
            invariant
                entries@.len() <= orig.len(),
                entries@ == orig.take(entries@.len() as int),
                acc@ == sort_le(orig.skip(entries@.len() as int), entry_le_fn(*self)),
            decreases entries@.len(),
        {
            let ghost k = entries@.len() as int;
            let x = entries.pop().unwrap();
            proof {
                assert(orig.take(k).drop_last() =~= orig.take(k - 1));
                assert(orig.take(k).last() == orig[k - 1]);
                assert(orig.skip(k - 1)[0] == orig[k - 1]);
                assert(orig.skip(k - 1).skip(1) =~= orig.skip(k));
            }
            insert_entry(self, x, &mut acc);
        }
        proof {
            assert(orig.skip(0) =~= orig);
        }
        let mut out = acc;
        core::mem::swap(entries, &mut out);
    }

    /// Sort a vector of entries and return it (for chaining).
    pub fn sorted(&self, entries: Vec<EntryMeta>) -> (r: Vec<EntryMeta>)
        ensures
            r@ == sort_le(entries@, entry_le_fn(*self)),
            sorted_le(r@, entry_le_fn(*self)),
            r@.to_multiset() == entries@.to_multiset(),
    {
        let mut v = entries;
        self.sort(&mut v);
        v
    }
}

/// Applying one sort specification twice gives what one pass gives: sorting
/// is idempotent on already-sorted input.
pub proof fn lemma_sort_idempotent(sp: SortSpec, s: Seq<EntryMeta>)
    ensures
        sort_le(sort_le(s, entry_le_fn(sp)), entry_le_fn(sp)) == sort_le(s, entry_le_fn(sp)),
{
    lemma_entry_le_total(sp);
    lemma_sort_le_idempotent(s, entry_le_fn(sp));
}

/// Compares two entries under one field, ascending.
fn key_le_exec(field: SortField, a: &EntryMeta, b: &EntryMeta) -> (r: bool)
    ensures
        r == key_le(field, *a, *b),
{
    match field {
        SortField::Name => {
            let la = crate::text::lowercase(a.name.as_str());
            let lb = crate::text::lowercase(b.name.as_str());
            crate::text::str_lex_le(la.as_str(), lb.as_str())
        },
        SortField::Size => a.size <= b.size,
        SortField::Modified => opt_time_le_exec(&a.modified, &b.modified),
        SortField::Created => opt_time_le_exec(&a.created, &b.created),
        SortField::Extension => {
            let ea = match &a.extension {
                Some(s) => s.as_str(),
                None => "",
            };
            let eb = match &b.extension {
                Some(s) => s.as_str(),
                None => "",
            };
            proof {
                reveal_strlit("");
                assert(""@ =~= Seq::<char>::empty());
            }
            crate::text::str_lex_le(ea, eb)
        },
        SortField::Kind => {
            let la = a.kind.label();
            let lb = b.kind.label();
            crate::text::str_lex_le(la, lb)
        },
    }
}

/// Compares two optional timestamps, absence first.
fn opt_time_le_exec(a: &Option<i64>, b: &Option<i64>) -> (r: bool)
    ensures
        r == opt_time_le(*a, *b),
{
    match (a, b) {
        (None, _) => true,
        (Some(_), None) => false,
        (Some(x), Some(y)) => *x <= *y,
    }
}

/// Inserts one entry into an already-accumulated vector at the position the
/// spec-level insertion puts it.
fn insert_entry(sp: &SortSpec, x: EntryMeta, v: &mut Vec<EntryMeta>)
    ensures
        final(v)@ == insert_le(x, old(v)@, entry_le_fn(*sp)),
{
    let ghost before = v@;
    let n = v.len();
    let mut i: usize = 0;
    let mut found = false;
    while !found && i < n
        invariant
            i <= n,
            v@ == before,
            n == v@.len(),
            found ==> i < n && entry_le_fn(*sp)(x, v@[i as int]),
            forall|k: int| 0 <= k < i ==> !entry_le_fn(*sp)(x, #[trigger] v@[k]),
        decreases n - i, (if found { 0int } else { 1int }),
    {
        if sp.le(&x, &v[i]) {
            found = true;
        } else {
            i += 1;
        }
    }
    proof {
        lemma_insert_le_at(x, before, entry_le_fn(*sp), i as int);
    }
    let ghost xg = x;
    v.insert(i, x);
    proof {
        assert(v@ =~= before.subrange(0, i as int) + seq![xg] + before.subrange(
            i as int,
            before.len() as int,
        ));
    }
}

} // verus!
