//! The listing engine's computing half: classifying raw directory records
//! into entries, filtering, sorting, and assembling the listing. Reading the
//! directory itself is the caller's part; it hands in one `RawEntry` per
//! child.

use vstd::prelude::*;
use crate::entry::{
    files_size, opt_view, spec_extension, DirListing, EntryAttributes, EntryKind, EntryMeta,
};
use crate::filter::{matches_fn, FilterSpec};
use crate::ordering::{
    lemma_sum_by_filter_le, lemma_sum_by_sort_le, sort_le, sum_by,
};
use crate::paths::spec_is_absolute;
use crate::sort::{entry_le_fn, SortField, SortOrder, SortSpec};

verus! {

/// The hidden attribute bit.
pub const ATTR_HIDDEN: u32 = 0x2;

/// The system attribute bit.
pub const ATTR_SYSTEM: u32 = 0x4;

/// The directory attribute bit.
pub const ATTR_DIRECTORY: u32 = 0x10;

/// The archive attribute bit.
pub const ATTR_ARCHIVE: u32 = 0x20;

/// The read-only attribute bit.
pub const ATTR_READONLY: u32 = 0x1;

/// The reparse-point attribute bit.
pub const ATTR_REPARSE_POINT: u32 = 0x400;

/// One directory child as the platform reports it, before classification.
/// On platforms without attribute bits the caller synthesises the directory
/// and reparse bits from the link-aware metadata.
#[derive(Debug, Clone)]
pub struct RawEntry {
    /// The child's name.
    pub name: String,
    /// The child's absolute path.
    pub path: String,
    /// Native attribute bits.
    pub attrs: u32,
    /// Size in bytes as reported; kept only for files.
    pub size: u64,
    /// Creation time, seconds since the Unix epoch.
    pub created: Option<i64>,
    /// Last modification time, seconds since the Unix epoch.
    pub modified: Option<i64>,
    /// Last access time, seconds since the Unix epoch.
    pub accessed: Option<i64>,
    /// The reparse target, where one could be read.
    pub link_target: Option<String>,
    /// Whether the reparse target exists.
    pub target_exists: bool,
}

/// The kind a raw record classifies to: a reparse point with an absolute
/// target on a directory is a junction, any other reparse point a symlink.
pub open spec fn spec_kind_of(r: RawEntry) -> EntryKind {
    let is_dir = r.attrs & ATTR_DIRECTORY != 0;
    if r.attrs & ATTR_REPARSE_POINT != 0 {
        match r.link_target {
            Some(t) => if is_dir && spec_is_absolute(t@) {
                EntryKind::Junction
            } else {
                EntryKind::Symlink
            },
            None => if is_dir {
                EntryKind::Junction
            } else {
                EntryKind::Symlink
            },
        }
    } else if is_dir {
        EntryKind::Directory
    } else {
        EntryKind::File
    }
}

/// The attribute flags a raw record decodes to.
pub open spec fn spec_attributes_of(attrs: u32) -> EntryAttributes {
    EntryAttributes {
        hidden: attrs & ATTR_HIDDEN != 0,
        system: attrs & ATTR_SYSTEM != 0,
        readonly: attrs & ATTR_READONLY != 0,
        archive: attrs & ATTR_ARCHIVE != 0,
    }
}

/// A broken link: a reparse point whose target is missing or unreadable.
pub open spec fn spec_is_broken(r: RawEntry) -> bool {
    r.attrs & ATTR_REPARSE_POINT != 0 && (r.link_target is None || !r.target_exists)
}

/// Whether a classified entry agrees with its raw record in every field.
pub open spec fn built_from(m: EntryMeta, r: RawEntry) -> bool {
    &&& m.name == r.name
    &&& m.path == r.path
    &&& m.kind == spec_kind_of(r)
    &&& m.size == (if spec_kind_of(r) is File {
        r.size
    } else {
        0u64
    })
    &&& m.created == r.created
    &&& m.modified == r.modified
    &&& m.accessed == r.accessed
    &&& m.attributes == spec_attributes_of(r.attrs)
    &&& m.link_target == (if r.attrs & ATTR_REPARSE_POINT != 0 {
        r.link_target
    } else {
        Option::<String>::None
    })
    &&& m.is_broken_link == spec_is_broken(r)
    &&& opt_view(m.extension) == (if spec_kind_of(r) is File {
        spec_extension(r.path@)
    } else {
        Option::<Seq<char>>::None
    })
}

/// Classifies one raw directory record into an entry: kind, attribute
/// flags, link target, broken-link marker, size and extension.
pub fn build_entry(r: RawEntry) -> (m: EntryMeta)
    ensures
        built_from(m, r),
        m.wf(),
{
    let is_dir = r.attrs & ATTR_DIRECTORY != 0;
    let is_reparse = r.attrs & ATTR_REPARSE_POINT != 0;
    let attributes = EntryAttributes {
        hidden: r.attrs & ATTR_HIDDEN != 0,
        system: r.attrs & ATTR_SYSTEM != 0,
        readonly: r.attrs & ATTR_READONLY != 0,
        archive: r.attrs & ATTR_ARCHIVE != 0,
    };
    let (kind, link_target, is_broken_link) = if is_reparse {
        match r.link_target {
            Some(t) => {
                let absolute = crate::paths::is_absolute(t.as_str());
                let kind = if is_dir && absolute {
                    EntryKind::Junction
                } else {
                    EntryKind::Symlink
                };
                (kind, Some(t), !r.target_exists)
            },
            None => {
                let kind = if is_dir {
                    EntryKind::Junction
                } else {
                    EntryKind::Symlink
                };
                (kind, None, true)
            },
        }
    } else if is_dir {
        (EntryKind::Directory, None, false)
    } else {
        (EntryKind::File, None, false)
    };
    let size = if kind.is_file() {
        r.size
    } else {
        0
    };
    let extension = if kind.is_file() {
        crate::entry::extension_of(r.path.as_str())
    } else {
        None
    };
    EntryMeta {
        name: r.name,
        path: r.path,
        kind,
        size,
        created: r.created,
        modified: r.modified,
        accessed: r.accessed,
        attributes,
        link_target,
        is_broken_link,
        extension,
    }
}

/// The size weight under which the listing totals are stated.
pub open spec fn size_weight() -> spec_fn(EntryMeta) -> int {
    |e: EntryMeta|
        if e.kind is File {
            e.size as int
        } else {
            0int
        }
}

/// `files_size` is the weighted sum under `size_weight`.
pub proof fn lemma_files_size_is_sum(s: Seq<EntryMeta>)
    ensures
        files_size(s) == sum_by(s, size_weight()),
    decreases s.len(),
{
    if s.len() == 0 {
    } else {
        lemma_files_size_is_sum(s.drop_last());
    }
}

/// The sort specification used when the caller passes none: directories
/// first, by case-insensitive name.
pub open spec fn default_sort() -> SortSpec {
    SortSpec { field: SortField::Name, order: SortOrder::Ascending, directories_first: true }
}

/// The entry sequence a listing request yields: the entries that pass the
/// filter, in sorted order.
pub open spec fn spec_listing(
    entries: Seq<EntryMeta>,
    sort: Option<SortSpec>,
    filter: Option<FilterSpec>,
) -> Seq<EntryMeta> {
    let filtered = match filter {
        Some(f) => entries.filter(matches_fn(f)),
        None => entries,
    };
    let sp = match sort {
        Some(s) => s,
        None => default_sort(),
    };
    sort_le(filtered, entry_le_fn(sp))
}

/// Assembles a listing from classified entries: admitted entries pass the
/// filter, the order is the requested sort (directories first by name when
/// none is given), and the statistics agree with the admitted entries.
pub fn list_from_entries(
    path: String,
    entries: Vec<EntryMeta>,
    sort: Option<&SortSpec>,
    filter: Option<&FilterSpec>,
) -> (r: DirListing)
    requires
        files_size(entries@) <= u64::MAX,
    ensures
        r.path == path,
        r.wf(),
        r.entries@ == spec_listing(
            entries@,
            match sort {
                Some(s) => Some(*s),
                None => None,
            },
            match filter {
                Some(f) => Some(*f),
                None => None,
            },
        ),
{
    let ghost orig = entries@;
    let filtered = match filter {
        Some(f) => f.filter_owned(&entries),
        None => entries,
    };
    proof {
        lemma_files_size_is_sum(orig);
        lemma_files_size_is_sum(filtered@);
        assert forall|e: EntryMeta| #[trigger] size_weight()(e) >= 0 by {}
        match filter {
            Some(f) => {
                lemma_sum_by_filter_le(orig, matches_fn(*f), size_weight());
            },
            None => {},
        }
    }
    let sp: SortSpec = match sort {
        Some(s) => *s,
        None => SortSpec {
            field: SortField::Name,
            order: SortOrder::Ascending,
            directories_first: true,
        },
    };
    let ghost pre_sort = filtered@;
    let sorted = sp.sorted(filtered);
    proof {
        lemma_sum_by_sort_le(pre_sort, entry_le_fn(sp), size_weight());
        lemma_files_size_is_sum(sorted@);
    }
    DirListing::new(path, sorted)
}

} // verus!
