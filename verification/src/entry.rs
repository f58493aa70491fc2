//! Core domain types for file system entries.

use vstd::prelude::*;
use crate::text::{dec_str, lower_of, scaled2};
use crate::paths::spec_file_name;

verus! {

pub const KB: u64 = 1024;

pub const MB: u64 = 1024 * 1024;

pub const GB: u64 = 1024 * 1024 * 1024;

pub const TB: u64 = 1024 * 1024 * 1024 * 1024;

/// The kind of a file system entry.
#[derive(Debug, Clone, Copy, PartialEq, Eq, Hash, Structural)]
pub enum EntryKind {
    /// A regular file.
    File,
    /// A directory (folder).
    Directory,
    /// A symbolic link (reparse point on Windows).
    Symlink,
    /// A junction point (Windows-specific directory link).
    Junction,
}

impl EntryKind {
    /// Returns `true` if this is a file.
    pub fn is_file(&self) -> (r: bool)
        ensures
            r == (self is File),
    {
        matches!(self, EntryKind::File)
    }

    /// Returns `true` if this is a directory.
    pub fn is_directory(&self) -> (r: bool)
        ensures
            r == (self is Directory),
    {
        matches!(self, EntryKind::Directory)
    }

    /// Returns `true` if this is a symlink or junction.
    pub fn is_link(&self) -> (r: bool)
        ensures
            r == (self is Symlink || self is Junction),
    {
        matches!(self, EntryKind::Symlink | EntryKind::Junction)
    }

    /// What `label` returns for each kind.
    pub open spec fn spec_label(&self) -> Seq<char> {
        match *self {
            EntryKind::File => "File"@,
            EntryKind::Directory => "Folder"@,
            EntryKind::Symlink => "Symlink"@,
            EntryKind::Junction => "Junction"@,
        }
    }

    /// Returns a human-readable label for display.
    pub fn label(&self) -> (r: &'static str)
        ensures
            r@ == self.spec_label(),
    {
        match self {
            EntryKind::File => "File",
            EntryKind::Directory => "Folder",
            EntryKind::Symlink => "Symlink",
            EntryKind::Junction => "Junction",
        }
    }
}

/// File attributes (Windows-centric, with cross-platform compatibility).
#[derive(Debug, Clone, Copy, PartialEq, Eq, Structural)]
pub struct EntryAttributes {
    /// The file/folder is hidden.
    pub hidden: bool,
    /// The file/folder is a system file.
    pub system: bool,
    /// The file/folder is read-only.
    pub readonly: bool,
    /// The file/folder is archived (backup flag).
    pub archive: bool,
}

impl Default for EntryAttributes {
    /// Attributes with every flag cleared.
    fn default() -> (r: EntryAttributes)
        ensures
            !r.hidden && !r.system && !r.readonly && !r.archive,
    {
        EntryAttributes { hidden: false, system: false, readonly: false, archive: false }
    }
}

impl EntryAttributes {
    /// Create attributes with all flags set to false.
    pub fn none() -> (r: EntryAttributes)
        ensures
            !r.hidden && !r.system && !r.readonly && !r.archive,
    {
        EntryAttributes { hidden: false, system: false, readonly: false, archive: false }
    }

    /// Returns `true` if any special attribute is set.
    pub fn has_any(&self) -> (r: bool)
        ensures
            r == (self.hidden || self.system || self.readonly),
    {
        self.hidden || self.system || self.readonly
    }
}

/// The view of an optional string.
pub open spec fn opt_view(o: Option<String>) -> Option<Seq<char>> {
    match o {
        Some(s) => Some(s@),
        None => None,
    }
}

/// Index of the last `.` of `s`, or -1 when none occurs.
pub open spec fn last_dot_index(s: Seq<char>) -> int
    decreases s.len(),
{
    if s.len() == 0 {
        -1
    } else if s.last() == '.' {
        s.len() - 1
    } else {
        last_dot_index(s.drop_last())
    }
}

/// The lowercase extension a path carries: the piece of its final component
/// after the last dot, absent when no dot follows the first position.
pub open spec fn spec_extension(path: Seq<char>) -> Option<Seq<char>> {
    let name = spec_file_name(path);
    let d = last_dot_index(name);
    if d <= 0 {
        None
    } else {
        Some(lower_of(name.subrange(d + 1, name.len() as int)))
    }
}

/// Finds the index of the last `.` of `s`, if any.
pub(crate) fn rfind_dot(s: &str) -> (r: Option<usize>)
    ensures
        match r {
            Some(i) => last_dot_index(s@) == i as int && i < s@.len(),
            None => last_dot_index(s@) == -1,
        },
{
    let len = s.unicode_len();
    proof {
        assert(s@.take(len as int) =~= s@);
    }
    let mut j: usize = len;
    while j > 0
        invariant
            j <= len,
            len == s@.len(),
            last_dot_index(s@) == last_dot_index(s@.take(j as int)),
        decreases j,
    {
        let c = s.get_char(j - 1);
        if c == '.' {
            proof {
                assert(s@.take(j as int).last() == s@[j - 1]);
            }
            return Some(j - 1);
        }
        proof {
            assert(s@.take(j as int).drop_last() =~= s@.take(j - 1));
        }
        j -= 1;
    }
    proof {
        assert(s@.take(0) =~= Seq::<char>::empty());
    }
    None
}

/// Extracts the lowercase extension of `path`, files only by convention.
pub fn extension_of(path: &str) -> (r: Option<String>)
    ensures
        match r {
            Some(e) => spec_extension(path@) == Some(e@),
            None => spec_extension(path@) is None,
        },
{
    let name = crate::paths::file_name_of(path);
    let nlen = name.as_str().unicode_len();
    match rfind_dot(name.as_str()) {
        Some(d) => {
            if d == 0 {
                None
            } else {
                let ext = name.as_str().substring_char(d + 1, nlen);
                Some(crate::text::lowercase(ext))
            }
        },
        None => None,
    }
}

/// Metadata for a single file system entry.
#[derive(Debug, PartialEq)]
pub struct EntryMeta {
    /// The file/folder name (not the full path).
    pub name: String,
    /// The absolute path to this entry.
    pub path: String,
    /// The kind of entry (file, directory, symlink, junction).
    pub kind: EntryKind,
    /// Size in bytes. For directories, this is 0.
    pub size: u64,
    /// Creation time, seconds since the Unix epoch.
    pub created: Option<i64>,
    /// Last modification time, seconds since the Unix epoch.
    pub modified: Option<i64>,
    /// Last access time, seconds since the Unix epoch.
    pub accessed: Option<i64>,
    /// File attributes.
    pub attributes: EntryAttributes,
    /// For symlinks/junctions: the resolved target path.
    pub link_target: Option<String>,
    /// `true` if this is a broken symlink (target doesn't exist).
    pub is_broken_link: bool,
    /// The file extension (lowercase, without the dot); files only.
    pub extension: Option<String>,
}

impl Clone for EntryMeta {
    /// An entry clones field by field, to an equal record.
    fn clone(&self) -> (r: EntryMeta)
        ensures
            r == *self,
    {
        EntryMeta {
            name: self.name.clone(),
            path: self.path.clone(),
            kind: self.kind,
            size: self.size,
            created: self.created,
            modified: self.modified,
            accessed: self.accessed,
            attributes: self.attributes,
            link_target: match &self.link_target {
                Some(t) => Some(t.clone()),
                None => None,
            },
            is_broken_link: self.is_broken_link,
            extension: match &self.extension {
                Some(e) => Some(e.clone()),
                None => None,
            },
        }
    }
}

impl EntryMeta {
    /// The record invariant: directories carry no size, only files carry an
    /// extension, only links carry a target.
    pub open spec fn wf(&self) -> bool {
        &&& self.kind is Directory ==> self.size == 0
        &&& !(self.kind is File) ==> self.extension is None
        &&& self.link_target is Some ==> (self.kind is Symlink || self.kind is Junction)
    }

    /// Create a new `EntryMeta` with minimal required fields.
    pub fn new(name: String, path: String, kind: EntryKind) -> (r: EntryMeta)
        ensures
            r.name == name,
            r.path == path,
            r.kind == kind,
            r.size == 0,
            r.created is None && r.modified is None && r.accessed is None,
            r.link_target is None,
            !r.is_broken_link,
            kind is File ==> opt_view(r.extension) == spec_extension(path@),
            !(kind is File) ==> r.extension is None,
            r.wf(),
    {
        let extension = if kind.is_file() {
            extension_of(path.as_str())
        } else {
            None
        };
        EntryMeta {
            name,
            path,
            kind,
            size: 0,
            created: None,
            modified: None,
            accessed: None,
            attributes: EntryAttributes::none(),
            link_target: None,
            is_broken_link: false,
            extension,
        }
    }

    /// Whether this entry counts as hidden: the attribute, or a name that
    /// starts with a dot.
    pub open spec fn spec_is_hidden(&self) -> bool {
        self.attributes.hidden || (self.name@.len() > 0 && self.name@[0] == '.')
    }

    /// Returns `true` if this entry should be hidden by default.
    pub fn is_hidden(&self) -> (r: bool)
        ensures
            r == self.spec_is_hidden(),
    {
        if self.attributes.hidden {
            return true;
        }
        let len = self.name.as_str().unicode_len();
        len > 0 && self.name.as_str().get_char(0) == '.'
    }

    /// Returns `true` if this is a file.
    pub fn is_file(&self) -> (r: bool)
        ensures
            r == (self.kind is File),
    {
        self.kind.is_file()
    }

    /// Returns `true` if this is a directory.
    pub fn is_directory(&self) -> (r: bool)
        ensures
            r == (self.kind is Directory),
    {
        self.kind.is_directory()
    }

    /// Returns `true` if this is any kind of link.
    pub fn is_link(&self) -> (r: bool)
        ensures
            r == (self.kind is Symlink || self.kind is Junction),
    {
        self.kind.is_link()
    }

    /// Get a human-readable size string (e.g., "1.5 MB").
    pub fn size_display(&self) -> (r: String)
        ensures
            r@ == spec_format_size(self.size),
    {
        format_size(self.size)
    }
}

/// What `format_size` renders: binary units with two decimal places, plain
/// bytes below 1 KB.
pub open spec fn spec_format_size(bytes: u64) -> Seq<char> {
    if bytes >= TB {
        scaled2(bytes as nat, TB as nat) + " TB"@
    } else if bytes >= GB {
        scaled2(bytes as nat, GB as nat) + " GB"@
    } else if bytes >= MB {
        scaled2(bytes as nat, MB as nat) + " MB"@
    } else if bytes >= KB {
        scaled2(bytes as nat, KB as nat) + " KB"@
    } else {
        dec_str(bytes as nat) + " B"@
    }
}

/// Format a byte size as a human-readable string.
pub fn format_size(bytes: u64) -> (r: String)
    ensures
        r@ == spec_format_size(bytes),
{
    if bytes >= TB {
        let mut s = crate::text::scaled2_string(bytes, TB);
        s.append(" TB");
        proof {
            assert(s@ =~= spec_format_size(bytes));
        }
        s
    } else if bytes >= GB {
        let mut s = crate::text::scaled2_string(bytes, GB);
        s.append(" GB");
        proof {
            assert(s@ =~= spec_format_size(bytes));
        }
        s
    } else if bytes >= MB {
        let mut s = crate::text::scaled2_string(bytes, MB);
        s.append(" MB");
        proof {
            assert(s@ =~= spec_format_size(bytes));
        }
        s
    } else if bytes >= KB {
        let mut s = crate::text::scaled2_string(bytes, KB);
        s.append(" KB");
        proof {
            assert(s@ =~= spec_format_size(bytes));
        }
        s
    } else {
        let mut s = crate::text::u64_to_string(bytes);
        s.append(" B");
        proof {
            assert(s@ =~= spec_format_size(bytes));
        }
        s
    }
}

/// How many of the entries are files.
pub open spec fn num_files(s: Seq<EntryMeta>) -> int
    decreases s.len(),
{
    if s.len() == 0 {
        0
    } else {
        num_files(s.drop_last()) + if s.last().kind is File {
            1int
        } else {
            0int
        }
    }
}

/// How many of the entries are directories.
pub open spec fn num_dirs(s: Seq<EntryMeta>) -> int
    decreases s.len(),
{
    if s.len() == 0 {
        0
    } else {
        num_dirs(s.drop_last()) + if s.last().kind is Directory {
            1int
        } else {
            0int
        }
    }
}

/// The summed size of the file entries.
pub open spec fn files_size(s: Seq<EntryMeta>) -> int
    decreases s.len(),
{
    if s.len() == 0 {
        0
    } else {
        files_size(s.drop_last()) + if s.last().kind is File {
            s.last().size as int
        } else {
            0int
        }
    }
}

/// A listing of directory contents with summary statistics.
#[derive(Debug, Clone)]
pub struct DirListing {
    /// The directory path that was listed.
    pub path: String,
    /// The entries in this directory.
    pub entries: Vec<EntryMeta>,
    /// Number of files in this directory (direct children only).
    pub file_count: usize,
    /// Number of directories in this directory (direct children only).
    pub dir_count: usize,
    /// Total size of all files (direct children only).
    pub total_size: u64,
}

impl DirListing {
    /// The counts and the total agree with the entries.
    pub open spec fn wf(&self) -> bool {
        &&& self.file_count == num_files(self.entries@)
        &&& self.dir_count == num_dirs(self.entries@)
        &&& self.total_size == files_size(self.entries@)
    }

    /// Create a new directory listing; the statistics are derived from the
    /// entries.
    pub fn new(path: String, entries: Vec<EntryMeta>) -> (r: DirListing)
        requires
            files_size(entries@) <= u64::MAX,
        ensures
            r.path == path,
            r.entries == entries,
            r.wf(),
    {
        let n = entries.len();
        let mut file_count: usize = 0;
        let mut dir_count: usize = 0;
        let mut total_size: u64 = 0;
        let mut i: usize = 0;
        while i < n
            invariant
                i <= n,
                n == entries@.len(),
                file_count == num_files(entries@.take(i as int)),
                dir_count == num_dirs(entries@.take(i as int)),
                total_size == files_size(entries@.take(i as int)),
                files_size(entries@) <= u64::MAX,
                file_count <= i,
                dir_count <= i,
            decreases n - i,
        {
            proof {
                assert(entries@.take(i + 1).drop_last() =~= entries@.take(i as int));
                assert(entries@.take(i + 1).last() == entries@[i as int]);
                lemma_files_size_prefix_bound(entries@, i + 1);
            }
            let e = &entries[i];
            match e.kind {
                EntryKind::File => {
                    file_count += 1;
                    total_size += e.size;
                },
                EntryKind::Directory => {
                    dir_count += 1;
                },
                _ => {},
            }
            i += 1;
        }
        proof {
            assert(entries@.take(n as int) =~= entries@);
        }
        DirListing { path, entries, file_count, dir_count, total_size }
    }

    /// Returns `true` if the directory is empty.
    pub fn is_empty(&self) -> (r: bool)
        ensures
            r == (self.entries@.len() == 0),
    {
        self.entries.len() == 0
    }

    /// Total number of entries.
    pub fn len(&self) -> (r: usize)
        ensures
            r == self.entries@.len(),
    {
        self.entries.len()
    }

    /// Get an entry by name.
    pub fn get(&self, name: &str) -> (r: Option<&EntryMeta>)
        ensures
            match r {
                Some(e) => exists|i: int|
                    0 <= i < self.entries@.len() && self.entries@[i] == *e && e.name@ == name@,
                None => forall|i: int|
                    0 <= i < self.entries@.len() ==> (#[trigger] self.entries@[i]).name@ != name@,
            },
    {
        let n = self.entries.len();
        let mut i: usize = 0;
        while i < n
            invariant
                i <= n,
                n == self.entries@.len(),
                forall|k: int|
                    0 <= k < i ==> (#[trigger] self.entries@[k]).name@ != name@,
            decreases n - i,
        {
            if crate::text::str_eq(self.entries[i].name.as_str(), name) {
                return Some(&self.entries[i]);
            }
            i += 1;
        }
        None
    }
}

/// A prefix of the entries never sums to more than the whole.
proof fn lemma_files_size_prefix_bound(s: Seq<EntryMeta>, i: int)
    requires
        0 <= i <= s.len(),
    ensures
        files_size(s.take(i)) <= files_size(s),
    decreases s.len() - i,
{
    if i == s.len() {
        assert(s.take(i) =~= s);
    } else {
        lemma_files_size_prefix_bound(s, i + 1);
        assert(s.take(i + 1).drop_last() =~= s.take(i));
        assert(s.take(i + 1).last() == s[i]);
    }
}

} // verus!
