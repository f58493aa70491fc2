//! Conflict detection and resolution strategies for transfers whose
//! destination already exists.

use vstd::prelude::*;
use crate::paths::last_sep_index;
use crate::entry::last_dot_index;
use crate::selection::holds_path;
use crate::text::dec_str;

verus! {

/// A conflict detected during transfer planning or execution; built by the
/// caller from the two paths' metadata.
#[derive(Debug, Clone, PartialEq)]
pub struct Conflict {
    /// Source file path.
    pub source: String,
    /// Destination file path (where the conflict exists).
    pub destination: String,
    /// Size of the source file.
    pub source_size: u64,
    /// Size of the existing destination file.
    pub dest_size: u64,
    /// Modification time of source, seconds since the Unix epoch.
    pub source_modified: Option<i64>,
    /// Modification time of destination, seconds since the Unix epoch.
    pub dest_modified: Option<i64>,
    /// Whether the source is a directory.
    pub is_dir: bool,
}

impl Conflict {
    /// Whether the source is strictly newer: unknown when either side has
    /// no timestamp.
    pub open spec fn spec_source_is_newer(&self) -> Option<bool> {
        match (self.source_modified, self.dest_modified) {
            (Some(src), Some(dst)) => Some(src > dst),
            _ => None,
        }
    }

    /// Check if source is newer than destination.
    pub fn source_is_newer(&self) -> (r: Option<bool>)
        ensures
            r == self.spec_source_is_newer(),
    {
        match (self.source_modified, self.dest_modified) {
            (Some(src), Some(dst)) => Some(src > dst),
            _ => None,
        }
    }

    /// Check if the files have the same size.
    pub fn same_size(&self) -> (r: bool)
        ensures
            r == (self.source_size == self.dest_size),
    {
        self.source_size == self.dest_size
    }

    /// What `description` renders.
    pub open spec fn spec_description(&self) -> Seq<char> {
        if self.is_dir {
            "Directory already exists: "@ + self.destination@
        } else {
            "File already exists: "@ + self.destination@
        }
    }

    /// Get a human-readable description of the conflict.
    pub fn description(&self) -> (r: String)
        ensures
            r@ == self.spec_description(),
    {
        let mut s = if self.is_dir {
            "Directory already exists: ".to_owned()
        } else {
            "File already exists: ".to_owned()
        };
        s.append(self.destination.as_str());
        s
    }
}

/// Policy for resolving file conflicts.
#[derive(Debug, Clone, Copy, PartialEq, Eq, Structural)]
pub enum ConflictPolicy {
    /// Always overwrite existing files.
    Overwrite,
    /// Always skip conflicting files.
    Skip,
    /// Rename the source file (e.g., "file (1).txt").
    Rename,
    /// Keep the newer file (by modification time).
    KeepNewer,
    /// Keep the larger file.
    KeepLarger,
    /// Ask the user for each conflict.
    Ask,
}

impl Default for ConflictPolicy {
    fn default() -> (r: ConflictPolicy)
        ensures
            r is Ask,
    {
        ConflictPolicy::Ask
    }
}

impl ConflictPolicy {
    /// What `label` renders for each policy.
    pub open spec fn spec_label(&self) -> Seq<char> {
        match *self {
            ConflictPolicy::Overwrite => "Overwrite"@,
            ConflictPolicy::Skip => "Skip"@,
            ConflictPolicy::Rename => "Rename"@,
            ConflictPolicy::KeepNewer => "Keep Newer"@,
            ConflictPolicy::KeepLarger => "Keep Larger"@,
            ConflictPolicy::Ask => "Ask"@,
        }
    }

    /// Get a human-readable label for the policy.
    pub fn label(&self) -> (r: &'static str)
        ensures
            r@ == self.spec_label(),
    {
        match self {
            ConflictPolicy::Overwrite => "Overwrite",
            ConflictPolicy::Skip => "Skip",
            ConflictPolicy::Rename => "Rename",
            ConflictPolicy::KeepNewer => "Keep Newer",
            ConflictPolicy::KeepLarger => "Keep Larger",
            ConflictPolicy::Ask => "Ask",
        }
    }

    /// What `description` renders for each policy.
    pub open spec fn spec_policy_description(&self) -> Seq<char> {
        match *self {
            ConflictPolicy::Overwrite => "Replace existing files with source files"@,
            ConflictPolicy::Skip => "Keep existing files, don't copy conflicting sources"@,
            ConflictPolicy::Rename => "Rename source files to avoid conflicts (e.g., file (1).txt)"@,
            ConflictPolicy::KeepNewer => "Keep the file with the most recent modification time"@,
            ConflictPolicy::KeepLarger => "Keep the larger file"@,
            ConflictPolicy::Ask => "Ask for each conflict"@,
        }
    }

    /// Get a description of what the policy does.
    pub fn description(&self) -> (r: &'static str)
        ensures
            r@ == self.spec_policy_description(),
    {
        match self {
            ConflictPolicy::Overwrite => "Replace existing files with source files",
            ConflictPolicy::Skip => "Keep existing files, don't copy conflicting sources",
            ConflictPolicy::Rename => "Rename source files to avoid conflicts (e.g., file (1).txt)",
            ConflictPolicy::KeepNewer => "Keep the file with the most recent modification time",
            ConflictPolicy::KeepLarger => "Keep the larger file",
            ConflictPolicy::Ask => "Ask for each conflict",
        }
    }
}

/// Result of conflict resolution.
#[derive(Debug, Clone, Copy, PartialEq, Eq, Structural)]
pub enum ConflictResolution {
    /// Overwrite the destination.
    Overwrite,
    /// Skip this file.
    Skip,
    /// Use a renamed destination path.
    Rename,
    /// Cancel the entire operation.
    Cancel,
}

/// Settings for conflict handling.
#[derive(Debug, Clone, Copy, PartialEq, Eq, Structural)]
pub struct ConflictSettings {
    /// Default policy for file conflicts.
    pub file_policy: ConflictPolicy,
    /// Default policy for directory conflicts.
    pub dir_policy: ConflictPolicy,
    /// Whether to apply a cached resolution to all remaining conflicts.
    pub apply_to_all: bool,
}

impl Default for ConflictSettings {
    /// Files ask; directories merge by overwriting.
    fn default() -> (r: ConflictSettings)
        ensures
            r.file_policy is Ask,
            r.dir_policy is Overwrite,
            !r.apply_to_all,
    {
        ConflictSettings {
            file_policy: ConflictPolicy::Ask,
            dir_policy: ConflictPolicy::Overwrite,
            apply_to_all: false,
        }
    }
}

/// What one policy decides for one conflict; `None` asks the user.
pub open spec fn spec_policy_resolve(policy: ConflictPolicy, c: Conflict) -> Option<
    ConflictResolution,
> {
    match policy {
        ConflictPolicy::Overwrite => Some(ConflictResolution::Overwrite),
        ConflictPolicy::Skip => Some(ConflictResolution::Skip),
        ConflictPolicy::Rename => Some(ConflictResolution::Rename),
        ConflictPolicy::KeepNewer => match c.spec_source_is_newer() {
            Some(true) => Some(ConflictResolution::Overwrite),
            Some(false) => Some(ConflictResolution::Skip),
            None => None,
        },
        ConflictPolicy::KeepLarger => if c.source_size > c.dest_size {
            Some(ConflictResolution::Overwrite)
        } else {
            Some(ConflictResolution::Skip)
        },
        ConflictPolicy::Ask => None,
    }
}

/// Resolver for handling conflicts during transfer.
#[derive(Debug, Clone, PartialEq, Eq, Structural)]
pub struct ConflictResolver {
    settings: ConflictSettings,
    /// Cached resolution for "apply to all".
    cached_resolution: Option<ConflictResolution>,
}

/// What a resolver decides for one conflict: the cached answer when "apply
/// to all" is armed, else the policy for the conflict's kind.
pub open spec fn spec_resolve(r: ConflictResolver, c: Conflict) -> Option<ConflictResolution> {
    if r.spec_settings().apply_to_all && r.spec_cached() is Some {
        r.spec_cached()
    } else if c.is_dir {
        spec_policy_resolve(r.spec_settings().dir_policy, c)
    } else {
        spec_policy_resolve(r.spec_settings().file_policy, c)
    }
}

impl ConflictResolver {
    /// The settings in force.
    pub closed spec fn spec_settings(&self) -> ConflictSettings {
        self.settings
    }

    /// The cached "apply to all" answer.
    pub closed spec fn spec_cached(&self) -> Option<ConflictResolution> {
        self.cached_resolution
    }

    /// Create a new resolver with default settings.
    pub fn new() -> (r: ConflictResolver)
        ensures
            r.spec_settings().file_policy is Ask,
            r.spec_settings().dir_policy is Overwrite,
            !r.spec_settings().apply_to_all,
            r.spec_cached() is None,
    {
        ConflictResolver {
            settings: ConflictSettings {
                file_policy: ConflictPolicy::Ask,
                dir_policy: ConflictPolicy::Overwrite,
                apply_to_all: false,
            },
            cached_resolution: None,
        }
    }

    /// Create a new resolver with custom settings.
    pub fn with_settings(settings: ConflictSettings) -> (r: ConflictResolver)
        ensures
            r.spec_settings() == settings,
            r.spec_cached() is None,
    {
        ConflictResolver { settings, cached_resolution: None }
    }

    /// Create a resolver that always overwrites.
    pub fn overwrite_all() -> (r: ConflictResolver)
        ensures
            r.spec_settings().file_policy is Overwrite,
            r.spec_settings().dir_policy is Overwrite,
            r.spec_settings().apply_to_all,
            r.spec_cached() is None,
    {
        ConflictResolver::with_settings(
            ConflictSettings {
                file_policy: ConflictPolicy::Overwrite,
                dir_policy: ConflictPolicy::Overwrite,
                apply_to_all: true,
            },
        )
    }

    /// Create a resolver that always skips.
    pub fn skip_all() -> (r: ConflictResolver)
        ensures
            r.spec_settings().file_policy is Skip,
            r.spec_settings().dir_policy is Skip,
            r.spec_settings().apply_to_all,
            r.spec_cached() is None,
    {
        ConflictResolver::with_settings(
            ConflictSettings {
                file_policy: ConflictPolicy::Skip,
                dir_policy: ConflictPolicy::Skip,
                apply_to_all: true,
            },
        )
    }

    /// Get the current settings.
    pub fn settings(&self) -> (r: &ConflictSettings)
        ensures
            *r == self.spec_settings(),
    {
        &self.settings
    }

    /// Update settings; the cached answer is dropped.
    pub fn set_settings(&mut self, settings: ConflictSettings)
        ensures
            final(self).spec_settings() == settings,
            final(self).spec_cached() is None,
    {
        self.settings = settings;
        self.cached_resolution = None;
    }

    /// Arm "apply to all" with a specific resolution.
    pub fn apply_to_all(&mut self, resolution: ConflictResolution)
        ensures
            final(self).spec_settings().apply_to_all,
            final(self).spec_cached() == Some(resolution),
            final(self).spec_settings().file_policy == old(self).spec_settings().file_policy,
            final(self).spec_settings().dir_policy == old(self).spec_settings().dir_policy,
    {
        self.settings.apply_to_all = true;
        self.cached_resolution = Some(resolution);
    }

    /// Disarm "apply to all".
    pub fn reset_apply_to_all(&mut self)
        ensures
            !final(self).spec_settings().apply_to_all,
            final(self).spec_cached() is None,
            final(self).spec_settings().file_policy == old(self).spec_settings().file_policy,
            final(self).spec_settings().dir_policy == old(self).spec_settings().dir_policy,
    {
        self.settings.apply_to_all = false;
        self.cached_resolution = None;
    }

    /// Resolve a conflict using the current policy. Returns `None` when
    /// the policy asks the user to decide.
    pub fn resolve(&self, conflict: &Conflict) -> (r: Option<ConflictResolution>)
        ensures
            r == spec_resolve(*self, *conflict),
    {
        if self.settings.apply_to_all {
            match self.cached_resolution {
                Some(cached) => {
                    return Some(cached);
                },
                None => {},
            }
        }
        let policy = if conflict.is_dir {
            self.settings.dir_policy
        } else {
            self.settings.file_policy
        };
        match policy {
            ConflictPolicy::Overwrite => Some(ConflictResolution::Overwrite),
            ConflictPolicy::Skip => Some(ConflictResolution::Skip),
            ConflictPolicy::Rename => Some(ConflictResolution::Rename),
            ConflictPolicy::KeepNewer => match conflict.source_is_newer() {
                Some(true) => Some(ConflictResolution::Overwrite),
                Some(false) => Some(ConflictResolution::Skip),
                None => None,
            },
            ConflictPolicy::KeepLarger => {
                if conflict.source_size > conflict.dest_size {
                    Some(ConflictResolution::Overwrite)
                } else {
                    Some(ConflictResolution::Skip)
                }
            },
            ConflictPolicy::Ask => None,
        }
    }
}

/// The directory prefix of a path, up to and including its last separator.
pub open spec fn dir_prefix(path: Seq<char>) -> Seq<char> {
    path.subrange(0, last_sep_index(path) + 1)
}

/// The stem a rename builds on: the final component up to its last dot, or
/// "file" when the name is empty.
pub open spec fn rename_stem(path: Seq<char>) -> Seq<char> {
    let name = crate::paths::spec_file_name(path);
    if name.len() == 0 {
        "file"@
    } else {
        let d = last_dot_index(name);
        if d <= 0 {
            name
        } else {
            name.subrange(0, d)
        }
    }
}

/// The dot-suffix a rename keeps: ".ext" when the name carries one.
pub open spec fn rename_suffix(path: Seq<char>) -> Seq<char> {
    let name = crate::paths::spec_file_name(path);
    let d = last_dot_index(name);
    if name.len() == 0 || d <= 0 {
        Seq::<char>::empty()
    } else {
        "."@ + name.subrange(d + 1, name.len() as int)
    }
}

/// The k-th rename candidate: "stem (k)" with the suffix, under the same
/// directory.
pub open spec fn rename_candidate(path: Seq<char>, k: nat) -> Seq<char> {
    dir_prefix(path) + rename_stem(path) + " ("@ + dec_str(k) + ")"@ + rename_suffix(path)
}

/// The timestamp fallback name after the candidate budget runs out.
pub open spec fn rename_fallback(path: Seq<char>, secs: nat) -> Seq<char> {
    dir_prefix(path) + rename_stem(path) + "_"@ + dec_str(secs) + rename_suffix(path)
}

/// The name a rename picks: the first free candidate from `k` up, or the
/// fallback once the budget is spent.
pub open spec fn rename_pick(existing: Seq<String>, path: Seq<char>, secs: nat, k: nat) -> Seq<
    char,
>
    decreases 10001 - k,
{
    if k > 10000 {
        rename_fallback(path, secs)
    } else if !holds_path(existing, rename_candidate(path, k)) {
        rename_candidate(path, k)
    } else {
        rename_pick(existing, path, secs, k + 1)
    }
}

/// When some candidate within the budget is free, what the rename picks is
/// not among the existing names: the generated path does not exist at
/// generation time.
pub proof fn lemma_rename_avoids_existing(
    existing: Seq<String>,
    path: Seq<char>,
    secs: nat,
    k: nat,
)
    requires
        1 <= k <= 10000,
        exists|j: nat|
            k <= j <= 10000 && !holds_path(existing, #[trigger] rename_candidate(path, j)),
    ensures
        !holds_path(existing, rename_pick(existing, path, secs, k)),
    decreases 10001 - k,
{
    if !holds_path(existing, rename_candidate(path, k)) {
    } else {
        let j = choose|j: nat|
            k <= j <= 10000 && !holds_path(existing, #[trigger] rename_candidate(path, j));
        assert(k + 1 <= j <= 10000 && !holds_path(existing, rename_candidate(path, j)));
        lemma_rename_avoids_existing(existing, path, secs, k + 1);
    }
}

/// Generate a unique renamed path for a file: "stem (1)", "stem (2)", …
/// against the given set of existing names, with a timestamp fallback
/// after ten thousand taken candidates.
pub fn generate_rename_path(path: &str, existing: &Vec<String>, fallback_secs: u64) -> (r: String)
    ensures
        r@ == rename_pick(existing@, path@, fallback_secs as nat, 1),
{
    let plen = path.unicode_len();
    proof {
        crate::paths::lemma_last_sep_index(path@);
    }
    let prefix_end: usize = match crate::paths::rfind_sep(path) {
        Some(i) => i + 1,
        None => 0,
    };
    let prefix = path.substring_char(0, prefix_end);
    let name = crate::paths::file_name_of(path);
    let nlen = name.as_str().unicode_len();
    let (stem, suffix) = if nlen == 0 {
        ("file".to_owned(), String::new())
    } else {
        match crate::entry::rfind_dot(name.as_str()) {
            Some(d) if d > 0 => {
                let stem = name.as_str().substring_char(0, d).to_owned();
                let mut suffix = ".".to_owned();
                let ext = name.as_str().substring_char(d + 1, nlen);
                suffix.append(ext);
                (stem, suffix)
            },
            _ => (name.as_str().to_owned(), String::new()),
        }
    };
    proof {
        crate::paths::lemma_last_sep_index(path@);
        assert(prefix@ =~= dir_prefix(path@));
        assert(stem@ =~= rename_stem(path@));
        if name@.len() == 0 || last_dot_index(name@) <= 0 {
            assert(suffix@ =~= rename_suffix(path@));
        } else {
            assert(suffix@ =~= rename_suffix(path@));
        }
    }
    let mut counter: u64 = 1;
    loop
        invariant
            1 <= counter <= 10001,
            prefix@ == dir_prefix(path@),
            stem@ == rename_stem(path@),
            suffix@ == rename_suffix(path@),
            rename_pick(existing@, path@, fallback_secs as nat, 1) == rename_pick(
                existing@,
                path@,
                fallback_secs as nat,
                counter as nat,
            ),
        decreases 10001 - counter,
    {
        if counter > 10000 {
            // fall back to a timestamp-based name
            let mut out = prefix.to_owned();
            out.append(stem.as_str());
            out.append("_");
            let num = crate::text::u64_to_string(fallback_secs);
            out.append(num.as_str());
            out.append(suffix.as_str());
            proof {
                assert(out@ =~= rename_fallback(path@, fallback_secs as nat));
            }
            return out;
        }
        let mut cand = prefix.to_owned();
        cand.append(stem.as_str());
        cand.append(" (");
        let num = crate::text::u64_to_string(counter);
        cand.append(num.as_str());
        cand.append(")");
        cand.append(suffix.as_str());
        proof {
            assert(cand@ =~= rename_candidate(path@, counter as nat));
        }
        if !contains_name(existing, cand.as_str()) {
            return cand;
        }
        counter += 1;
    }
}

/// Checks whether the list holds `name`.
fn contains_name(v: &Vec<String>, name: &str) -> (r: bool)
    ensures
        r == holds_path(v@, name@),
{
    let n = v.len();
    let mut i: usize = 0;
    while i < n
        invariant
            i <= n,
            n == v@.len(),
            forall|k: int| 0 <= k < i ==> (#[trigger] v@[k])@ != name@,
        decreases n - i,
    {
        if crate::text::str_eq(v[i].as_str(), name) {
            return true;
        }
        i += 1;
    }
    false
}

} // verus!
