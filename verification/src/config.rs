//! Configuration state: the settings records with their defaults, and the
//! favorites list with duplicate-free maintenance. Reading and writing the
//! configuration file is the caller's part.

use vstd::prelude::*;
use crate::error::{ZError, ZResult};
use crate::selection::holds_path;
use crate::text::lower_of;

verus! {

/// General application settings.
#[derive(Debug, Clone, PartialEq)]
pub struct GeneralConfig {
    /// Whether to show hidden files by default.
    pub show_hidden: bool,
    /// Whether to show system files.
    pub show_system: bool,
    /// Whether to confirm before deleting to the recycle bin.
    pub confirm_delete: bool,
    /// Whether to confirm before permanent delete.
    pub confirm_permanent_delete: bool,
    /// Maximum number of history entries (back/forward).
    pub max_history: usize,
    /// Default sort field.
    pub default_sort_field: String,
    /// Default sort order (ascending when set).
    pub default_sort_ascending: bool,
    /// Starting directory (absent: last used or home).
    pub start_directory: Option<String>,
}

impl Default for GeneralConfig {
    fn default() -> (r: GeneralConfig)
        ensures
            !r.show_hidden,
            !r.show_system,
            r.confirm_delete,
            r.confirm_permanent_delete,
            r.max_history == 100,
            r.default_sort_ascending,
            r.start_directory is None,
    {
        GeneralConfig {
            show_hidden: false,
            show_system: false,
            confirm_delete: true,
            confirm_permanent_delete: true,
            max_history: 100,
            default_sort_field: "name".to_owned(),
            default_sort_ascending: true,
            start_directory: None,
        }
    }
}

/// Column width settings.
#[derive(Debug, Clone, Copy, PartialEq, Eq, Structural)]
pub struct ColumnWidths {
    pub name: u16,
    pub size: u16,
    pub date: u16,
    pub kind: u16,
}

impl Default for ColumnWidths {
    fn default() -> (r: ColumnWidths)
        ensures
            r.name == 40 && r.size == 10 && r.date == 20 && r.kind == 10,
    {
        ColumnWidths { name: 40, size: 10, date: 20, kind: 10 }
    }
}

/// Appearance and display settings.
#[derive(Debug, Clone, PartialEq)]
pub struct AppearanceConfig {
    /// Theme name.
    pub theme: String,
    /// Whether to use icons.
    pub show_icons: bool,
    /// Date format string.
    pub date_format: String,
    /// Whether to show file extensions.
    pub show_extensions: bool,
    /// Whether to use human-readable file sizes.
    pub human_readable_sizes: bool,
    /// Column widths for the list view.
    pub column_widths: ColumnWidths,
}

impl Default for AppearanceConfig {
    fn default() -> (r: AppearanceConfig)
        ensures
            r.show_icons,
            r.show_extensions,
            r.human_readable_sizes,
    {
        AppearanceConfig {
            theme: "default".to_owned(),
            show_icons: true,
            date_format: "%Y-%m-%d %H:%M".to_owned(),
            show_extensions: true,
            human_readable_sizes: true,
            column_widths: ColumnWidths { name: 40, size: 10, date: 20, kind: 10 },
        }
    }
}

/// File operation settings.
#[derive(Debug, Clone, Copy, PartialEq, Eq, Structural)]
pub struct OperationsConfig {
    /// Maximum concurrent file operations.
    pub max_concurrent_jobs: usize,
    /// Buffer size for copy operations (in kilobytes).
    pub copy_buffer_size_kb: usize,
    /// Whether to use a fast rename when on the same volume.
    pub fast_move_same_volume: bool,
    /// Whether to preserve timestamps when copying.
    pub preserve_timestamps: bool,
    /// Whether to follow symlinks when copying.
    pub follow_symlinks: bool,
}

impl Default for OperationsConfig {
    fn default() -> (r: OperationsConfig)
        ensures
            r.max_concurrent_jobs == 2,
            r.copy_buffer_size_kb == 64,
            r.fast_move_same_volume,
            r.preserve_timestamps,
            !r.follow_symlinks,
    {
        OperationsConfig {
            max_concurrent_jobs: 2,
            copy_buffer_size_kb: 64,
            fast_move_same_volume: true,
            preserve_timestamps: true,
            follow_symlinks: false,
        }
    }
}

/// A favorite/quick access entry.
#[derive(Debug, PartialEq)]
pub struct Favorite {
    /// Unique identifier, derived from the name.
    pub id: String,
    /// Display name.
    pub name: String,
    /// Path to the favorite location.
    pub path: String,
    /// Sort order (lower = higher in the list).
    pub order: u32,
    /// Optional icon name.
    pub icon: Option<String>,
}

impl Clone for Favorite {
    /// A favorite clones field by field, to an equal record.
    fn clone(&self) -> (r: Favorite)
        ensures
            r == *self,
    {
        Favorite {
            id: self.id.clone(),
            name: self.name.clone(),
            path: self.path.clone(),
            order: self.order,
            icon: match &self.icon {
                Some(s) => Some(s.clone()),
                None => None,
            },
        }
    }
}

/// Whether an identifier keeps a character: lower-case letters, digits,
/// and the dash.
pub open spec fn id_char(c: char) -> bool {
    ('a' <= c && c <= 'z') || ('0' <= c && c <= '9') || c == '-'
}

/// The identifier a name yields: its lowercase form with everything but
/// letters, digits and dashes dropped.
pub open spec fn spec_id_of(name: Seq<char>) -> Seq<char> {
    lower_of(name).filter(|c: char| id_char(c))
}

/// Derives a favorite's identifier from its name.
pub fn id_of(name: &str) -> (r: String)
    ensures
        r@ == spec_id_of(name@),
{
    let lowered = crate::text::lowercase(name);
    let len = lowered.as_str().unicode_len();
    let mut out = String::new();
    let mut i: usize = 0;
    proof {
        reveal(Seq::filter);
        assert(lowered@.take(0).filter(|c: char| id_char(c)) =~= Seq::<char>::empty());
    }
    while i < len
        invariant
            i <= len,
            len == lowered@.len(),
            lowered@ == lower_of(name@),
            out@ == lowered@.take(i as int).filter(|c: char| id_char(c)),
        decreases len - i,
    {
        proof {
            reveal(Seq::filter);
            assert(lowered@.take(i + 1).drop_last() =~= lowered@.take(i as int));
            assert(lowered@.take(i + 1).last() == lowered@[i as int]);
        }
        let c = lowered.as_str().get_char(i);
        let keep = ('a' <= c && c <= 'z') || ('0' <= c && c <= '9') || c == '-';
        if keep {
            let piece = lowered.as_str().substring_char(i, i + 1);
            out.append(piece);
            proof {
                assert(piece@ =~= seq![lowered@[i as int]]);
                assert(out@ =~= lowered@.take(i + 1).filter(|c2: char| id_char(c2)));
            }
        }
        i += 1;
    }
    proof {
        assert(lowered@.take(len as int) =~= lowered@);
    }
    out
}

impl Favorite {
    /// Create a new favorite; the identifier is derived from the name.
    pub fn new(name: &str, path: &str) -> (r: Favorite)
        ensures
            r.id@ == spec_id_of(name@),
            r.name@ == name@,
            r.path@ == path@,
            r.order == 0,
            r.icon is None,
    {
        Favorite {
            id: id_of(name),
            name: name.to_owned(),
            path: path.to_owned(),
            order: 0,
            icon: None,
        }
    }
}

/// Session state that can be saved/restored between runs.
#[derive(Debug, Clone, PartialEq)]
pub struct SessionState {
    /// Last active directory for the left pane.
    pub last_left_dir: Option<String>,
    /// Last active directory for the right pane.
    pub last_right_dir: Option<String>,
    /// Window size/position (for a windowed front end).
    pub window_state: Option<WindowState>,
    /// Last used sort settings.
    pub last_sort: Option<SortSettings>,
}

/// Window state for a windowed front end.
#[derive(Debug, Clone, Copy, PartialEq, Eq, Structural)]
pub struct WindowState {
    pub x: i32,
    pub y: i32,
    pub width: u32,
    pub height: u32,
    pub maximized: bool,
}

/// Sort settings as persisted.
#[derive(Debug, Clone, PartialEq)]
pub struct SortSettings {
    pub field: String,
    pub ascending: bool,
}

/// The main configuration.
#[derive(Debug, Clone)]
pub struct Config {
    /// General application settings.
    pub general: GeneralConfig,
    /// Appearance and display settings.
    pub appearance: AppearanceConfig,
    /// File operation settings.
    pub operations: OperationsConfig,
    /// Favorites/Quick Access entries.
    pub favorites: Vec<Favorite>,
    /// Session state (last directories and the like).
    pub session: Option<SessionState>,
}

/// Whether the list holds a favorite with the given id.
pub open spec fn has_fav_id(v: Seq<Favorite>, id: Seq<char>) -> bool {
    exists|i: int| 0 <= i < v.len() && (#[trigger] v[i]).id@ == id
}

/// Whether the list holds a favorite with the given case-folded path.
pub open spec fn has_fav_path(v: Seq<Favorite>, p: Seq<char>) -> bool {
    exists|i: int| 0 <= i < v.len() && lower_of((#[trigger] v[i]).path@) == p
}

/// Favorites ordered by their order field.
pub open spec fn fav_le(a: Favorite, b: Favorite) -> bool {
    a.order <= b.order
}

/// The favorite ordering as a comparator value.
pub open spec fn fav_le_fn() -> spec_fn(Favorite, Favorite) -> bool {
    |a: Favorite, b: Favorite| fav_le(a, b)
}

impl Config {
    /// Create a configuration with every setting at its default and no
    /// favorites.
    pub fn new() -> (r: Config)
        ensures
            !r.general.show_hidden,
            r.general.confirm_delete,
            r.general.max_history == 100,
            r.favorites@.len() == 0,
            r.session is None,
    {
        Config {
            general: GeneralConfig {
                show_hidden: false,
                show_system: false,
                confirm_delete: true,
                confirm_permanent_delete: true,
                max_history: 100,
                default_sort_field: "name".to_owned(),
                default_sort_ascending: true,
                start_directory: None,
            },
            appearance: AppearanceConfig {
                theme: "default".to_owned(),
                show_icons: true,
                date_format: "%Y-%m-%d %H:%M".to_owned(),
                show_extensions: true,
                human_readable_sizes: true,
                column_widths: ColumnWidths { name: 40, size: 10, date: 20, kind: 10 },
            },
            operations: OperationsConfig {
                max_concurrent_jobs: 2,
                copy_buffer_size_kb: 64,
                fast_move_same_volume: true,
                preserve_timestamps: true,
                follow_symlinks: false,
            },
            favorites: Vec::new(),
            session: None,
        }
    }

    /// Validate the configuration: the history bound must be positive.
    pub fn validate(&self) -> (r: ZResult<()>)
        ensures
            r is Ok <==> self.general.max_history > 0,
    {
        if self.general.max_history == 0 {
            return Err(
                ZError::Config { message: "max_history must be greater than 0".to_owned() },
            );
        }
        Ok(())
    }

    /// Add a favorite; one with a duplicate path (case-folded) or a
    /// duplicate id is skipped. A zero order is assigned the end of the
    /// list.
    pub fn add_favorite(&mut self, favorite: Favorite)
        requires
            old(self).favorites@.len() < usize::MAX,
            old(self).favorites@.len() + 1 <= u32::MAX,
        ensures
            final(self).general == old(self).general,
            // a duplicate changes nothing
            (has_fav_path(old(self).favorites@, lower_of(favorite.path@)) || has_fav_id(
                old(self).favorites@,
                favorite.id@,
            )) ==> final(self).favorites@ == old(self).favorites@,
            // a new favorite joins the end, under its id and path
            !(has_fav_path(old(self).favorites@, lower_of(favorite.path@)) || has_fav_id(
                old(self).favorites@,
                favorite.id@,
            )) ==> final(self).favorites@.len() == old(self).favorites@.len() + 1 && final(self).favorites@.last().id == favorite.id && final(self).favorites@.last().path
                == favorite.path,
    {
        let folded = crate::text::lowercase(favorite.path.as_str());
        let n = self.favorites.len();
        let mut i: usize = 0;
        while i < n
            invariant
                i <= n,
                self.favorites@ == old(self).favorites@,
                n == self.favorites@.len(),
                folded@ == lower_of(favorite.path@),
                forall|k: int|
                    0 <= k < i ==> lower_of((#[trigger] self.favorites@[k]).path@) != folded@ && (
                    #[trigger] self.favorites@[k]).id@ != favorite.id@,
            decreases n - i,
        {
            let other = crate::text::lowercase(self.favorites[i].path.as_str());
            if crate::text::str_eq(other.as_str(), folded.as_str()) {
                return ;
            }
            if crate::text::str_eq(self.favorites[i].id.as_str(), favorite.id.as_str()) {
                return ;
            }
            i += 1;
        }
        proof {
            if has_fav_path(self.favorites@, folded@) {
                let w = choose|w: int|
                    0 <= w < self.favorites@.len() && lower_of(
                        (#[trigger] self.favorites@[w]).path@,
                    ) == folded@;
                assert(false);
            }
            if has_fav_id(self.favorites@, favorite.id@) {
                let w = choose|w: int|
                    0 <= w < self.favorites@.len() && (#[trigger] self.favorites@[w]).id@
                        == favorite.id@;
                assert(false);
            }
        }
        let mut fav = favorite;
        if fav.order == 0 {
            fav.order = (self.favorites.len() as u32) + 1;
        }
        self.favorites.push(fav);
    }

    /// Remove a favorite by id; reports whether one left.
    pub fn remove_favorite(&mut self, id: &str) -> (r: bool)
        ensures
            !has_fav_id(final(self).favorites@, id@),
            r == has_fav_id(old(self).favorites@, id@),
            final(self).general == old(self).general,
    {
        let mut kept: Vec<Favorite> = Vec::new();
        let mut removed = false;
        let n = self.favorites.len();
        let mut i: usize = 0;
        while i < n
            invariant
                i <= n,
                n == self.favorites@.len(),
                forall|k: int| 0 <= k < kept@.len() ==> (#[trigger] kept@[k]).id@ != id@,
                removed == has_fav_id(self.favorites@.take(i as int), id@),
                kept@.len() <= i,
                self.favorites@ == old(self).favorites@,
                self.general == old(self).general,
            decreases n - i,
        {
            if crate::text::str_eq(self.favorites[i].id.as_str(), id) {
                removed = true;
                proof {
                    assert((self.favorites@.take(i + 1)[i as int]).id@ == id@);
                }
            } else {
                kept.push(self.favorites[i].clone());
            }
            proof {
                if has_fav_id(self.favorites@.take(i as int), id@) {
                    let w = choose|w: int|
                        0 <= w < i && (#[trigger] self.favorites@.take(i as int)[w]).id@ == id@;
                    assert((self.favorites@.take(i + 1)[w]).id@ == id@);
                }
                if has_fav_id(self.favorites@.take(i + 1), id@) && !has_fav_id(
                    self.favorites@.take(i as int),
                    id@,
                ) {
                    let w = choose|w: int|
                        0 <= w < i + 1 && (#[trigger] self.favorites@.take(i + 1)[w]).id@ == id@;
                    if w < i {
                        assert((self.favorites@.take(i as int)[w]).id@ == id@);
                    } else {
                        assert((self.favorites@[i as int]).id@ == id@);
                    }
                }
            }
            i += 1;
        }
        proof {
            if has_fav_id(kept@, id@) {
                let w = choose|w: int| 0 <= w < kept@.len() && (#[trigger] kept@[w]).id@ == id@;
                assert(false);
            }
            assert(self.favorites@.take(n as int) =~= self.favorites@);
        }
        self.favorites = kept;
        removed
    }

    /// Get a favorite by id.
    pub fn get_favorite(&self, id: &str) -> (r: Option<&Favorite>)
        ensures
            match r {
                Some(f) => f.id@ == id@ && (exists|i: int|
                    0 <= i < self.favorites@.len() && self.favorites@[i] == *f),
                None => !has_fav_id(self.favorites@, id@),
            },
    {
        let n = self.favorites.len();
        let mut i: usize = 0;
        while i < n
            invariant
                i <= n,
                n == self.favorites@.len(),
                forall|k: int| 0 <= k < i ==> (#[trigger] self.favorites@[k]).id@ != id@,
            decreases n - i,
        {
            if crate::text::str_eq(self.favorites[i].id.as_str(), id) {
                return Some(&self.favorites[i]);
            }
            i += 1;
        }
        proof {
            if has_fav_id(self.favorites@, id@) {
                let w = choose|w: int|
                    0 <= w < self.favorites@.len() && (#[trigger] self.favorites@[w]).id@ == id@;
                assert(false);
            }
        }
        None
    }

    /// Reorder the favorites: each listed id takes its position as its
    /// order, then the list is sorted by order (stably).
    pub fn reorder_favorites(&mut self, ids: &Vec<String>)
        requires
            ids@.len() <= u32::MAX,
        ensures
            crate::ordering::sorted_le(final(self).favorites@, fav_le_fn()),
            final(self).favorites@.len() == old(self).favorites@.len(),
            final(self).general == old(self).general,
    {
        let m = ids.len();
        let mut j: usize = 0;
        while j < m
            invariant
                j <= m,
                m == ids@.len(),
                self.favorites@.len() == old(self).favorites@.len(),
                self.general == old(self).general,
            decreases m - j,
        {
            let n = self.favorites.len();
            let mut i: usize = 0;
            while i < n
                invariant
                    i <= n,
                    j < m,
                    m == ids@.len(),
                    n == self.favorites@.len(),
                    self.favorites@.len() == old(self).favorites@.len(),
                    self.general == old(self).general,
                decreases n - i,
            {
                if crate::text::str_eq(self.favorites[i].id.as_str(), ids[j].as_str()) {
                    let f = &mut self.favorites[i];
                    f.order = j as u32;
                    break ;
                }
                i += 1;
            }
            j += 1;
        }
        // sort by order, stably
        proof {
            assert forall|a: Favorite, b: Favorite| #[trigger]
                fav_le_fn()(a, b) || #[trigger] fav_le_fn()(b, a) by {}
            crate::ordering::lemma_sort_le_sorted(self.favorites@, fav_le_fn());
            crate::ordering::lemma_sort_le_multiset(self.favorites@, fav_le_fn());
        }
        let ghost pre = self.favorites@;
        let mut v: Vec<Favorite> = Vec::new();
        core::mem::swap(&mut self.favorites, &mut v);
        let mut acc: Vec<Favorite> = Vec::new();
        proof {
            assert(pre.skip(pre.len() as int) =~= Seq::<Favorite>::empty());
        }
        while v.len() > 0
            invariant
                v@.len() <= pre.len(),
                v@ == pre.take(v@.len() as int),
                acc@ == crate::ordering::sort_le(pre.skip(v@.len() as int), fav_le_fn()),
            decreases v@.len(),
        {
            let ghost k = v@.len() as int;
            let x = v.pop().unwrap();
            proof {
                assert(pre.take(k).drop_last() =~= pre.take(k - 1));
                assert(pre.take(k).last() == pre[k - 1]);
                assert(pre.skip(k - 1)[0] == pre[k - 1]);
                assert(pre.skip(k - 1).skip(1) =~= pre.skip(k));
            }
            insert_fav(x, &mut acc);
        }
        proof {
            assert(pre.skip(0) =~= pre);
            crate::ordering::lemma_sort_le_multiset(pre, fav_le_fn());
            crate::ordering::lemma_sort_le_sorted(pre, fav_le_fn());
        }
        self.favorites = acc;
    }

    /// Deduplicate favorites by id and case-folded path, keeping first
    /// occurrences, and renumber the orders by position.
    pub fn deduplicate_favorites(&mut self)
        requires
            old(self).favorites@.len() <= u32::MAX,
        ensures
            final(self).general == old(self).general,
            // no id or folded path is held twice afterwards
            forall|i: int, j: int|
                0 <= i < j < final(self).favorites@.len() ==> (#[trigger] final(self).favorites@[i]).id@ != (#[trigger] final(self).favorites@[j]).id@ && lower_of(
                    final(self).favorites@[i].path@,
                ) != lower_of(final(self).favorites@[j].path@),
            final(self).favorites@.len() <= old(self).favorites@.len(),
    {
        let mut kept: Vec<Favorite> = Vec::new();
        let n = self.favorites.len();
        let mut i: usize = 0;
        while i < n
            invariant
                i <= n,
                n == self.favorites@.len(),
                kept@.len() <= i,
                self.favorites@ == old(self).favorites@,
                self.general == old(self).general,
                forall|a: int, b: int|
                    0 <= a < b < kept@.len() ==> (#[trigger] kept@[a]).id@ != (
                    #[trigger] kept@[b]).id@ && lower_of(kept@[a].path@) != lower_of(
                        kept@[b].path@,
                    ),
            decreases n - i,
        {
            let idl = crate::text::lowercase(self.favorites[i].id.as_str());
            let pathl = crate::text::lowercase(self.favorites[i].path.as_str());
            let mut seen = false;
            let m = kept.len();
            let mut k: usize = 0;
            while k < m
                invariant
                    k <= m,
                    m == kept@.len(),
                    pathl@ == lower_of(old(self).favorites@[i as int].path@),
                    0 <= i < old(self).favorites@.len(),
                    self.favorites@ == old(self).favorites@,
                    seen ==> (exists|w: int|
                        0 <= w < kept@.len() && ((#[trigger] kept@[w]).id@
                            == self.favorites@[i as int].id@ || lower_of(kept@[w].path@)
                            == pathl@)),
                    !seen ==> forall|w: int|
                        0 <= w < k ==> (#[trigger] kept@[w]).id@ != self.favorites@[i as int].id@
                            && lower_of(kept@[w].path@) != pathl@,
                decreases m - k,
            {
                if crate::text::str_eq(
                    kept[k].id.as_str(),
                    self.favorites[i].id.as_str(),
                ) {
                    seen = true;
                }
                let kp = crate::text::lowercase(kept[k].path.as_str());
                if crate::text::str_eq(kp.as_str(), pathl.as_str()) {
                    seen = true;
                }
                k += 1;
            }
            if !seen {
                let ghost prekept = kept@;
                let mut f = self.favorites[i].clone();
                f.order = kept.len() as u32;
                kept.push(f);
                proof {
                    assert forall|a: int, b: int|
                        0 <= a < b < kept@.len() implies (#[trigger] kept@[a]).id@ != (
                    #[trigger] kept@[b]).id@ && lower_of(kept@[a].path@) != lower_of(
                        kept@[b].path@,
                    ) by {
                        if b == kept@.len() - 1 {
                            assert(kept@[a] == prekept[a]);
                            assert(kept@[b].id@ == self.favorites@[i as int].id@);
                            assert(lower_of(kept@[b].path@) == pathl@);
                        } else {
                            assert(kept@[a] == prekept[a]);
                            assert(kept@[b] == prekept[b]);
                        }
                    }
                }
            }
            i += 1;
        }
        self.favorites = kept;
    }
}

/// Inserts one favorite where the spec-level insertion puts it.
fn insert_fav(x: Favorite, v: &mut Vec<Favorite>)
    ensures
        final(v)@ == crate::ordering::insert_le(x, old(v)@, fav_le_fn()),
{
    let ghost before = v@;
    let n = v.len();
    let mut i: usize = 0;
    let mut found = false;
    while !found && i < n
        invariant
            i <= n,
            v@ == before,
            n == v@.len(),
            found ==> i < n && fav_le_fn()(x, v@[i as int]),
            forall|k: int| 0 <= k < i ==> !fav_le_fn()(x, #[trigger] v@[k]),
        decreases n - i, (if found { 0int } else { 1int }),
    {
        if x.order <= v[i].order {
            found = true;
        } else {
            i += 1;
        }
    }
    proof {
        crate::ordering::lemma_insert_le_at(x, before, fav_le_fn(), i as int);
    }
    let ghost xg = x;
    v.insert(i, x);
    proof {
        assert(v@ =~= before.subrange(0, i as int) + seq![xg] + before.subrange(
            i as int,
            before.len() as int,
        ));
    }
}

} // verus!
