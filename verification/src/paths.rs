//! Path handling over plain strings: separators, components, the
//! extended-length prefix, and volume comparison.

use vstd::prelude::*;
use crate::text::lex_le;

verus! {

/// Byte threshold at and above which a path gets the long-path prefix.
pub const LONG_PATH_THRESHOLD: usize = 240;

/// Returns true when a path is long enough to need the extended-length
/// prefix.
pub fn is_long_path(path: &str) -> (r: bool)
    ensures
        r == (path@.len() >= 240),
{
    path.unicode_len() >= LONG_PATH_THRESHOLD
}

/// True for the two path separators this crate recognises.
pub open spec fn is_sep(c: char) -> bool {
    c == '/' || c == '\\'
}

/// Index of the last separator of `s`, or -1 when none occurs.
pub open spec fn last_sep_index(s: Seq<char>) -> int
    decreases s.len(),
{
    if s.len() == 0 {
        -1
    } else if is_sep(s.last()) {
        s.len() - 1
    } else {
        last_sep_index(s.drop_last())
    }
}

/// `last_sep_index` stays within bounds and marks a separator.
pub proof fn lemma_last_sep_index(s: Seq<char>)
    ensures
        -1 <= last_sep_index(s) < s.len(),
        last_sep_index(s) >= 0 ==> is_sep(s[last_sep_index(s)]),
        forall|j: int| last_sep_index(s) < j < s.len() ==> !is_sep(#[trigger] s[j]),
    decreases s.len(),
{
    if s.len() == 0 {
    } else if is_sep(s.last()) {
    } else {
        lemma_last_sep_index(s.drop_last());
        assert forall|j: int| last_sep_index(s) < j < s.len() implies !is_sep(#[trigger] s[j]) by {
            if j < s.len() - 1 {
                assert(s.drop_last()[j] == s[j]);
            }
        }
    }
}

/// Finds the index of the last separator, if any.
pub fn rfind_sep(s: &str) -> (r: Option<usize>)
    ensures
        match r {
            Some(i) => last_sep_index(s@) == i as int,
            None => last_sep_index(s@) == -1,
        },
{
    let len = s.unicode_len();
    proof {
        assert(s@.take(len as int) =~= s@);
    }
    let mut j: usize = len;
    while j > 0
        invariant
            j <= len,
            len == s@.len(),
            last_sep_index(s@) == last_sep_index(s@.take(j as int)),
        decreases j,
    {
        let c = s.get_char(j - 1);
        if c == '/' || c == '\\' {
            proof {
                assert(s@.take(j as int).last() == s@[j - 1]);
            }
            return Some(j - 1);
        }
        proof {
            assert(s@.take(j as int).drop_last() =~= s@.take(j - 1));
        }
        j -= 1;
    }
    proof {
        assert(s@.take(0) =~= Seq::<char>::empty());
    }
    None
}

/// The final component of a path: everything after the last separator.
pub open spec fn spec_file_name(s: Seq<char>) -> Seq<char> {
    s.subrange(last_sep_index(s) + 1, s.len() as int)
}

/// Returns the final component of `path` (empty when the path ends in a
/// separator).
pub fn file_name_of(path: &str) -> (r: String)
    ensures
        r@ == spec_file_name(path@),
{
    proof {
        lemma_last_sep_index(path@);
    }
    let len = path.unicode_len();
    match rfind_sep(path) {
        Some(i) => {
            let sub = path.substring_char(i + 1, len);
            sub.to_owned()
        },
        None => {
            proof {
                assert(path@.subrange(0, path@.len() as int) =~= path@);
            }
            path.to_owned()
        },
    }
}

/// The parent of a path, or `None` at a filesystem root or a bare name.
pub open spec fn spec_parent(s: Seq<char>) -> Option<Seq<char>> {
    let i = last_sep_index(s);
    if i == -1 {
        None
    } else {
        let cut: int = if i == 0 {
            1
        } else if s[i - 1] == ':' {
            i + 1
        } else {
            i
        };
        if cut == s.len() {
            None
        } else {
            Some(s.subrange(0, cut))
        }
    }
}

/// Returns the parent directory of `path`, keeping a root separator, or
/// `None` when `path` is a root or holds no separator.
pub fn parent_of(path: &str) -> (r: Option<String>)
    ensures
        match r {
            Some(p) => spec_parent(path@) == Some(p@),
            None => spec_parent(path@) is None,
        },
{
    proof {
        lemma_last_sep_index(path@);
    }
    let len = path.unicode_len();
    match rfind_sep(path) {
        Some(i) => {
            let cut: usize = if i == 0 {
                1
            } else if path.get_char(i - 1) == ':' {
                i + 1
            } else {
                i
            };
            if cut == len {
                None
            } else {
                Some(path.substring_char(0, cut).to_owned())
            }
        },
        None => None,
    }
}

/// The separator to use when extending a path: a backslash when the path
/// already holds one, else a slash.
pub open spec fn join_sep(dir: Seq<char>) -> char {
    if exists|i: int| 0 <= i < dir.len() && dir[i] == '\\' {
        '\\'
    } else {
        '/'
    }
}

/// What joining `name` onto `dir` yields.
pub open spec fn spec_join(dir: Seq<char>, name: Seq<char>) -> Seq<char> {
    if dir.len() > 0 && is_sep(dir.last()) {
        dir + name
    } else {
        dir.push(join_sep(dir)) + name
    }
}

/// Joins a directory and a child name with the directory's own separator
/// style.
pub fn join_path(dir: &str, name: &str) -> (r: String)
    ensures
        r@ == spec_join(dir@, name@),
{
    let len = dir.unicode_len();
    let mut s = dir.to_owned();
    if len > 0 {
        let lastc = dir.get_char(len - 1);
        if lastc == '/' || lastc == '\\' {
            s.append(name);
            proof {
                assert(s@ =~= spec_join(dir@, name@));
            }
            return s;
        }
    }
    let mut has_backslash = false;
    let mut i: usize = 0;
    while i < len
        invariant
            i <= len,
            len == dir@.len(),
            has_backslash == exists|k: int| 0 <= k < i && dir@[k] == '\\',
        decreases len - i,
    {
        if dir.get_char(i) == '\\' {
            has_backslash = true;
        }
        i += 1;
    }
    if has_backslash {
        s.append("\\");
        proof {
            reveal_strlit("\\");
            assert(s@ =~= spec_join(dir@, name@).subrange(0, s@.len() as int));
            assert(s@ =~= dir@.push('\\'));
        }
    } else {
        s.append("/");
        proof {
            reveal_strlit("/");
            assert(s@ =~= dir@.push('/'));
        }
    }
    s.append(name);
    proof {
        assert(s@ =~= spec_join(dir@, name@));
    }
    s
}

/// True when a path is absolute: a drive-letter root, a UNC prefix, or a
/// leading separator.
pub open spec fn spec_is_absolute(s: Seq<char>) -> bool {
    (s.len() >= 3 && s[1] == ':' && is_sep(s[2])) || (s.len() >= 2 && is_sep(s[0]) && is_sep(
        s[1],
    )) || (s.len() >= 1 && is_sep(s[0]))
}

/// Checks whether `path` is absolute.
pub fn is_absolute(path: &str) -> (r: bool)
    ensures
        r == spec_is_absolute(path@),
{
    let len = path.unicode_len();
    if len >= 3 {
        let c1 = path.get_char(1);
        let c2 = path.get_char(2);
        if c1 == ':' && (c2 == '/' || c2 == '\\') {
            return true;
        }
    }
    if len >= 1 {
        let c0 = path.get_char(0);
        if c0 == '/' || c0 == '\\' {
            return true;
        }
    }
    false
}

/// The extended-length prefix used for long Windows paths.
pub open spec fn long_prefix() -> Seq<char> {
    "\\\\?\\"@
}

/// True when `s` already carries the extended-length prefix.
pub open spec fn has_long_prefix(s: Seq<char>) -> bool {
    s.len() >= 4 && s.subrange(0, 4) =~= long_prefix()
}

/// Prefixes an absolute path with `\\?\` for long-path support; other paths
/// come back unchanged.
pub fn to_long_path(path: &str) -> (r: String)
    ensures
        has_long_prefix(path@) ==> r@ == path@,
        !has_long_prefix(path@) && spec_is_absolute(path@) ==> r@ == long_prefix() + path@,
        !has_long_prefix(path@) && !spec_is_absolute(path@) ==> r@ == path@,
{
    proof {
        reveal_strlit("\\\\?\\");
    }
    let len = path.unicode_len();
    let prefixed = if len >= 4 {
        let sub = path.substring_char(0, 4);
        let pre = "\\\\?\\";
        crate::text::str_eq(sub, pre)
    } else {
        false
    };
    proof {
        if len >= 4 {
            assert(path@.subrange(0, 4) =~= long_prefix() <==> path@.subrange(0, 4)
                == long_prefix());
        }
    }
    if prefixed {
        path.to_owned()
    } else if is_absolute(path) {
        let mut s = "\\\\?\\".to_owned();
        s.append(path);
        s
    } else {
        path.to_owned()
    }
}

/// Maps an ASCII letter to its upper-case code point; other code points pass
/// through.
pub open spec fn fold_upper(c: char) -> u32 {
    if 'a' as u32 <= c as u32 <= 'z' as u32 {
        (c as u32 - 32) as u32
    } else {
        c as u32
    }
}

/// Case-folded equality of two characters (ASCII letters only).
pub open spec fn char_ieq(a: char, b: char) -> bool {
    fold_upper(a) == fold_upper(b)
}

/// Case-folded equality of two character sequences.
pub open spec fn seq_ieq(a: Seq<char>, b: Seq<char>) -> bool {
    a.len() == b.len() && forall|i: int| 0 <= i < a.len() ==> char_ieq(a[i], #[trigger] b[i])
}

/// The volume root of a path at spec level: a drive letter, a UNC
/// server-share prefix, or nothing.
pub enum SpecVolumeRoot {
    Drive(char),
    Share(Seq<char>),
    NoRoot,
}

/// The index of the first separator of `s` at or after position `i`, or the
/// length when none follows.
pub open spec fn next_sep(s: Seq<char>, i: int) -> int
    recommends
        0 <= i,
    decreases s.len() - i,
{
    if i >= s.len() {
        s.len() as int
    } else if is_sep(s[i]) {
        i
    } else {
        next_sep(s, i + 1)
    }
}

/// `next_sep` stays within bounds.
pub proof fn lemma_next_sep(s: Seq<char>, i: int)
    requires
        0 <= i <= s.len(),
    ensures
        i <= next_sep(s, i) <= s.len(),
        next_sep(s, i) < s.len() ==> is_sep(s[next_sep(s, i)]),
    decreases s.len() - i,
{
    if i >= s.len() || is_sep(s[i]) {
    } else {
        lemma_next_sep(s, i + 1);
    }
}

/// Finds the first separator of `path` at or after `from`.
pub fn find_next_sep(path: &str, from: usize) -> (r: usize)
    ensures
        r == next_sep(path@, from as int),
        r <= path@.len(),
        from <= path@.len() ==> from <= r,
{
    let len = path.unicode_len();
    if from >= len {
        return len;
    }
    proof {
        lemma_next_sep(path@, from as int);
    }
    let mut i: usize = from;
    while i < len
        invariant
            from <= i <= len,
            len == path@.len(),
            next_sep(path@, from as int) == next_sep(path@, i as int),
        decreases len - i,
    {
        let c = path.get_char(i);
        if c == '/' || c == '\\' {
            return i;
        }
        i += 1;
    }
    len
}

/// The spec-level volume root of a path.
pub open spec fn spec_volume_root(s: Seq<char>) -> SpecVolumeRoot {
    if s.len() >= 2 && is_sep(s[0]) && is_sep(s[1]) {
        let m = next_sep(s, 2);
        if m == s.len() {
            SpecVolumeRoot::NoRoot
        } else {
            SpecVolumeRoot::Share(s.subrange(0, next_sep(s, m + 1)))
        }
    } else if s.len() >= 2 && s[1] == ':' {
        SpecVolumeRoot::Drive(s[0])
    } else {
        SpecVolumeRoot::NoRoot
    }
}

/// Case-folded equality check of two strings.
pub fn str_ieq(a: &str, b: &str) -> (r: bool)
    ensures
        r == seq_ieq(a@, b@),
{
    let alen = a.unicode_len();
    let blen = b.unicode_len();
    if alen != blen {
        return false;
    }
    let mut i: usize = 0;
    while i < alen
        invariant
            i <= alen,
            alen == a@.len(),
            alen == b@.len(),
            forall|k: int| 0 <= k < i ==> char_ieq(a@[k], #[trigger] b@[k]),
        decreases alen - i,
    {
        let ca = a.get_char(i) as u32;
        let cb = b.get_char(i) as u32;
        let fa = if 97 <= ca && ca <= 122 {
            ca - 32
        } else {
            ca
        };
        let fb = if 97 <= cb && cb <= 122 {
            cb - 32
        } else {
            cb
        };
        if fa != fb {
            return false;
        }
        i += 1;
    }
    true
}

/// What "same volume" means at spec level: equal drive letters or equal
/// server-share prefixes, case-insensitively.
pub open spec fn spec_same_volume(a: Seq<char>, b: Seq<char>) -> bool {
    match (spec_volume_root(a), spec_volume_root(b)) {
        (SpecVolumeRoot::Drive(x), SpecVolumeRoot::Drive(y)) => char_ieq(x, y),
        (SpecVolumeRoot::Share(x), SpecVolumeRoot::Share(y)) => seq_ieq(x, y),
        _ => false,
    }
}

/// Check if two paths are on the same volume (for move optimization).
pub fn same_volume(path1: &str, path2: &str) -> (r: bool)
    ensures
        r == spec_same_volume(path1@, path2@),
{
    let r1 = volume_root_of(path1);
    let r2 = volume_root_of(path2);
    match (r1, r2) {
        (Some(s1), Some(s2)) => str_ieq(s1.as_str(), s2.as_str()),
        _ => false,
    }
}

/// The volume root of a path as a string: `C:` style prefix or the UNC
/// server-share prefix.
fn volume_root_of(path: &str) -> (r: Option<String>)
    ensures
        match r {
            Some(s) => (spec_volume_root(path@) matches SpecVolumeRoot::Drive(c) && s@ == seq![
                c,
                ':',
            ] && s@.len() == 2) || (spec_volume_root(path@) matches SpecVolumeRoot::Share(x) && s@
                == x && s@.len() >= 3),
            None => spec_volume_root(path@) is NoRoot,
        },
{
    let len = path.unicode_len();
    if len >= 2 {
        let c0 = path.get_char(0);
        let c1 = path.get_char(1);
        if (c0 == '/' || c0 == '\\') && (c1 == '/' || c1 == '\\') {
            let m = find_next_sep(path, 2);
            if m == len {
                return None;
            }
            let e = find_next_sep(path, m + 1);
            proof {
                lemma_next_sep(path@, 2);
                lemma_next_sep(path@, m + 1);
            }
            return Some(path.substring_char(0, e).to_owned());
        }
        if c1 == ':' {
            let s = path.substring_char(0, 2);
            proof {
                assert(s@ =~= seq![path@[0], ':']);
            }
            return Some(s.to_owned());
        }
    }
    None
}

/// Strips `prefix` (and one following separator) from `s`; `None` when `s`
/// does not start with `prefix`.
pub open spec fn spec_strip_prefix(s: Seq<char>, prefix: Seq<char>) -> Option<Seq<char>> {
    if s.len() >= prefix.len() && s.subrange(0, prefix.len() as int) == prefix {
        let rest = s.subrange(prefix.len() as int, s.len() as int);
        if rest.len() > 0 && is_sep(rest[0]) {
            Some(rest.subrange(1, rest.len() as int))
        } else {
            Some(rest)
        }
    } else {
        None
    }
}

/// Removes a leading `prefix` (and one separator after it) from `path`.
pub fn strip_prefix(path: &str, prefix: &str) -> (r: Option<String>)
    ensures
        match r {
            Some(p) => spec_strip_prefix(path@, prefix@) == Some(p@),
            None => spec_strip_prefix(path@, prefix@) is None,
        },
{
    let plen = path.unicode_len();
    let xlen = prefix.unicode_len();
    if plen < xlen {
        return None;
    }
    let head = path.substring_char(0, xlen);
    if !crate::text::str_eq(head, prefix) {
        proof {
            if path@.subrange(0, prefix@.len() as int) == prefix@ {
                assert(head@ == prefix@);
            }
        }
        return None;
    }
    let rest = path.substring_char(xlen, plen);
    let rlen = rest.unicode_len();
    if rlen > 0 {
        let c = rest.get_char(0);
        if c == '/' || c == '\\' {
            let out = rest.substring_char(1, rlen);
            return Some(out.to_owned());
        }
    }
    Some(rest.to_owned())
}

/// Orders two paths lexicographically by code point.
pub open spec fn path_le(a: Seq<char>, b: Seq<char>) -> bool {
    lex_le(a, b)
}

} // verus!
