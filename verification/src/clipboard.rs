//! The clipboard file-list payload: the drop-file header, the wide path
//! block, and the drop-effect word, encoded and parsed bit for bit so that
//! what this crate writes any shell reads, and the other way round.
//! Publishing to and reading from the system clipboard is the caller's
//! part.

use vstd::prelude::*;

verus! {

/// Preferred drop effect for clipboard operations.
#[derive(Debug, Clone, Copy, PartialEq, Eq, Structural)]
pub enum DropEffect {
    /// Copy operation.
    Copy,
    /// Move operation (cut).
    Move,
}

impl DropEffect {
    /// Get the native drop-effect constant.
    pub fn value(&self) -> (r: u32)
        ensures
            self is Copy ==> r == 1,
            self is Move ==> r == 2,
    {
        match self {
            DropEffect::Copy => 1,
            DropEffect::Move => 2,
        }
    }

    /// Create from a native drop-effect value.
    pub fn from_value(value: u32) -> (r: Option<DropEffect>)
        ensures
            value == 1 ==> r == Some(DropEffect::Copy),
            value == 2 ==> r == Some(DropEffect::Move),
            value != 1 && value != 2 ==> r is None,
    {
        match value {
            1 => Some(DropEffect::Copy),
            2 => Some(DropEffect::Move),
            _ => None,
        }
    }
}

/// Result of reading the clipboard.
#[derive(Debug, Clone, PartialEq)]
pub struct ClipboardContent {
    /// Paths on the clipboard.
    pub paths: Vec<String>,
    /// Preferred drop effect (copy or move).
    pub effect: DropEffect,
}

impl ClipboardContent {
    /// Check if the clipboard contains files.
    pub fn has_files(&self) -> (r: bool)
        ensures
            r == (self.paths@.len() > 0),
    {
        self.paths.len() > 0
    }

    /// Check if this is a cut operation.
    pub fn is_cut(&self) -> (r: bool)
        ensures
            r == (self.effect is Move),
    {
        matches!(self.effect, DropEffect::Move)
    }

    /// Check if this is a copy operation.
    pub fn is_copy(&self) -> (r: bool)
        ensures
            r == (self.effect is Copy),
    {
        matches!(self.effect, DropEffect::Copy)
    }
}

/// A path fit for the wide payload: non-empty, no NUL, and every character
/// inside the basic plane, so one character is one wide unit.
pub open spec fn bmp_path(s: Seq<char>) -> bool {
    &&& s.len() > 0
    &&& forall|i: int|
        0 <= i < s.len() ==> 0 < ((#[trigger] s[i]) as u32) && ((s[i]) as u32) < 0x10000
}

/// Every path fit for the payload.
pub open spec fn bmp_paths(paths: Seq<Seq<char>>) -> bool {
    forall|i: int| 0 <= i < paths.len() ==> bmp_path(#[trigger] paths[i])
}

/// A path as its wide units.
pub open spec fn wide_path(s: Seq<char>) -> Seq<u16> {
    s.map_values(|c: char| (c as u32) as u16)
}

/// The drop-file header as wide units: a 20-byte offset to the paths, a
/// zero point, no non-client flag, and the wide-character flag set.
pub open spec fn hdrop_header() -> Seq<u16> {
    seq![20u16, 0u16, 0u16, 0u16, 0u16, 0u16, 0u16, 0u16, 1u16, 0u16]
}

/// The path block: each path's wide units with a terminating zero.
pub open spec fn hdrop_body(paths: Seq<Seq<char>>) -> Seq<u16>
    decreases paths.len(),
{
    if paths.len() == 0 {
        Seq::<u16>::empty()
    } else {
        wide_path(paths[0]) + seq![0u16] + hdrop_body(paths.skip(1))
    }
}

/// The whole payload: header, path block, and the closing second zero.
pub open spec fn spec_encode_hdrop(paths: Seq<Seq<char>>) -> Seq<u16> {
    hdrop_header() + hdrop_body(paths) + seq![0u16]
}

/// The path block grows at the end, one path and one zero at a time.
pub proof fn lemma_body_snoc(paths: Seq<Seq<char>>, x: Seq<char>)
    ensures
        hdrop_body(paths.push(x)) == hdrop_body(paths) + wide_path(x) + seq![0u16],
    decreases paths.len(),
{
    if paths.len() == 0 {
        assert(paths.push(x)[0] == x);
        assert(paths.push(x).skip(1) =~= Seq::<Seq<char>>::empty());
        assert(hdrop_body(Seq::<Seq<char>>::empty()) =~= Seq::<u16>::empty());
        assert(hdrop_body(paths.push(x)) =~= hdrop_body(paths) + wide_path(x) + seq![0u16]);
    } else {
        assert(paths.push(x)[0] == paths[0]);
        assert(paths.push(x).skip(1) =~= paths.skip(1).push(x));
        lemma_body_snoc(paths.skip(1), x);
        assert(hdrop_body(paths.push(x)) =~= hdrop_body(paths) + wide_path(x) + seq![0u16]);
    }
}

/// Encode paths as the wide drop-file payload.
pub fn encode_hdrop(paths: &Vec<String>) -> (r: Vec<u16>)
    requires
        bmp_paths(paths@.map_values(|s: String| s@)),
    ensures
        r@ == spec_encode_hdrop(paths@.map_values(|s: String| s@)),
{
    let ghost views = paths@.map_values(|s: String| s@);
    let mut out: Vec<u16> = Vec::new();
    out.push(20u16);
    out.push(0u16);
    out.push(0u16);
    out.push(0u16);
    out.push(0u16);
    out.push(0u16);
    out.push(0u16);
    out.push(0u16);
    out.push(1u16);
    out.push(0u16);
    proof {
        assert(out@ =~= hdrop_header());
        assert(views.take(0) =~= Seq::<Seq<char>>::empty());
        assert(out@ =~= hdrop_header() + hdrop_body(views.take(0)));
    }
    let n = paths.len();
    let mut i: usize = 0;
    while i < n
        invariant
            i <= n,
            n == paths@.len(),
            views == paths@.map_values(|s: String| s@),
            bmp_paths(views),
            out@ == hdrop_header() + hdrop_body(views.take(i as int)),
        decreases n - i,
    {
        let p = &paths[i];
        let plen = p.as_str().unicode_len();
        let ghost prebody = out@;
        let mut k: usize = 0;
        while k < plen
            invariant
                k <= plen,
                plen == p@.len(),
                p@ == views[i as int],
                0 <= i < views.len(),
                bmp_paths(views),
                out@ == prebody + wide_path(p@).take(k as int),
            decreases plen - k,
        {
            let c = p.as_str().get_char(k);
            proof {
                assert(bmp_path(views[i as int]));
                assert(0 < ((p@[k as int]) as u32) && ((p@[k as int]) as u32) < 0x10000);
            }
            let unit: u16 = (c as u32) as u16;
            out.push(unit);
            proof {
                assert(wide_path(p@).take(k + 1) =~= wide_path(p@).take(k as int).push(
                    (p@[k as int] as u32) as u16,
                ));
                assert(out@ =~= prebody + wide_path(p@).take(k + 1));
            }
            k += 1;
        }
        out.push(0u16);
        proof {
            assert(wide_path(p@).take(plen as int) =~= wide_path(p@));
            lemma_body_snoc(views.take(i as int), p@);
            assert(views.take(i as int).push(p@) =~= views.take(i + 1));
            assert(out@ =~= hdrop_header() + hdrop_body(views.take(i + 1)));
        }
        i += 1;
    }
    out.push(0u16);
    proof {
        assert(views.take(n as int) =~= views);
        assert(out@ =~= spec_encode_hdrop(views));
    }
    out
}

/// The index of the first zero unit at or after `i`, or the length.
pub open spec fn next_zero(d: Seq<u16>, i: int) -> int
    decreases d.len() - i,
{
    if i < 0 || i >= d.len() {
        d.len() as int
    } else if d[i] == 0 {
        i
    } else {
        next_zero(d, i + 1)
    }
}

/// `next_zero` stays within bounds and marks the first zero.
pub proof fn lemma_next_zero(d: Seq<u16>, i: int)
    requires
        0 <= i <= d.len(),
    ensures
        i <= next_zero(d, i) <= d.len(),
        next_zero(d, i) < d.len() ==> d[next_zero(d, i)] == 0,
        forall|j: int| i <= j < next_zero(d, i) ==> d[j] != 0,
    decreases d.len() - i,
{
    if i >= d.len() || d[i] == 0 {
    } else {
        lemma_next_zero(d, i + 1);
    }
}

/// The wide unit groups of a path block: the units between zeros, ended by
/// the closing zero. `None` when the block is not properly terminated.
pub open spec fn parse_body(d: Seq<u16>) -> Option<Seq<Seq<u16>>>
    decreases d.len(),
{
    if d.len() == 0 {
        None
    } else if d[0] == 0 {
        if d.len() == 1 {
            Some(Seq::<Seq<u16>>::empty())
        } else {
            None
        }
    } else {
        let k = next_zero(d, 0);
        if k < 0 || k >= d.len() {
            None
        } else {
            match parse_body(d.skip(k + 1)) {
                Some(rest) => Some(seq![d.take(k)] + rest),
                None => None,
            }
        }
    }
}

/// The wide unit groups of a whole payload: the header must match, then
/// the path block parses.
pub open spec fn spec_parse_hdrop(d: Seq<u16>) -> Option<Seq<Seq<u16>>> {
    if d.len() < 11 {
        None
    } else if d.take(10) != hdrop_header() {
        None
    } else {
        parse_body(d.skip(10))
    }
}

/// A unit that decodes alone: any value outside the surrogate range.
pub open spec fn scalar_unit(u: u16) -> bool {
    u < 0xD800 || u >= 0xE000
}

/// Every unit of every group decodes alone.
pub open spec fn groups_scalar(groups: Seq<Seq<u16>>) -> bool {
    forall|i: int, j: int|
        0 <= i < groups.len() && 0 <= j < groups[i].len() ==> scalar_unit(#[trigger] groups[i][j])
}

/// A zero-free block followed by a zero: the first zero sits right after
/// the block.
proof fn lemma_next_zero_of_group(u: Seq<u16>, rest: Seq<u16>)
    requires
        forall|i: int| 0 <= i < u.len() ==> (#[trigger] u[i]) != 0,
    ensures
        next_zero(u + seq![0u16] + rest, 0) == u.len(),
    decreases u.len(),
{
    let d = u + seq![0u16] + rest;
    lemma_next_zero(d, 0);
    let k = next_zero(d, 0);
    assert(d[u.len() as int] == 0);
    if k < u.len() {
        assert(d[k] == u[k]);
        assert(false);
    }
    if k > u.len() {
        assert(forall|j: int| 0 <= j < k ==> d[j] != 0);
        assert(d[u.len() as int] != 0);
        assert(false);
    }
}

/// Parsing inverts encoding on the path block: the groups come back as the
/// paths' wide units, in order.
proof fn lemma_parse_body_inverts(paths: Seq<Seq<char>>)
    requires
        bmp_paths(paths),
    ensures
        parse_body(hdrop_body(paths) + seq![0u16]) == Some(
            paths.map_values(|p: Seq<char>| wide_path(p)),
        ),
    decreases paths.len(),
{
    let d = hdrop_body(paths) + seq![0u16];
    if paths.len() == 0 {
        assert(d =~= seq![0u16]);
        assert(paths.map_values(|p: Seq<char>| wide_path(p)) =~= Seq::<Seq<u16>>::empty());
    } else {
        let p0 = paths[0];
        assert(bmp_path(p0));
        let w = wide_path(p0);
        assert forall|i: int| 0 <= i < w.len() implies (#[trigger] w[i]) != 0 by {
            assert(0 < ((p0[i]) as u32) && ((p0[i]) as u32) < 0x10000);
        }
        let tail = hdrop_body(paths.skip(1)) + seq![0u16];
        assert(d =~= w + seq![0u16] + tail);
        lemma_next_zero_of_group(w, tail);
        assert(d.len() > 0);
        assert(w.len() > 0);
        assert(d[0] == w[0]);
        assert(d[0] != 0);
        let k = next_zero(d, 0);
        assert(k == w.len());
        assert(k < d.len());
        assert(d.take(k) =~= w);
        assert(d.skip(k + 1) =~= tail);
        assert forall|i: int| 0 <= i < paths.skip(1).len() implies bmp_path(
            #[trigger] paths.skip(1)[i],
        ) by {
            assert(paths.skip(1)[i] == paths[i + 1]);
        }
        lemma_parse_body_inverts(paths.skip(1));
        assert(paths.map_values(|p: Seq<char>| wide_path(p)) =~= seq![w] + paths.skip(
            1,
        ).map_values(|p: Seq<char>| wide_path(p)));
    }
}

/// The clipboard round trip: parsing what was encoded yields exactly the
/// encoded paths' wide units — the encoding is bit-exact both ways.
pub proof fn lemma_hdrop_round_trip(paths: Seq<Seq<char>>)
    requires
        bmp_paths(paths),
    ensures
        spec_parse_hdrop(spec_encode_hdrop(paths)) == Some(
            paths.map_values(|p: Seq<char>| wide_path(p)),
        ),
{
    let d = spec_encode_hdrop(paths);
    assert(d.len() >= 11);
    assert(d.take(10) =~= hdrop_header());
    assert(d.skip(10) =~= hdrop_body(paths) + seq![0u16]);
    lemma_parse_body_inverts(paths);
}

/// The character type holds no surrogate code points.
proof fn lemma_char_not_surrogate(c: char)
    ensures
        c as u32 >= 0xD800 ==> c as u32 >= 0xE000,
{
}

/// Characters with the same code point are the same character.
proof fn lemma_char_cast_inj(c1: char, c2: char)
    requires
        c1 as u32 == c2 as u32,
    ensures
        c1 == c2,
{
}

/// The executable round trip is forced: an encoded payload of admitted
/// paths is one the parser must accept — its spec parse yields exactly
/// the paths' wide units, and every unit decodes alone — and by the wide
/// encoding's injectivity the decoded paths are the originals.
pub proof fn lemma_clipboard_round_trip(paths: Seq<Seq<char>>)
    requires
        bmp_paths(paths),
    ensures
        spec_parse_hdrop(spec_encode_hdrop(paths)) == Some(
            paths.map_values(|p: Seq<char>| wide_path(p)),
        ),
        groups_scalar(paths.map_values(|p: Seq<char>| wide_path(p))),
{
    lemma_hdrop_round_trip(paths);
    let groups = paths.map_values(|p: Seq<char>| wide_path(p));
    assert forall|i: int, j: int|
        0 <= i < groups.len() && 0 <= j < groups[i].len() implies scalar_unit(
        #[trigger] groups[i][j],
    ) by {
        assert(groups[i] == wide_path(paths[i]));
        assert(bmp_path(paths[i]));
        let c = paths[i][j];
        assert(groups[i][j] == ((c as u32) as u16));
        assert(0 < (c as u32) && (c as u32) < 0x10000);
        lemma_char_not_surrogate(c);
    }
}

/// Two paths with the same wide units are the same path.
pub proof fn lemma_wide_path_injective(a: Seq<char>, b: Seq<char>)
    requires
        bmp_path(a),
        bmp_path(b),
        wide_path(a) == wide_path(b),
    ensures
        a == b,
{
    assert(wide_path(a).len() == a.len());
    assert(wide_path(b).len() == b.len());
    assert(a.len() == b.len());
    assert forall|i: int| 0 <= i < a.len() implies a[i] == b[i] by {
        assert(wide_path(a)[i] == ((a[i]) as u32) as u16);
        assert(wide_path(b)[i] == ((b[i]) as u32) as u16);
        assert(wide_path(a)[i] == wide_path(b)[i]);
        assert(0 < ((a[i]) as u32) && ((a[i]) as u32) < 0x10000);
        assert(0 < ((b[i]) as u32) && ((b[i]) as u32) < 0x10000);
        assert(((a[i]) as u32) as u16 == ((b[i]) as u32) as u16);
        assert(((a[i]) as u32) == (((a[i]) as u32) as u16) as u32);
        assert(((b[i]) as u32) == (((b[i]) as u32) as u16) as u32);
        assert(((a[i]) as u32) == ((b[i]) as u32));
        lemma_char_cast_inj(a[i], b[i]);
    }
    assert(a =~= b);
}

/// Decode the wide payload back to paths. Succeeds exactly when the
/// header and the block structure are intact and every unit is a plain
/// character.
pub fn parse_hdrop(data: &Vec<u16>) -> (r: Option<Vec<String>>)
    ensures
        match r {
            Some(paths) => {
                &&& spec_parse_hdrop(data@) matches Some(groups) && paths@.len() == groups.len()
                    && (forall|i: int|
                    0 <= i < paths@.len() ==> wide_path((#[trigger] paths@[i])@) == groups[i])
                    && bmp_paths(paths@.map_values(|s: String| s@))
            },
            None => true,
        },
        // success is owed on every payload the spec parser accepts whose
        // units all decode alone
        (spec_parse_hdrop(data@) matches Some(groups) && groups_scalar(groups)) ==> r is Some,
{
    let n = data.len();
    if n < 11 {
        return None;
    }
    // check the header
    let mut h: usize = 0;
    while h < 10
        invariant
            h <= 10,
            n == data@.len(),
            n >= 11,
            forall|j: int| 0 <= j < h ==> data@[j] == hdrop_header()[j],
        decreases 10 - h,
    {
        let expect: u16 = if h == 0 {
            20
        } else if h == 8 {
            1
        } else {
            0
        };
        if data[h] != expect {
            proof {
                if spec_parse_hdrop(data@) is Some {
                    assert(data@.take(10) == hdrop_header());
                    assert(data@.take(10)[h as int] == data@[h as int]);
                    assert(hdrop_header()[h as int] == expect);
                }
            }
            return None;
        }
        h += 1;
    }
    proof {
        assert(data@.take(10) =~= hdrop_header());
    }
    let mut paths: Vec<String> = Vec::new();
    let mut pos: usize = 10;
    loop
        invariant
            10 <= pos <= n,
            n == data@.len(),
            n >= 11,
            parse_body(data@.skip(10)) == (match parse_body(data@.skip(pos as int)) {
                Some(rest) => Some(paths@.map_values(|s2: String| wide_path(s2@)) + rest),
                None => None::<Seq<Seq<u16>>>,
            }),
            data@.take(10) == hdrop_header(),
            bmp_paths(paths@.map_values(|s2: String| s2@)),
        decreases n - pos,
    {
        if pos >= n {
            proof {
                assert(data@.skip(pos as int).len() == 0);
                assert(parse_body(data@.skip(pos as int)) is None);
            }
            return None;
        }
        if data[pos] == 0 {
            if pos + 1 == n {
                proof {
                    assert(data@.skip(pos as int).len() == 1);
                    assert(data@.skip(pos as int)[0] == data@[pos as int]);
                    assert(parse_body(data@.skip(pos as int)) == Some(Seq::<Seq<u16>>::empty()));
                    assert(paths@.map_values(|s2: String| wide_path(s2@)) + Seq::<
                        Seq<u16>,
                    >::empty() =~= paths@.map_values(|s2: String| wide_path(s2@)));
                    assert(spec_parse_hdrop(data@) == Some(
                        paths@.map_values(|s2: String| wide_path(s2@)),
                    ));
                    assert forall|i: int| 0 <= i < paths@.len() implies wide_path(
                        (#[trigger] paths@[i])@,
                    ) == paths@.map_values(|s2: String| wide_path(s2@))[i] by {}
                }
                return Some(paths);
            }
            proof {
                assert(data@.skip(pos as int)[0] == data@[pos as int]);
                assert(data@.skip(pos as int).len() > 1);
                assert(parse_body(data@.skip(pos as int)) is None);
            }
            return None;
        }
        // one group runs up to the next zero
        let ghost dcur = data@.skip(pos as int);
        let mut s = String::new();
        let mut k: usize = pos;
        while k < n && data[k] != 0
            invariant
                10 <= pos <= k <= n,
                n == data@.len(),
                n >= 11,
                dcur == data@.skip(pos as int),
                data@[pos as int] != 0,
                data@.take(10) == hdrop_header(),
                parse_body(data@.skip(10)) == (match parse_body(dcur) {
                    Some(rest) => Some(paths@.map_values(|s2: String| wide_path(s2@)) + rest),
                    None => None::<Seq<Seq<u16>>>,
                }),
                forall|j: int| pos <= j < k ==> data@[j] != 0,
                s@.len() == k - pos,
                wide_path(s@) == dcur.take(k - pos as int),
                forall|j: int|
                    0 <= j < s@.len() ==> 0 < ((#[trigger] s@[j]) as u32) && ((s@[j]) as u32)
                        < 0x10000,
            decreases n - k,
        {
            let unit = data[k];
            let v: u32 = unit as u32;
            proof {
                // the loop runs only on non-zero units
                assert(v != 0);
            }
            if v >= 0xD800 && v < 0xE000 {
                proof {
                    lemma_offending_unit(data@, paths@, dcur, pos as int, k as int);
                }
                return None;
            }
            let c = match char_from_u32(v) {
                Some(c) => c,
                None => {
                    proof {
                        // a sixteen-bit unit outside the surrogate range is
                        // always a scalar value
                        assert(false);
                    }
                    return None;
                },
            };
            push_char(&mut s, c);
            proof {
                assert(dcur[k - pos as int] == data@[k as int]);
                assert(wide_path(s@) =~= dcur.take(k + 1 - pos as int));
            }
            k += 1;
        }
        if k >= n {
            proof {
                if parse_body(dcur) is Some {
                    lemma_next_zero(dcur, 0);
                    let z = next_zero(dcur, 0);
                    assert(dcur[0] == data@[pos as int]);
                    if z < dcur.len() {
                        assert(dcur[z] == data@[pos + z]);
                    }
                    assert(false);
                }
            }
            return None;
        }
        // the group ends at this zero
        proof {
            assert(data@[k as int] == 0);
            assert(k > pos) by {
                if k == pos {
                    assert(data@[pos as int] == 0);
                }
            }
            assert(dcur[k - pos as int] == data@[k as int]);
            assert(next_zero(dcur, 0) == k - pos) by {
                lemma_next_zero(dcur, 0);
                let z = next_zero(dcur, 0);
                if z < k - pos {
                    assert(dcur[z] == data@[pos + z]);
                }
                if z > k - pos {
                    assert(dcur[k - pos as int] != 0);
                }
            }
            assert(dcur[0] == data@[pos as int]);
            assert(dcur[0] != 0);
            assert(dcur.take(k - pos as int) =~= wide_path(s@));
            assert(dcur.skip(k - pos + 1) =~= data@.skip(k + 1));
            assert(parse_body(dcur) == (match parse_body(data@.skip(k + 1)) {
                Some(rest) => Some(seq![wide_path(s@)] + rest),
                None => None::<Seq<Seq<u16>>>,
            }));
            assert(s@.len() > 0);
            assert(bmp_path(s@));
        }
        let ghost premap = paths@.map_values(|s2: String| wide_path(s2@));
        let ghost prebmp = paths@.map_values(|s2: String| s2@);
        let ghost w = wide_path(s@);
        let ghost sview = s@;
        paths.push(s);
        proof {
            assert(paths@.map_values(|s2: String| wide_path(s2@)) =~= premap.push(w));
            assert(paths@.map_values(|s2: String| s2@) =~= prebmp.push(sview));
            match parse_body(data@.skip(k + 1)) {
                Some(rest) => {
                    assert(premap + (seq![w] + rest) =~= premap.push(w) + rest);
                },
                None => {},
            }
            assert forall|i: int|
                0 <= i < prebmp.push(sview).len() implies bmp_path(
                #[trigger] prebmp.push(sview)[i],
            ) by {
                if i < prebmp.len() {
                    assert(prebmp.push(sview)[i] == prebmp[i]);
                } else {
                    assert(prebmp.push(sview)[i] == sview);
                }
            }
        }
        pos = k + 1;
    }
}

/// While a group is being scanned (no zero seen yet), the unit under the
/// cursor lies inside the spec parser's next group, so an invalid unit
/// there refutes `groups_scalar`.
proof fn lemma_offending_unit(
    data: Seq<u16>,
    paths: Seq<String>,
    dcur: Seq<u16>,
    pos: int,
    k: int,
)
    requires
        10 <= pos <= k < data.len(),
        dcur == data.skip(pos),
        data[pos] != 0,
        data[k] != 0,
        forall|j: int| pos <= j < k ==> data[j] != 0,
        data.take(10) == hdrop_header(),
        data.len() >= 11,
        parse_body(data.skip(10)) == (match parse_body(dcur) {
            Some(rest) => Some(paths.map_values(|s2: String| wide_path(s2@)) + rest),
            None => None::<Seq<Seq<u16>>>,
        }),
    ensures
        (spec_parse_hdrop(data) matches Some(groups) && groups_scalar(groups)) ==> scalar_unit(
            data[k],
        ),
{
    match spec_parse_hdrop(data) {
        None => {},
        Some(groups) => if groups_scalar(groups) {
            let rest = match parse_body(dcur) {
                Some(rest) => rest,
                None => {
                    assert(parse_body(data.skip(10)) is None);
                    assert(false);
                    arbitrary()
                },
            };
            let premap = paths.map_values(|s2: String| wide_path(s2@));
            assert(groups == premap + rest);
            // the block's first zero sits past the cursor
            lemma_next_zero(dcur, 0);
            let z = next_zero(dcur, 0);
            assert forall|j: int| 0 <= j <= k - pos implies dcur[j] != 0 by {
                assert(dcur[j] == data[pos + j]);
            }
            if z <= k - pos {
                assert(dcur[z] != 0);
                assert(false);
            }
            // so the spec parser's next group covers the cursor's unit
            assert(dcur.len() > 0 && dcur[0] != 0);
            assert(rest == seq![dcur.take(z)] + (match parse_body(dcur.skip(z + 1)) {
                Some(r2) => r2,
                None => arbitrary(),
            }));
            assert(rest.len() > 0);
            assert(rest[0] == dcur.take(z));
            assert(groups[premap.len() as int] == rest[0]);
            assert(dcur.take(z)[k - pos] == dcur[k - pos]);
            assert(dcur[k - pos] == data[k]);
            assert(scalar_unit(groups[premap.len() as int][k - pos]));
        },
    }
}

/// The drop-effect word as little-endian bytes.
pub open spec fn spec_encode_effect(e: DropEffect) -> Seq<u8> {
    match e {
        DropEffect::Copy => seq![1u8, 0u8, 0u8, 0u8],
        DropEffect::Move => seq![2u8, 0u8, 0u8, 0u8],
    }
}

/// Encode the preferred drop effect as its four-byte word.
pub fn encode_effect(e: DropEffect) -> (r: Vec<u8>)
    ensures
        r@ == spec_encode_effect(e),
{
    let mut out: Vec<u8> = Vec::new();
    match e {
        DropEffect::Copy => out.push(1u8),
        DropEffect::Move => out.push(2u8),
    }
    out.push(0u8);
    out.push(0u8);
    out.push(0u8);
    proof {
        assert(out@ =~= spec_encode_effect(e));
    }
    out
}

/// Decode a drop-effect word; only the copy and move effects are known.
pub fn parse_effect(data: &Vec<u8>) -> (r: Option<DropEffect>)
    ensures
        data@.len() >= 4 && data@[0] == 1 && data@[1] == 0 && data@[2] == 0 && data@[3] == 0
            ==> r == Some(DropEffect::Copy),
        data@.len() >= 4 && data@[0] == 2 && data@[1] == 0 && data@[2] == 0 && data@[3] == 0
            ==> r == Some(DropEffect::Move),
        data@.len() < 4 ==> r is None,
        data@.len() >= 4 && (data@[1] != 0 || data@[2] != 0 || data@[3] != 0) ==> r is None,
        data@.len() >= 4 && data@[0] != 1 && data@[0] != 2 ==> r is None,
    {
    if data.len() < 4 {
        return None;
    }
    if data[1] != 0 || data[2] != 0 || data[3] != 0 {
        return None;
    }
    match data[0] {
        1u8 => Some(DropEffect::Copy),
        2u8 => Some(DropEffect::Move),
        _ => None,
    }
}

/// Relies on char::from_u32: `Some` exactly on Unicode scalar values, and
/// the character casts back to the given code point.
#[verifier::external_body]
fn char_from_u32(v: u32) -> (r: Option<char>)
    ensures
        ((v < 0xD800) || (0xE000 <= v && v < 0x110000)) <==> r is Some,
        r matches Some(c) ==> c as u32 == v,
{
    char::from_u32(v)
}

/// Relies on String::push: the character joins the end of the string.
#[verifier::external_body]
fn push_char(s: &mut String, c: char)
    ensures
        final(s)@ == old(s)@.push(c),
{
    s.push(c)
}

} // verus!
