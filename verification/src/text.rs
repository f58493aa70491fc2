//! String primitives shared by the whole crate: case folding, lexicographic
//! comparison, substring search, and decimal formatting.

use vstd::prelude::*;

verus! {

/// The sequence of characters that `str::to_lowercase` produces for a given
/// input; the result depends on the input characters alone.
pub uninterp spec fn lower_of(s: Seq<char>) -> Seq<char>;

/// Relies on str::to_lowercase: the Unicode lowercase mapping of the input,
/// a function of the characters alone; an empty input stays empty.
#[verifier::external_body]
pub fn lowercase(s: &str) -> (r: String)
    ensures
        r@ == lower_of(s@),
        s@.len() == 0 ==> r@.len() == 0,
{
    s.to_lowercase()
}

/// Lexicographic "less or equal" over character sequences, by code point.
pub open spec fn lex_le(a: Seq<char>, b: Seq<char>) -> bool
    decreases a.len(),
{
    if a.len() == 0 {
        true
    } else if b.len() == 0 {
        false
    } else if a[0] as u32 != b[0] as u32 {
        (a[0] as u32) < (b[0] as u32)
    } else {
        lex_le(a.skip(1), b.skip(1))
    }
}

/// Any two character sequences are comparable under `lex_le`.
pub proof fn lemma_lex_le_total(a: Seq<char>, b: Seq<char>)
    ensures
        lex_le(a, b) || lex_le(b, a),
    decreases a.len(),
{
    if a.len() == 0 || b.len() == 0 {
    } else if a[0] as u32 != b[0] as u32 {
    } else {
        lemma_lex_le_total(a.skip(1), b.skip(1));
    }
}

/// Compares two strings lexicographically by code point.
pub fn str_lex_le(a: &str, b: &str) -> (r: bool)
    ensures
        r == lex_le(a@, b@),
    decreases a@.len(),
{
    let alen = a.unicode_len();
    let blen = b.unicode_len();
    if alen == 0 {
        true
    } else if blen == 0 {
        false
    } else {
        let ca = a.get_char(0);
        let cb = b.get_char(0);
        if (ca as u32) != (cb as u32) {
            (ca as u32) < (cb as u32)
        } else {
            let ra = a.substring_char(1, alen);
            let rb = b.substring_char(1, blen);
            proof {
                assert(ra@ =~= a@.skip(1));
                assert(rb@ =~= b@.skip(1));
            }
            str_lex_le(ra, rb)
        }
    }
}

/// Whether `sub` occurs at position `i` of `s`.
pub open spec fn matches_at(s: Seq<char>, sub: Seq<char>, i: int) -> bool {
    0 <= i <= s.len() - sub.len() && s.subrange(i, i + sub.len() as int) =~= sub
}

/// True when `sub` occurs as a contiguous run inside `s`.
pub open spec fn is_substring(s: Seq<char>, sub: Seq<char>) -> bool {
    exists|i: int| #[trigger] matches_at(s, sub, i)
}

/// Checks whether `sub` starts at position `i` of `s`.
fn str_matches_at(s: &str, sub: &str, i: usize) -> (r: bool)
    requires
        i + sub@.len() <= s@.len(),
    ensures
        r == matches_at(s@, sub@, i as int),
{
    let slen = s.unicode_len();
    let sublen = sub.unicode_len();
    let mut j: usize = 0;
    while j < sublen
        invariant
            j <= sublen,
            i + sublen <= slen,
            slen == s@.len(),
            sublen == sub@.len(),
            forall|k: int| 0 <= k < j ==> s@[i + k] == sub@[k],
        decreases sublen - j,
    {
        let cs = s.get_char(i + j);
        let cb = sub.get_char(j);
        if cs != cb {
            proof {
                let pref = s@.subrange(i as int, i + sub@.len() as int);
                assert(pref[j as int] == s@[i + j]);
                assert(pref[j as int] != sub@[j as int]);
            }
            return false;
        }
        j += 1;
    }
    proof {
        let pref = s@.subrange(i as int, i + sub@.len() as int);
        assert forall|k: int| 0 <= k < sub@.len() implies pref[k] == sub@[k] by {
            assert(pref[k] == s@[i + k]);
        }
        assert(pref =~= sub@);
    }
    true
}

/// Substring search: true when `sub` occurs anywhere inside `s`.
pub fn str_contains(s: &str, sub: &str) -> (r: bool)
    ensures
        r == is_substring(s@, sub@),
{
    let slen = s.unicode_len();
    let sublen = sub.unicode_len();
    if sublen > slen {
        proof {
            if is_substring(s@, sub@) {
                let w = choose|w: int| matches_at(s@, sub@, w);
                assert(false);
            }
        }
        return false;
    }
    let mut i: usize = 0;
    while i <= slen - sublen
        invariant
            sublen <= slen,
            slen == s@.len(),
            sublen == sub@.len(),
            i <= slen - sublen + 1,
            forall|k: int| 0 <= k < i ==> !matches_at(s@, sub@, k),
        decreases slen - i,
    {
        if str_matches_at(s, sub, i) {
            return true;
        }
        i += 1;
    }
    false
}

/// Tests two strings for equality of their character sequences.
pub fn str_eq(a: &str, b: &str) -> (r: bool)
    ensures
        r == (a@ == b@),
{
    let sa = a.to_owned();
    let sb = b.to_owned();
    let r = sa == sb;
    proof {
        if a@ =~= b@ {
            assert(a@ == b@);
        }
    }
    r
}

/// The decimal digit characters, lowest first.
pub open spec fn digit_chars() -> Seq<char> {
    "0123456789"@
}

/// The decimal representation of `n`, most significant digit first.
pub open spec fn dec_str(n: nat) -> Seq<char>
    decreases n,
{
    if n < 10 {
        seq![digit_chars()[n as int]]
    } else {
        dec_str(n / 10).push(digit_chars()[(n % 10) as int])
    }
}

/// Renders an unsigned number in decimal.
pub fn u64_to_string(n: u64) -> (r: String)
    ensures
        r@ == dec_str(n as nat),
    decreases n,
{
    proof {
        reveal_strlit("0123456789");
    }
    let digits = "0123456789";
    if n < 10 {
        let d = digits.substring_ascii(n as usize, n as usize + 1);
        proof {
            assert(d@ =~= dec_str(n as nat));
        }
        d.to_owned()
    } else {
        let mut s = u64_to_string(n / 10);
        let rem = (n % 10) as usize;
        let d = digits.substring_ascii(rem, rem + 1);
        s.append(d);
        proof {
            assert(s@ =~= dec_str(n as nat));
        }
        s
    }
}

/// Renders `n` in decimal with exactly two digits, zero padded (for minute
/// and second fields).
pub fn u64_to_string_2(n: u64) -> (r: String)
    requires
        n < 100,
    ensures
        r@ == (if n < 10 {
            seq!['0'].add(dec_str(n as nat))
        } else {
            dec_str(n as nat)
        }),
{
    proof {
        reveal_strlit("0");
    }
    if n < 10 {
        let mut s = "0".to_owned();
        let d = u64_to_string(n);
        s.append(d.as_str());
        proof {
            assert(s@ =~= seq!['0'].add(dec_str(n as nat)));
        }
        s
    } else {
        u64_to_string(n)
    }
}

/// Two-digit zero-padded decimal representation of `n < 100`.
pub open spec fn pad2(n: nat) -> Seq<char> {
    if n < 10 {
        seq!['0'].add(dec_str(n))
    } else {
        dec_str(n)
    }
}

/// Three-digit zero-padded decimal representation of `n < 1000`.
pub open spec fn pad3(n: nat) -> Seq<char> {
    if n < 10 {
        seq!['0', '0'].add(dec_str(n))
    } else if n < 100 {
        seq!['0'].add(dec_str(n))
    } else {
        dec_str(n)
    }
}

/// `n` scaled by `unit` and rounded to two decimal places, as in "1.46".
pub open spec fn scaled2(n: nat, unit: nat) -> Seq<char>
    recommends
        unit > 0,
{
    let q = (n * 100 + unit / 2) / unit;
    dec_str(q / 100).add(seq!['.']).add(pad2(q % 100))
}

/// `n` scaled by `unit` and rounded to one decimal place, as in "1.5".
pub open spec fn scaled1(n: nat, unit: nat) -> Seq<char>
    recommends
        unit > 0,
{
    let q = (n * 10 + unit / 2) / unit;
    dec_str(q / 10).add(seq!['.']).add(dec_str(q % 10))
}

/// Renders `n / unit` with two decimal places, rounding to nearest.
pub fn scaled2_string(n: u64, unit: u64) -> (r: String)
    requires
        unit >= 100,
    ensures
        r@ == scaled2(n as nat, unit as nat),
{
    let q128: u128 = ((n as u128) * 100 + (unit as u128) / 2) / (unit as u128);
    proof {
        let nn = n as nat;
        let un = unit as nat;
        assert(nn * 100 <= nn * un) by (nonlinear_arith)
            requires
                un >= 100,
        ;
        assert((nn + 1) * un == nn * un + un) by (nonlinear_arith);
        assert(nn * 100 + un / 2 < (nn + 1) * un);
        assert(nn * 100 + un / 2 < (nn + 1) * un ==> (nn * 100 + un / 2) / un <= nn)
            by (nonlinear_arith);
        assert(q128 <= n);
    }
    let q: u64 = q128 as u64;
    let mut s = u64_to_string(q / 100);
    s.append(".");
    let frac = u64_to_string_2(q % 100);
    s.append(frac.as_str());
    proof {
        reveal_strlit(".");
        assert(s@ =~= scaled2(n as nat, unit as nat));
    }
    s
}

/// Renders `n / unit` with one decimal place, rounding to nearest.
pub fn scaled1_string(n: u64, unit: u64) -> (r: String)
    requires
        unit >= 100,
    ensures
        r@ == scaled1(n as nat, unit as nat),
{
    let q128: u128 = ((n as u128) * 10 + (unit as u128) / 2) / (unit as u128);
    proof {
        let nn = n as nat;
        let un = unit as nat;
        assert(nn * 10 <= nn * un) by (nonlinear_arith)
            requires
                un >= 100,
        ;
        assert((nn + 1) * un == nn * un + un) by (nonlinear_arith);
        assert(nn * 10 + un / 2 < (nn + 1) * un);
        assert(nn * 10 + un / 2 < (nn + 1) * un ==> (nn * 10 + un / 2) / un <= nn)
            by (nonlinear_arith);
        assert(q128 <= n);
    }
    let q: u64 = q128 as u64;
    let mut s = u64_to_string(q / 10);
    s.append(".");
    let frac = u64_to_string(q % 10);
    s.append(frac.as_str());
    proof {
        reveal_strlit(".");
        assert(s@ =~= scaled1(n as nat, unit as nat));
    }
    s
}

/// Renders `n` in decimal with exactly three digits, zero padded (for
/// millisecond fields).
pub fn u64_to_string_3(n: u64) -> (r: String)
    requires
        n < 1000,
    ensures
        r@ == pad3(n as nat),
{
    proof {
        reveal_strlit("00");
        reveal_strlit("0");
    }
    if n < 10 {
        let mut s = "00".to_owned();
        let d = u64_to_string(n);
        s.append(d.as_str());
        proof {
            assert(s@ =~= pad3(n as nat));
        }
        s
    } else if n < 100 {
        let mut s = "0".to_owned();
        let d = u64_to_string(n);
        s.append(d.as_str());
        proof {
            assert(s@ =~= pad3(n as nat));
        }
        s
    } else {
        u64_to_string(n)
    }
}

/// The decimal representation of a signed number, with a leading minus sign
/// when negative.
pub open spec fn dec_str_signed(n: int) -> Seq<char> {
    if n >= 0 {
        dec_str(n as nat)
    } else {
        seq!['-'].add(dec_str((-n) as nat))
    }
}

/// Renders a signed number in decimal.
pub fn i64_to_string(n: i64) -> (r: String)
    ensures
        r@ == dec_str_signed(n as int),
{
    proof {
        reveal_strlit("-");
    }
    if n >= 0 {
        u64_to_string(n as u64)
    } else {
        let mut s = "-".to_owned();
        let m: u64 = if n == i64::MIN {
            9223372036854775808u64
        } else {
            (-n) as u64
        };
        let d = u64_to_string(m);
        s.append(d.as_str());
        proof {
            assert(s@ =~= dec_str_signed(n as int));
        }
        s
    }
}


/// Strings joined with a separator, at spec level.
pub open spec fn join_with(parts: Seq<Seq<char>>, sep: Seq<char>) -> Seq<char>
    decreases parts.len(),
{
    if parts.len() == 0 {
        Seq::<char>::empty()
    } else if parts.len() == 1 {
        parts[0]
    } else {
        join_with(parts.drop_last(), sep) + sep + parts.last()
    }
}

/// Joins strings with a separator.
pub fn join_strings(parts: &Vec<String>, sep: &str) -> (r: String)
    ensures
        r@ == join_with(parts@.map_values(|s: String| s@), sep@),
{
    let mut out = String::new();
    let n = parts.len();
    let mut i: usize = 0;
    while i < n
        invariant
            i <= n,
            n == parts@.len(),
            out@ == join_with(parts@.map_values(|s: String| s@).take(i as int), sep@),
        decreases n - i,
    {
        if i > 0 {
            out.append(sep);
        }
        out.append(parts[i].as_str());
        proof {
            let views = parts@.map_values(|s: String| s@);
            assert(views.take(i + 1).drop_last() =~= views.take(i as int));
            assert(views.take(i + 1).last() == views[i as int]);
            if i > 0 {
                assert(out@ =~= join_with(views.take(i + 1), sep@));
            } else {
                assert(views.take(1int).len() == 1);
                assert(out@ =~= join_with(views.take(1int), sep@));
            }
        }
        i += 1;
    }
    proof {
        assert(parts@.map_values(|s: String| s@).take(n as int) =~= parts@.map_values(
            |s: String| s@,
        ));
    }
    out
}

} // verus!
