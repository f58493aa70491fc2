//! The report's persisted form: string escaping with a proved round trip,
//! and the building blocks of the export document.

use vstd::prelude::*;

verus! {

/// The escaped form of one character: quotes and backslashes get a
/// backslash in front.
pub open spec fn esc_char(c: char) -> Seq<char> {
    if c == '"' || c == '\\' {
        seq!['\\', c]
    } else {
        seq![c]
    }
}

/// The escaped form of a string, character by character.
pub open spec fn escape(s: Seq<char>) -> Seq<char>
    decreases s.len(),
{
    if s.len() == 0 {
        Seq::<char>::empty()
    } else {
        esc_char(s[0]) + escape(s.skip(1))
    }
}

/// Reading a quoted body back: characters until the closing quote, with
/// a backslash taking the next character literally. Returns the decoded
/// characters and what follows the closing quote.
pub open spec fn parse_quoted(d: Seq<char>) -> Option<(Seq<char>, Seq<char>)>
    decreases d.len(),
{
    if d.len() == 0 {
        None
    } else if d[0] == '"' {
        Some((Seq::<char>::empty(), d.skip(1)))
    } else if d[0] == '\\' {
        if d.len() < 2 {
            None
        } else {
            match parse_quoted(d.skip(2)) {
                Some((s, rest)) => Some((seq![d[1]] + s, rest)),
                None => None,
            }
        }
    } else {
        match parse_quoted(d.skip(1)) {
            Some((s, rest)) => Some((seq![d[0]] + s, rest)),
            None => None,
        }
    }
}

/// The escape round trip: a string without control characters, escaped
/// and closed with a quote, reads back exactly, and the tail is
/// untouched.
pub proof fn lemma_escape_round_trip(s: Seq<char>, rest: Seq<char>)
    requires
        forall|i: int| 0 <= i < s.len() ==> ((#[trigger] s[i]) as u32) >= 0x20,
    ensures
        parse_quoted(escape(s) + seq!['"'] + rest) == Some((s, rest)),
    decreases s.len(),
{
    let d = escape(s) + seq!['"'] + rest;
    if s.len() == 0 {
        assert(d =~= seq!['"'] + rest);
        assert(d[0] == '"');
        assert(d.skip(1) =~= rest);
    } else {
        let c = s[0];
        assert((s[0] as u32) >= 0x20);
        assert forall|i: int| 0 <= i < s.skip(1).len() implies ((#[trigger] s.skip(1)[i]) as u32)
            >= 0x20 by {
            assert(s.skip(1)[i] == s[i + 1]);
        }
        lemma_escape_round_trip(s.skip(1), rest);
        let tail = escape(s.skip(1)) + seq!['"'] + rest;
        if c == '"' || c == '\\' {
            assert(d =~= seq!['\\', c] + tail);
            assert(d[0] == '\\');
            assert(d.len() >= 2);
            assert(d[1] == c);
            assert(d.skip(2) =~= tail);
            assert(seq![c] + s.skip(1) =~= s);
        } else {
            assert(d =~= seq![c] + tail);
            assert(d[0] == c);
            assert(d[0] != '"' && d[0] != '\\');
            assert(d.skip(1) =~= tail);
            assert(seq![c] + s.skip(1) =~= s);
        }
    }
}

/// Escapes a string for a quoted field.
pub fn escape_string(s: &str) -> (r: String)
    ensures
        r@ == escape(s@),
{
    let len = s.unicode_len();
    let mut out = String::new();
    let mut i: usize = 0;
    proof {
        assert(escape(s@.take(0)) =~= Seq::<char>::empty());
    }
    while i < len
        invariant
            i <= len,
            len == s@.len(),
            out@ == escape(s@.take(i as int)),
        decreases len - i,
    {
        let c = s.get_char(i);
        if c == '"' {
            out.append("\\\"");
        } else if c == '\\' {
            out.append("\\\\");
        } else {
            let piece = s.substring_char(i, i + 1);
            out.append(piece);
        }
        proof {
            reveal_strlit("\\\"");
            reveal_strlit("\\\\");
            lemma_escape_snoc(s@.take(i as int), s@[i as int]);
            assert(s@.take(i as int).push(s@[i as int]) =~= s@.take(i + 1));
            assert(out@ =~= escape(s@.take(i + 1)));
        }
        i += 1;
    }
    proof {
        assert(s@.take(len as int) =~= s@);
    }
    out
}

/// Escaping grows at the end, one character's escape at a time.
proof fn lemma_escape_snoc(s: Seq<char>, c: char)
    ensures
        escape(s.push(c)) == escape(s) + esc_char(c),
    decreases s.len(),
{
    if s.len() == 0 {
        assert(s.push(c)[0] == c);
        assert(s.push(c).skip(1) =~= Seq::<char>::empty());
        assert(escape(Seq::<char>::empty()) =~= Seq::<char>::empty());
        assert(escape(s.push(c)) =~= escape(s) + esc_char(c));
    } else {
        assert(s.push(c)[0] == s[0]);
        assert(s.push(c).skip(1) =~= s.skip(1).push(c));
        lemma_escape_snoc(s.skip(1), c);
        assert(escape(s.push(c)) =~= escape(s) + esc_char(c));
    }
}

/// A quoted field: the escaped text between double quotes.
pub fn quote(s: &str) -> (r: String)
    ensures
        r@ == seq!['"'] + escape(s@) + seq!['"'],
{
    let mut out = "\"".to_owned();
    let esc = escape_string(s);
    out.append(esc.as_str());
    out.append("\"");
    proof {
        reveal_strlit("\"");
        assert(out@ =~= seq!['"'] + escape(s@) + seq!['"']);
    }
    out
}

/// A key-value opener: the quoted key and a colon.
pub fn key(name: &str) -> (r: String)
    ensures
        r@ == seq!['"'] + escape(name@) + seq!['"', ':'],
{
    let mut out = quote(name);
    out.append(":");
    proof {
        reveal_strlit(":");
        assert(out@ =~= seq!['"'] + escape(name@) + seq!['"', ':']);
    }
    out
}

} // verus!
