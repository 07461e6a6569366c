//! ASCII text utilities: the bridge between the byte-level token encodings
//! and character-level strings.

use vstd::prelude::*;
use vstd::string::StrSliceExecFns;
use vstd::utf8::is_ascii_chars;

verus! {

/// The characters of an ASCII byte sequence, byte for byte.
pub open spec fn chars_of_bytes(b: Seq<u8>) -> Seq<char> {
    b.map_values(|x: u8| x as char)
}

/// Every byte is in the 7-bit ASCII range.
pub open spec fn bytes_ascii(b: Seq<u8>) -> bool {
    forall|i: int| 0 <= i < b.len() ==> b[i] < 128
}

/// The bytes of an ASCII character sequence, character for character.
pub open spec fn bytes_of_chars(s: Seq<char>) -> Seq<u8> {
    s.map_values(|c: char| c as u8)
}

/// Relies on `String::from_utf8`: ASCII bytes are valid UTF-8 and decode to
/// exactly one character per byte.
#[verifier::external_body]
pub fn string_of_ascii_bytes(v: Vec<u8>) -> (r: String)
    requires
        bytes_ascii(v@),
    ensures
        r@ == chars_of_bytes(v@),
{
    String::from_utf8(v).unwrap_or_default()
}

/// The bytes of a string, when it is ASCII; `None` on any wider character.
pub fn ascii_bytes_of_str(s: &str) -> (r: Option<Vec<u8>>)
    ensures
        match r {
            Some(v) => is_ascii_chars(s@) && v@ == bytes_of_chars(s@),
            None => !is_ascii_chars(s@),
        },
{
    if s.is_ascii() {
        let v = s.as_bytes_vec();
        proof {
            broadcast use vstd::string::is_ascii_spec_bytes;

            assert(v@ =~= bytes_of_chars(s@));
        }
        Some(v)
    } else {
        None
    }
}

/// Appends all of `lit`.
pub fn push_bytes(out: &mut Vec<u8>, lit: &Vec<u8>)
    ensures
        final(out)@ == old(out)@ + lit@,
{
    let mut j: usize = 0;
    while j < lit.len()
        invariant
            j <= lit@.len(),
            out@ == old(out)@ + lit@.subrange(0, j as int),
        decreases lit@.len() - j,
    {
        out.push(lit[j]);
        j += 1;
        assert(out@ =~= old(out)@ + lit@.subrange(0, j as int));
    }
    assert(out@ =~= old(out)@ + lit@);
}

/// Appends `src[from..to]`.
pub fn push_range(out: &mut Vec<u8>, src: &Vec<u8>, from: usize, to: usize)
    requires
        from <= to <= src@.len(),
    ensures
        final(out)@ == old(out)@ + src@.subrange(from as int, to as int),
{
    let mut j: usize = from;
    while j < to
        invariant
            from <= j <= to <= src@.len(),
            out@ == old(out)@ + src@.subrange(from as int, j as int),
        decreases to - j,
    {
        out.push(src[j]);
        j += 1;
        assert(out@ =~= old(out)@ + src@.subrange(from as int, j as int));
    }
}

/// A copy of `v[from..to]`.
pub fn sub_vec(v: &Vec<u8>, from: usize, to: usize) -> (r: Vec<u8>)
    requires
        from <= to <= v@.len(),
    ensures
        r@ == v@.subrange(from as int, to as int),
{
    let mut out: Vec<u8> = Vec::new();
    push_range(&mut out, v, from, to);
    out
}

/// Whether `v[from..]` starts with `lit`.
pub fn range_eq(v: &Vec<u8>, from: usize, lit: &Vec<u8>) -> (r: bool)
    requires
        from + lit@.len() <= v@.len(),
    ensures
        r == (v@.subrange(from as int, from + lit@.len()) == lit@),
{
    let n = v.len();
    let m = lit.len();
    let mut j: usize = 0;
    while j < m
        invariant
            j <= m == lit@.len(),
            n == v@.len(),
            from + lit@.len() <= v@.len(),
            forall|k: int| 0 <= k < j ==> v@[from + k] == lit@[k],
        decreases m - j,
    {
        if v[from + j] != lit[j] {
            assert(v@.subrange(from as int, from + lit@.len())[j as int] != lit@[j as int]);
            return false;
        }
        j += 1;
    }
    assert(v@.subrange(from as int, from + lit@.len()) =~= lit@);
    true
}

/// Round trip: the characters of the bytes of an ASCII character sequence
/// are the sequence itself.
pub proof fn lemma_chars_bytes_round_trip(s: Seq<char>)
    requires
        is_ascii_chars(s),
    ensures
        chars_of_bytes(bytes_of_chars(s)) == s,
        bytes_ascii(bytes_of_chars(s)),
{
    assert forall|i: int| 0 <= i < s.len() implies bytes_of_chars(s)[i] < 128 by {
        assert(s[i] <= '\u{7f}');
    }
    assert(chars_of_bytes(bytes_of_chars(s)) =~= s);
}

/// Round trip in the other direction, for ASCII bytes.
pub proof fn lemma_bytes_chars_round_trip(b: Seq<u8>)
    requires
        bytes_ascii(b),
    ensures
        bytes_of_chars(chars_of_bytes(b)) == b,
        is_ascii_chars(chars_of_bytes(b)),
{
    assert forall|i: int| 0 <= i < b.len() implies '\0' <= #[trigger] chars_of_bytes(b)[i]
        <= '\u{7f}' by {
        assert(b[i] < 128);
    }
    assert(bytes_of_chars(chars_of_bytes(b)) =~= b);
}

} // verus!
