//! Claims: the signed payload of a token. Defines the canonical JSON wire
//! form — subject as a hyphenated UUID string, issue and expiry times as
//! plain seconds — a strict parser for it, and the round-trip proof.

use crate::numeral::{
    all_hex_digits, dec_numeral, dec_value, dec_value_u64, hex_numeral, hex_value, hex_value_u128,
    is_dec_digit, lemma_dec_numeral_digits, lemma_dec_numeral_len, lemma_dec_round_trip,
    lemma_hex_numeral_digits, lemma_hex_round_trip, lemma_hex_value_bound, lemma_pow10_19,
    lemma_pow16_32, push_dec_u64, push_hex_u128,
};
use crate::text::{push_range, range_eq};
use vstd::arithmetic::power::pow;
use vstd::prelude::*;

verus! {

/// What a token certifies: a subject identity and its validity window.
/// `expires_at` strictly after `issued_at`; both are seconds of epoch time.
#[derive(Clone, Copy, Debug, PartialEq, Eq, Structural)]
pub struct Claims {
    /// Subject (user ID), the 128 bits of a UUID.
    pub sub: u128,
    /// Issued at.
    pub iat: i64,
    /// Expiration.
    pub exp: i64,
}

/// The well-formed claims: a real validity window in nonnegative epoch time.
pub open spec fn claims_wf(c: Claims) -> bool {
    0 <= c.iat && c.iat < c.exp
}

/// Hyphenated lower-case UUID text of a 128-bit subject: 8-4-4-4-12
/// hexadecimal digits.
pub open spec fn uuid_text(n: nat) -> Seq<u8> {
    let h = hex_numeral(n, 32);
    h.subrange(0, 8) + seq![45u8] + h.subrange(8, 12) + seq![45u8] + h.subrange(12, 16)
        + seq![45u8] + h.subrange(16, 20) + seq![45u8] + h.subrange(20, 32)
}

/// The 32 hexadecimal digits of a 36-byte UUID text, hyphens dropped.
pub open spec fn uuid_digits(s: Seq<u8>) -> Seq<u8> {
    s.subrange(0, 8) + s.subrange(9, 13) + s.subrange(14, 18) + s.subrange(19, 23) + s.subrange(
        24,
        36,
    )
}

/// Strict parse of hyphenated lower-case UUID text.
pub open spec fn parse_uuid(s: Seq<u8>) -> Option<u128> {
    if s.len() == 36 && s[8] == 45 && s[13] == 45 && s[18] == 45 && s[23] == 45 && all_hex_digits(
        uuid_digits(s),
    ) {
        Some(hex_value(uuid_digits(s)) as u128)
    } else {
        None
    }
}

/// `{"sub":"`
pub open spec fn sub_prefix() -> Seq<u8> {
    seq![123u8, 34u8, 115u8, 117u8, 98u8, 34u8, 58u8, 34u8]
}

/// `","iat":`
pub open spec fn iat_infix() -> Seq<u8> {
    seq![34u8, 44u8, 34u8, 105u8, 97u8, 116u8, 34u8, 58u8]
}

/// `,"exp":`
pub open spec fn exp_infix() -> Seq<u8> {
    seq![44u8, 34u8, 101u8, 120u8, 112u8, 34u8, 58u8]
}

/// Canonical JSON bytes of well-formed claims:
/// `{"sub":"<uuid>","iat":<n>,"exp":<n>}`.
pub open spec fn claims_json(c: Claims) -> Seq<u8> {
    sub_prefix() + uuid_text(c.sub as nat) + iat_infix() + dec_numeral(c.iat as nat) + exp_infix()
        + dec_numeral(c.exp as nat) + seq![125u8]
}

/// End of the run of decimal digits that starts at `from`.
pub open spec fn digits_end(s: Seq<u8>, from: int) -> int
    decreases s.len() - from when from <= s.len()
{
    if from < s.len() && is_dec_digit(s[from]) {
        digits_end(s, from + 1)
    } else {
        from
    }
}

/// Strict parse of the canonical claims JSON; `None` on anything else.
pub open spec fn parse_claims(s: Seq<u8>) -> Option<Claims> {
    if s.len() < 62 {
        None
    } else if s.subrange(0, 8) != sub_prefix() {
        None
    } else {
        match parse_uuid(s.subrange(8, 44)) {
            None => None,
            Some(sub) => {
                if s.subrange(44, 52) != iat_infix() {
                    None
                } else {
                    let ie = digits_end(s, 52);
                    if ie == 52 || ie - 52 > 19 {
                        None
                    } else if s[52] == 48 && ie != 53 {
                        None
                    } else if dec_value(s.subrange(52, ie)) > 9223372036854775807 {
                        None
                    } else if ie + 7 > s.len() {
                        None
                    } else if s.subrange(ie, ie + 7) != exp_infix() {
                        None
                    } else {
                        let ee = digits_end(s, ie + 7);
                        if ee == ie + 7 || ee - (ie + 7) > 19 {
                            None
                        } else if s[ie + 7] == 48 && ee != ie + 8 {
                            None
                        } else if dec_value(s.subrange(ie + 7, ee)) > 9223372036854775807 {
                            None
                        } else if ee != s.len() - 1 || s[s.len() - 1] != 125 {
                            None
                        } else {
                            Some(
                                Claims {
                                    sub,
                                    iat: dec_value(s.subrange(52, ie)) as i64,
                                    exp: dec_value(s.subrange(ie + 7, ee)) as i64,
                                },
                            )
                        }
                    }
                }
            },
        }
    }
}

/// The digit run ends exactly where the digits do.
pub proof fn lemma_digits_end_exact(s: Seq<u8>, from: int, mid: int)
    requires
        0 <= from <= mid <= s.len(),
        forall|k: int| from <= k < mid ==> is_dec_digit(#[trigger] s[k]),
        mid == s.len() || !is_dec_digit(s[mid]),
    ensures
        digits_end(s, from) == mid,
    decreases mid - from,
{
    if from < mid {
        lemma_digits_end_exact(s, from + 1, mid);
    }
}

/// Basic facts about a digit run: where it ends, and that it is digits.
pub proof fn lemma_digits_end_props(s: Seq<u8>, from: int)
    requires
        0 <= from <= s.len(),
    ensures
        from <= digits_end(s, from) <= s.len(),
        forall|k: int| from <= k < digits_end(s, from) ==> is_dec_digit(#[trigger] s[k]),
        digits_end(s, from) < s.len() ==> !is_dec_digit(s[digits_end(s, from)]),
    decreases s.len() - from,
{
    if from < s.len() && is_dec_digit(s[from]) {
        lemma_digits_end_props(s, from + 1);
    }
}

/// Parsing the canonical JSON of well-formed claims gives them back.
pub proof fn lemma_claims_round_trip(c: Claims)
    requires
        claims_wf(c),
    ensures
        parse_claims(claims_json(c)) == Some(c),
{
    let s = claims_json(c);
    let u = uuid_text(c.sub as nat);
    let di = dec_numeral(c.iat as nat);
    let de = dec_numeral(c.exp as nat);
    lemma_hex_numeral_digits(c.sub as nat, 32);
    lemma_dec_numeral_digits(c.iat as nat);
    lemma_dec_numeral_digits(c.exp as nat);
    lemma_pow10_19();
    lemma_pow16_32();
    assert(u.len() == 36);
    assert(s.len() == 60 + di.len() + de.len());

    // The subject segment.
    assert(s.subrange(0, 8) =~= sub_prefix());
    assert(s.subrange(8, 44) =~= u);
    lemma_uuid_round_trip(c.sub);

    // The issued-at segment.
    assert(s.subrange(44, 52) =~= iat_infix());
    let ie = 52 + di.len() as int;
    assert(s.subrange(52, ie) =~= di);
    assert forall|k: int| 52 <= k < ie implies is_dec_digit(#[trigger] s[k]) by {
        assert(s[k] == di[k - 52]);
    }
    assert(!is_dec_digit(s[ie]));
    lemma_digits_end_exact(s, 52, ie);
    lemma_dec_round_trip(c.iat as nat);
    lemma_dec_numeral_len(c.iat as nat, 19);
    if s[52] == 48 {
        assert(di[0] == 48);
        assert(c.iat == 0);
        assert(di.len() == 1);
    }

    // The expiry segment.
    assert(s.subrange(ie, ie + 7) =~= exp_infix());
    let ee = ie + 7 + de.len() as int;
    assert(s.subrange(ie + 7, ee) =~= de);
    assert forall|k: int| ie + 7 <= k < ee implies is_dec_digit(#[trigger] s[k]) by {
        assert(s[k] == de[k - (ie + 7)]);
    }
    assert(s[ee] == 125);
    assert(!is_dec_digit(s[ee]));
    lemma_digits_end_exact(s, ie + 7, ee);
    lemma_dec_round_trip(c.exp as nat);
    lemma_dec_numeral_len(c.exp as nat, 19);
    if s[ie + 7] == 48 {
        assert(de[0] == 48);
        assert(c.exp == 0);
        assert(de.len() == 1);
    }
    assert(ee == s.len() - 1 && s[s.len() - 1] == 125);
}

/// Reading hyphenated UUID text back gives the subject.
pub proof fn lemma_uuid_round_trip(n: u128)
    ensures
        parse_uuid(uuid_text(n as nat)) == Some(n),
{
    lemma_pow16_32();
    lemma_hex_round_trip(n as nat, 32);
    lemma_hex_numeral_digits(n as nat, 32);
    let u = uuid_text(n as nat);
    assert(uuid_digits(u) =~= hex_numeral(n as nat, 32));
}

/// Appends the hyphenated UUID text of `n`.
pub fn push_uuid_text(out: &mut Vec<u8>, n: u128)
    ensures
        final(out)@ == old(out)@ + uuid_text(n as nat),
{
    let mut h: Vec<u8> = Vec::new();
    push_hex_u128(&mut h, n, 32);
    proof {
        assert(h@ =~= hex_numeral(n as nat, 32));
        lemma_hex_numeral_digits(n as nat, 32);
    }
    let ghost out0 = out@;
    push_range(out, &h, 0, 8);
    out.push(45);
    push_range(out, &h, 8, 12);
    out.push(45);
    push_range(out, &h, 12, 16);
    out.push(45);
    push_range(out, &h, 16, 20);
    out.push(45);
    push_range(out, &h, 20, 32);
    assert(out@ =~= out0 + uuid_text(n as nat));
}

/// Parses the 36 bytes at `v[from..from + 36]` as hyphenated UUID text.
pub fn parse_uuid_at(v: &Vec<u8>, from: usize) -> (r: Option<u128>)
    requires
        from + 36 <= v@.len(),
    ensures
        r == parse_uuid(v@.subrange(from as int, from + 36)),
{
    let ghost s = v@.subrange(from as int, from + 36);
    let n = v.len();
    proof {
        assert(s[8] == v@[from + 8]);
        assert(s[13] == v@[from + 13]);
        assert(s[18] == v@[from + 18]);
        assert(s[23] == v@[from + 23]);
    }
    if v[from + 8] != 45 || v[from + 13] != 45 || v[from + 18] != 45 || v[from + 23] != 45 {
        return None;
    }
    let mut d: Vec<u8> = Vec::new();
    push_range(&mut d, v, from, from + 8);
    push_range(&mut d, v, from + 9, from + 13);
    push_range(&mut d, v, from + 14, from + 18);
    push_range(&mut d, v, from + 19, from + 23);
    push_range(&mut d, v, from + 24, from + 36);
    proof {
        assert(d@ =~= uuid_digits(s));
    }
    let mut j: usize = 0;
    while j < 32
        invariant
            j <= 32,
            from + 36 <= v@.len(),
            s == v@.subrange(from as int, from + 36),
            d@.len() == 32,
            d@ == uuid_digits(s),
            forall|k: int|
                0 <= k < j ==> crate::numeral::is_hex_digit(#[trigger] uuid_digits(s)[k]),
        decreases 32 - j,
    {
        let b = d[j];
        if !(48 <= b && b <= 57 || 97 <= b && b <= 102) {
            proof {
                assert(!crate::numeral::is_hex_digit(uuid_digits(s)[j as int]));
                assert(uuid_digits(s).len() == 32);
                assert(!all_hex_digits(uuid_digits(s)));
                assert(parse_uuid(s) is None);
            }
            return None;
        }
        j += 1;
    }
    proof {
        lemma_pow16_32();
        lemma_hex_value_bound(uuid_digits(s));
    }
    let x = hex_value_u128(&d, 0, 32);
    proof {
        assert(d@.subrange(0, 32) =~= uuid_digits(s));
    }
    Some(x)
}

/// Emits the canonical JSON bytes of well-formed claims.
pub fn claims_json_of(c: &Claims) -> (r: Vec<u8>)
    requires
        claims_wf(*c),
    ensures
        r@ == claims_json(*c),
{
    let mut out: Vec<u8> = Vec::new();
    out.push(123);
    out.push(34);
    out.push(115);
    out.push(117);
    out.push(98);
    out.push(34);
    out.push(58);
    out.push(34);
    push_uuid_text(&mut out, c.sub);
    out.push(34);
    out.push(44);
    out.push(34);
    out.push(105);
    out.push(97);
    out.push(116);
    out.push(34);
    out.push(58);
    push_dec_u64(&mut out, c.iat as u64);
    out.push(44);
    out.push(34);
    out.push(101);
    out.push(120);
    out.push(112);
    out.push(34);
    out.push(58);
    push_dec_u64(&mut out, c.exp as u64);
    out.push(125);
    assert(out@ =~= claims_json(*c));
    out
}

/// Runs to the end of the decimal digits that start at `from`.
fn digits_end_of(v: &Vec<u8>, from: usize) -> (r: usize)
    requires
        from <= v@.len(),
    ensures
        r == digits_end(v@, from as int),
        from <= r <= v@.len(),
{
    let n = v.len();
    let mut i: usize = from;
    while i < n && 48 <= v[i] && v[i] <= 57
        invariant
            from <= i <= n,
            n == v@.len(),
            digits_end(v@, from as int) == digits_end(v@, i as int),
        decreases n - i,
    {
        i += 1;
    }
    proof {
        lemma_digits_end_props(v@, i as int);
    }
    i
}

/// Strictly parses canonical claims JSON bytes.
pub fn parse_claims_bytes(v: &Vec<u8>) -> (r: Option<Claims>)
    ensures
        r == parse_claims(v@),
{
    let n = v.len();
    if n < 62 {
        return None;
    }
    let prefix = sub_prefix_vec();
    if !range_eq(v, 0, &prefix) {
        return None;
    }
    let sub = match parse_uuid_at(v, 8) {
        Some(x) => x,
        None => {
            return None;
        },
    };
    let infix1 = iat_infix_vec();
    if !range_eq(v, 44, &infix1) {
        return None;
    }
    let ie = digits_end_of(v, 52);
    if ie == 52 || ie - 52 > 19 {
        return None;
    }
    if v[52] == 48 && ie != 53 {
        return None;
    }
    proof {
        lemma_digits_end_props(v@, 52);
    }
    let iat_val = dec_value_u64(v, 52, ie);
    if iat_val > 9223372036854775807 {
        return None;
    }
    if ie + 7 > n {
        return None;
    }
    let infix2 = exp_infix_vec();
    if !range_eq(v, ie, &infix2) {
        return None;
    }
    let ee = digits_end_of(v, ie + 7);
    if ee == ie + 7 || ee - (ie + 7) > 19 {
        return None;
    }
    if v[ie + 7] == 48 && ee != ie + 8 {
        return None;
    }
    proof {
        lemma_digits_end_props(v@, ie + 7);
    }
    let exp_val = dec_value_u64(v, ie + 7, ee);
    if exp_val > 9223372036854775807 {
        return None;
    }
    if ee != n - 1 || v[n - 1] != 125 {
        return None;
    }
    Some(Claims { sub, iat: iat_val as i64, exp: exp_val as i64 })
}

/// `{"sub":"` as bytes.
fn sub_prefix_vec() -> (r: Vec<u8>)
    ensures
        r@ == sub_prefix(),
{
    let mut out: Vec<u8> = Vec::new();
    out.push(123);
    out.push(34);
    out.push(115);
    out.push(117);
    out.push(98);
    out.push(34);
    out.push(58);
    out.push(34);
    assert(out@ =~= sub_prefix());
    out
}

/// `","iat":` as bytes.
fn iat_infix_vec() -> (r: Vec<u8>)
    ensures
        r@ == iat_infix(),
{
    let mut out: Vec<u8> = Vec::new();
    out.push(34);
    out.push(44);
    out.push(34);
    out.push(105);
    out.push(97);
    out.push(116);
    out.push(34);
    out.push(58);
    assert(out@ =~= iat_infix());
    out
}

/// `,"exp":` as bytes.
fn exp_infix_vec() -> (r: Vec<u8>)
    ensures
        r@ == exp_infix(),
{
    let mut out: Vec<u8> = Vec::new();
    out.push(44);
    out.push(34);
    out.push(101);
    out.push(120);
    out.push(112);
    out.push(34);
    out.push(58);
    assert(out@ =~= exp_infix());
    out
}

} // verus!
