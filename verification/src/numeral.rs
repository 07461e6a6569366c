//! Canonical decimal and hexadecimal numerals over ASCII bytes, with the
//! round-trip proofs the token codec is built on.

use vstd::arithmetic::div_mod::{lemma_fundamental_div_mod, lemma_multiply_divide_lt};
use vstd::arithmetic::power::pow;
use vstd::prelude::*;

verus! {

/// ASCII code of the decimal digit `d` (`d < 10`).
pub open spec fn dec_digit(d: nat) -> u8 {
    (48 + d) as u8
}

/// ASCII code of the lower-case hexadecimal digit `d` (`d < 16`).
pub open spec fn hex_digit(d: nat) -> u8 {
    if d < 10 {
        (48 + d) as u8
    } else {
        (87 + d) as u8
    }
}

pub open spec fn is_dec_digit(b: u8) -> bool {
    48 <= b <= 57
}

pub open spec fn is_hex_digit(b: u8) -> bool {
    48 <= b <= 57 || 97 <= b <= 102
}

pub open spec fn dec_digit_val(b: u8) -> nat {
    (b - 48) as nat
}

pub open spec fn hex_digit_val(b: u8) -> nat {
    if b <= 57 {
        (b - 48) as nat
    } else {
        (b - 87) as nat
    }
}

pub open spec fn all_dec_digits(s: Seq<u8>) -> bool {
    forall|i: int| 0 <= i < s.len() ==> is_dec_digit(#[trigger] s[i])
}

pub open spec fn all_hex_digits(s: Seq<u8>) -> bool {
    forall|i: int| 0 <= i < s.len() ==> is_hex_digit(#[trigger] s[i])
}

/// Canonical decimal numeral of `n`, most significant digit first; no
/// leading zero except for the numeral of zero itself.
pub open spec fn dec_numeral(n: nat) -> Seq<u8>
    decreases n,
{
    if n < 10 {
        seq![dec_digit(n)]
    } else {
        dec_numeral(n / 10) + seq![dec_digit(n % 10)]
    }
}

/// Hexadecimal numeral of `n`, exactly `width` digits, zero padded.
pub open spec fn hex_numeral(n: nat, width: nat) -> Seq<u8>
    decreases width,
{
    if width == 0 {
        Seq::empty()
    } else {
        hex_numeral(n / 16, (width - 1) as nat) + seq![hex_digit(n % 16)]
    }
}

/// The number a decimal digit string denotes.
pub open spec fn dec_value(s: Seq<u8>) -> nat
    decreases s.len(),
{
    if s.len() == 0 {
        0
    } else {
        dec_value(s.drop_last()) * 10 + dec_digit_val(s.last())
    }
}

/// The number a hexadecimal digit string denotes.
pub open spec fn hex_value(s: Seq<u8>) -> nat
    decreases s.len(),
{
    if s.len() == 0 {
        0
    } else {
        hex_value(s.drop_last()) * 16 + hex_digit_val(s.last())
    }
}

pub proof fn lemma_dec_numeral_digits(n: nat)
    ensures
        all_dec_digits(dec_numeral(n)),
        dec_numeral(n).len() >= 1,
        n > 0 ==> dec_numeral(n)[0] != 48,
        n == 0 ==> dec_numeral(n) == seq![48u8],
    decreases n,
{
    if n >= 10 {
        lemma_dec_numeral_digits(n / 10);
        lemma_fundamental_div_mod(n as int, 10);
        assert(n / 10 > 0);
    }
}

/// Reading the canonical decimal numeral back gives the number.
pub proof fn lemma_dec_round_trip(n: nat)
    ensures
        dec_value(dec_numeral(n)) == n,
    decreases n,
{
    if n < 10 {
        let s = dec_numeral(n);
        assert(s.drop_last() =~= Seq::<u8>::empty());
        assert(s.last() == dec_digit(n));
        assert(dec_value(s) == dec_value(s.drop_last()) * 10 + dec_digit_val(s.last()));
        assert(dec_digit_val(dec_digit(n)) == n);
    } else {
        lemma_dec_round_trip(n / 10);
        let s = dec_numeral(n);
        assert(s.drop_last() =~= dec_numeral(n / 10));
        assert(s.last() == dec_digit(n % 10));
        assert(dec_value(s) == dec_value(s.drop_last()) * 10 + dec_digit_val(s.last()));
        assert(dec_digit_val(dec_digit(n % 10)) == n % 10);
        lemma_fundamental_div_mod(n as int, 10);
    }
}

/// Reading the fixed-width hexadecimal numeral back gives the number.
pub proof fn lemma_hex_round_trip(n: nat, width: nat)
    requires
        n < pow(16, width),
    ensures
        hex_value(hex_numeral(n, width)) == n,
        all_hex_digits(hex_numeral(n, width)),
        hex_numeral(n, width).len() == width,
    decreases width,
{
    reveal(pow);
    if width == 0 {
        assert(pow(16, 0) == 1);
    } else {
        assert(pow(16, width) == 16 * pow(16, (width - 1) as nat));
        lemma_multiply_divide_lt(n as int, 16, pow(16, (width - 1) as nat));
        lemma_hex_round_trip(n / 16, (width - 1) as nat);
        let s = hex_numeral(n, width);
        assert(s.drop_last() =~= hex_numeral(n / 16, (width - 1) as nat));
        lemma_fundamental_div_mod(n as int, 16);
    }
}

/// A fixed-width hexadecimal numeral has exactly that width, all of it
/// lower-case hexadecimal digits.
pub proof fn lemma_hex_numeral_digits(n: nat, width: nat)
    ensures
        hex_numeral(n, width).len() == width,
        all_hex_digits(hex_numeral(n, width)),
    decreases width,
{
    if width > 0 {
        lemma_hex_numeral_digits(n / 16, (width - 1) as nat);
    }
}

/// A decimal digit string of length `k` denotes a number below `10^k`.
pub proof fn lemma_dec_value_bound(s: Seq<u8>)
    requires
        all_dec_digits(s),
    ensures
        dec_value(s) < pow(10, s.len() as nat),
    decreases s.len(),
{
    reveal(pow);
    if s.len() == 0 {
        assert(pow(10, 0) == 1);
    } else {
        lemma_dec_value_bound(s.drop_last());
        assert(pow(10, s.len() as nat) == 10 * pow(10, (s.len() - 1) as nat));
        assert(dec_digit_val(s.last()) <= 9);
    }
}

/// The canonical numeral of a number below `10^k` has at most `k` digits.
pub proof fn lemma_dec_numeral_len(n: nat, k: nat)
    requires
        n < pow(10, k),
        k >= 1,
    ensures
        dec_numeral(n).len() <= k,
    decreases n,
{
    reveal(pow);
    if n >= 10 {
        assert(pow(10, k) == 10 * pow(10, (k - 1) as nat));
        if k == 1 {
            assert(pow(10, 1) == 10 * pow(10, 0));
            assert(false);
        }
        lemma_multiply_divide_lt(n as int, 10, pow(10, (k - 1) as nat));
        lemma_dec_numeral_len(n / 10, (k - 1) as nat);
    }
}

/// Appends the canonical decimal numeral of `n`.
pub fn push_dec_u64(out: &mut Vec<u8>, n: u64)
    ensures
        final(out)@ == old(out)@ + dec_numeral(n as nat),
    decreases n,
{
    if n >= 10 {
        push_dec_u64(out, n / 10);
    }
    out.push((n % 10) as u8 + 48);
    proof {
        if n < 10 {
            assert(out@ =~= old(out)@ + dec_numeral(n as nat));
        } else {
            assert(out@ =~= old(out)@ + dec_numeral(n as nat));
        }
    }
}

/// Appends the `width`-digit hexadecimal numeral of `n`.
pub fn push_hex_u128(out: &mut Vec<u8>, n: u128, width: usize)
    ensures
        final(out)@ == old(out)@ + hex_numeral(n as nat, width as nat),
    decreases width,
{
    if width == 0 {
        assert(out@ =~= old(out)@ + hex_numeral(n as nat, 0));
        return ;
    }
    push_hex_u128(out, n / 16, width - 1);
    let d = (n % 16) as u8;
    let b = if d < 10 {
        d + 48
    } else {
        d + 87
    };
    out.push(b);
    assert(out@ =~= old(out)@ + hex_numeral(n as nat, width as nat));
}

/// The number denoted by the decimal digits `v[from..to]`; at most 19
/// digits, so the value fits in a `u64`.
pub fn dec_value_u64(v: &Vec<u8>, from: usize, to: usize) -> (r: u64)
    requires
        from <= to <= v@.len(),
        to - from <= 19,
        all_dec_digits(v@.subrange(from as int, to as int)),
    ensures
        r as nat == dec_value(v@.subrange(from as int, to as int)),
{
    proof {
        reveal(pow);
        lemma_pow10_19();
    }
    let mut acc: u64 = 0;
    let mut i: usize = from;
    while i < to
        invariant
            from <= i <= to <= v@.len(),
            to - from <= 19,
            all_dec_digits(v@.subrange(from as int, to as int)),
            acc as nat == dec_value(v@.subrange(from as int, i as int)),
            acc < pow(10, (i - from) as nat),
            pow(10, 19) == 10000000000000000000,
        decreases to - i,
    {
        proof {
            let pre = v@.subrange(from as int, i as int);
            let nxt = v@.subrange(from as int, i + 1);
            assert(nxt.drop_last() =~= pre);
            assert(is_dec_digit(v@.subrange(from as int, to as int)[i - from]));
            reveal(pow);
            lemma_dec_value_bound(nxt);
            lemma_pow10_le(((i + 1) - from) as nat, 19);
            assert(pow(10, ((i + 1) - from) as nat) == 10 * pow(10, (i - from) as nat));
        }
        acc = acc * 10 + (v[i] - 48) as u64;
        i += 1;
    }
    assert(v@.subrange(from as int, i as int) =~= v@.subrange(from as int, to as int));
    acc
}

/// The number denoted by 32 hexadecimal digits; any 128-bit value fits.
pub fn hex_value_u128(v: &Vec<u8>, from: usize, to: usize) -> (r: u128)
    requires
        from <= to <= v@.len(),
        to - from == 32,
        all_hex_digits(v@.subrange(from as int, to as int)),
    ensures
        r as nat == hex_value(v@.subrange(from as int, to as int)),
{
    proof {
        reveal(pow);
        lemma_pow16_32();
    }
    let mut acc: u128 = 0;
    let mut i: usize = from;
    while i < to
        invariant
            from <= i <= to <= v@.len(),
            to - from == 32,
            all_hex_digits(v@.subrange(from as int, to as int)),
            acc as nat == hex_value(v@.subrange(from as int, i as int)),
            acc < pow(16, (i - from) as nat),
            pow(16, 32) == 0x100000000000000000000000000000000,
        decreases to - i,
    {
        proof {
            let pre = v@.subrange(from as int, i as int);
            let nxt = v@.subrange(from as int, i + 1);
            assert(nxt.drop_last() =~= pre);
            assert(is_hex_digit(v@.subrange(from as int, to as int)[i - from]));
            reveal(pow);
            lemma_hex_value_bound(nxt);
            lemma_pow16_le(((i + 1) - from) as nat, 32);
            assert(pow(16, ((i + 1) - from) as nat) == 16 * pow(16, (i - from) as nat));
        }
        let b = v[i];
        let d: u128 = if b <= 57 {
            (b - 48) as u128
        } else {
            (b - 87) as u128
        };
        acc = acc * 16 + d;
        i += 1;
    }
    assert(v@.subrange(from as int, i as int) =~= v@.subrange(from as int, to as int));
    acc
}

/// A hexadecimal digit string of length `k` denotes a number below `16^k`.
pub proof fn lemma_hex_value_bound(s: Seq<u8>)
    requires
        all_hex_digits(s),
    ensures
        hex_value(s) < pow(16, s.len() as nat),
    decreases s.len(),
{
    reveal(pow);
    if s.len() == 0 {
        assert(pow(16, 0) == 1);
    } else {
        lemma_hex_value_bound(s.drop_last());
        assert(pow(16, s.len() as nat) == 16 * pow(16, (s.len() - 1) as nat));
        assert(hex_digit_val(s.last()) <= 15);
    }
}

/// What a digit string is worth under a cap: `None` when empty, when any
/// byte is not a digit — leading zeros are digits — or when the value
/// exceeds the cap.
pub open spec fn capped_value(s: Seq<u8>, cap: u64) -> Option<u64> {
    if s.len() == 0 || !all_dec_digits(s) {
        None
    } else if dec_value(s) > cap {
        None
    } else {
        Some(dec_value(s) as u64)
    }
}

/// A digit string is worth at least any of its prefixes.
pub proof fn lemma_dec_value_prefix_mono(s: Seq<u8>, k: int)
    requires
        0 <= k <= s.len(),
        all_dec_digits(s),
    ensures
        dec_value(s.subrange(0, k)) <= dec_value(s),
    decreases s.len() - k,
{
    if k == s.len() {
        assert(s.subrange(0, k) =~= s);
    } else {
        lemma_dec_value_prefix_mono(s, k + 1);
        assert(s.subrange(0, k + 1).drop_last() =~= s.subrange(0, k));
        assert(is_dec_digit(s[k]));
        assert(dec_value(s.subrange(0, k + 1)) == dec_value(s.subrange(0, k)) * 10 + dec_digit_val(
            s.subrange(0, k + 1).last(),
        ));
    }
}

/// The value of the decimal digits of `v`, unless empty, non-digit, or
/// over `cap`; accepts leading zeros, as a plain integer parse does.
pub fn dec_value_capped(v: &Vec<u8>, cap: u64) -> (r: Option<u64>)
    ensures
        r == capped_value(v@, cap),
{
    let n = v.len();
    if n == 0 {
        return None;
    }
    let mut acc: u128 = 0;
    let mut i: usize = 0;
    while i < n
        invariant
            i <= n,
            n == v@.len(),
            n >= 1,
            all_dec_digits(v@.subrange(0, i as int)),
            acc == dec_value(v@.subrange(0, i as int)),
            acc <= cap,
        decreases n - i,
    {
        let b = v[i];
        if b < 48 || b > 57 {
            assert(!is_dec_digit(v@[i as int]));
            return None;
        }
        proof {
            let pre = v@.subrange(0, i as int);
            let nxt = v@.subrange(0, i + 1);
            assert(nxt.drop_last() =~= pre);
            assert(nxt.last() == v@[i as int]);
        }
        acc = acc * 10 + (b - 48) as u128;
        i += 1;
        if acc > cap as u128 {
            proof {
                if all_dec_digits(v@) {
                    lemma_dec_value_prefix_mono(v@, i as int);
                }
            }
            return None;
        }
    }
    assert(v@.subrange(0, n as int) =~= v@);
    Some(acc as u64)
}

pub proof fn lemma_pow10_19()
    ensures
        pow(10, 19) == 10000000000000000000,
{
    reveal_with_fuel(pow, 20);
    assert(pow(10, 19) == 10000000000000000000);
}

pub proof fn lemma_pow16_32()
    ensures
        pow(16, 32) == 0x100000000000000000000000000000000,
{
    reveal_with_fuel(pow, 33);
    assert(pow(16, 32) == 0x100000000000000000000000000000000);
}

/// Powers of ten are ordered by exponent.
pub proof fn lemma_pow10_le(a: nat, b: nat)
    requires
        a <= b,
    ensures
        pow(10, a) <= pow(10, b),
    decreases b,
{
    reveal(pow);
    if a < b {
        lemma_pow10_le(a, (b - 1) as nat);
        assert(pow(10, b) == 10 * pow(10, (b - 1) as nat));
        vstd::arithmetic::power::lemma_pow_positive(10, (b - 1) as nat);
    }
}

/// Powers of sixteen are ordered by exponent.
pub proof fn lemma_pow16_le(a: nat, b: nat)
    requires
        a <= b,
    ensures
        pow(16, a) <= pow(16, b),
    decreases b,
{
    reveal(pow);
    if a < b {
        lemma_pow16_le(a, (b - 1) as nat);
        assert(pow(16, b) == 16 * pow(16, (b - 1) as nat));
        vstd::arithmetic::power::lemma_pow_positive(16, (b - 1) as nat);
    }
}

} // verus!
