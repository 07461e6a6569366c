//! Base64url without padding, over bytes, as compact signed tokens use it:
//! encoder, strict decoder, and the round-trip proof.

use vstd::prelude::*;

verus! {

/// ASCII code of the base64url alphabet entry `d` (`d < 64`).
pub open spec fn b64_char(d: u8) -> u8 {
    if d < 26 {
        (65 + d) as u8
    } else if d < 52 {
        (71 + d) as u8
    } else if d < 62 {
        (d - 4) as u8
    } else if d == 62 {
        45
    } else {
        95
    }
}

/// Alphabet position of an ASCII code; 255 marks a byte outside the alphabet.
pub open spec fn b64_val(b: u8) -> u8 {
    if 65 <= b <= 90 {
        (b - 65) as u8
    } else if 97 <= b <= 122 {
        (b - 71) as u8
    } else if 48 <= b <= 57 {
        (b + 4) as u8
    } else if b == 45 {
        62
    } else if b == 95 {
        63
    } else {
        255
    }
}

pub open spec fn is_b64_byte(b: u8) -> bool {
    b64_val(b) != 255
}

/// Base64url encoding without padding, three input bytes to four output
/// bytes, with the standard short tail forms.
pub open spec fn b64_encode(s: Seq<u8>) -> Seq<u8>
    decreases s.len(),
{
    if s.len() == 0 {
        Seq::empty()
    } else if s.len() == 1 {
        let b0 = s[0];
        seq![b64_char(b0 >> 2), b64_char((b0 & 3) << 4)]
    } else if s.len() == 2 {
        let b0 = s[0];
        let b1 = s[1];
        seq![b64_char(b0 >> 2), b64_char((b0 & 3) << 4 | b1 >> 4), b64_char((b1 & 15) << 2)]
    } else {
        let b0 = s[0];
        let b1 = s[1];
        let b2 = s[2];
        seq![
            b64_char(b0 >> 2),
            b64_char((b0 & 3) << 4 | b1 >> 4),
            b64_char((b1 & 15) << 2 | b2 >> 6),
            b64_char(b2 & 63),
        ] + b64_encode(s.skip(3))
    }
}

/// Strict base64url decoding: no padding, canonical length, zero trailing
/// bits; `None` on anything else.
pub open spec fn b64_decode(s: Seq<u8>) -> Option<Seq<u8>>
    decreases s.len(),
{
    if s.len() == 0 {
        Some(Seq::empty())
    } else if s.len() == 1 {
        None
    } else if s.len() == 2 {
        let v0 = b64_val(s[0]);
        let v1 = b64_val(s[1]);
        if v0 != 255 && v1 != 255 && v1 & 15 == 0 {
            Some(seq![v0 << 2 | v1 >> 4])
        } else {
            None
        }
    } else if s.len() == 3 {
        let v0 = b64_val(s[0]);
        let v1 = b64_val(s[1]);
        let v2 = b64_val(s[2]);
        if v0 != 255 && v1 != 255 && v2 != 255 && v2 & 3 == 0 {
            Some(seq![v0 << 2 | v1 >> 4, (v1 & 15) << 4 | v2 >> 2])
        } else {
            None
        }
    } else {
        let v0 = b64_val(s[0]);
        let v1 = b64_val(s[1]);
        let v2 = b64_val(s[2]);
        let v3 = b64_val(s[3]);
        if v0 != 255 && v1 != 255 && v2 != 255 && v3 != 255 {
            match b64_decode(s.skip(4)) {
                Some(rest) => Some(
                    seq![v0 << 2 | v1 >> 4, (v1 & 15) << 4 | v2 >> 2, (v2 & 3) << 6 | v3] + rest,
                ),
                None => None,
            }
        } else {
            None
        }
    }
}

/// The alphabet map is injective: reading an alphabet entry back gives its
/// position; entries are ASCII and never a dot.
pub proof fn lemma_b64_char_val(d: u8)
    requires
        d < 64,
    ensures
        b64_val(b64_char(d)) == d,
        b64_char(d) < 128,
        b64_char(d) != 46,
{
}

/// Bit identities for a full three-byte group.
proof fn lemma_group_bits(b0: u8, b1: u8, b2: u8)
    by (bit_vector)
    ensures
        b0 >> 2 < 64,
        (b0 & 3) << 4 | b1 >> 4 < 64,
        (b1 & 15) << 2 | b2 >> 6 < 64,
        b2 & 63 < 64,
        (b0 >> 2) << 2 | ((b0 & 3) << 4 | b1 >> 4) >> 4 == b0,
        (((b0 & 3) << 4 | b1 >> 4) & 15) << 4 | ((b1 & 15) << 2 | b2 >> 6) >> 2 == b1,
        (((b1 & 15) << 2 | b2 >> 6) & 3) << 6 | (b2 & 63) == b2,
{
}

/// Bit identities for a one-byte tail.
proof fn lemma_tail1_bits(b0: u8)
    by (bit_vector)
    ensures
        b0 >> 2 < 64,
        (b0 & 3) << 4 < 64,
        ((b0 & 3) << 4) & 15 == 0,
        (b0 >> 2) << 2 | ((b0 & 3) << 4) >> 4 == b0,
{
}

/// Bit identities for a two-byte tail.
proof fn lemma_tail2_bits(b0: u8, b1: u8)
    by (bit_vector)
    ensures
        b0 >> 2 < 64,
        (b0 & 3) << 4 | b1 >> 4 < 64,
        (b1 & 15) << 2 < 64,
        ((b1 & 15) << 2) & 3 == 0,
        (b0 >> 2) << 2 | ((b0 & 3) << 4 | b1 >> 4) >> 4 == b0,
        (((b0 & 3) << 4 | b1 >> 4) & 15) << 4 | ((b1 & 15) << 2) >> 2 == b1,
{
}

/// Every byte of an encoding is an ASCII alphabet byte, in particular
/// never a dot.
pub proof fn lemma_b64_encode_bytes(s: Seq<u8>)
    ensures
        forall|i: int|
            0 <= i < b64_encode(s).len() ==> is_b64_byte(#[trigger] b64_encode(s)[i])
                && b64_encode(s)[i] < 128 && b64_encode(s)[i] != 46,
    decreases s.len(),
{
    if s.len() == 0 {
    } else if s.len() == 1 {
        lemma_tail1_bits(s[0]);
        lemma_b64_char_val(s[0] >> 2);
        lemma_b64_char_val((s[0] & 3) << 4);
    } else if s.len() == 2 {
        lemma_tail2_bits(s[0], s[1]);
        lemma_b64_char_val(s[0] >> 2);
        lemma_b64_char_val((s[0] & 3) << 4 | s[1] >> 4);
        lemma_b64_char_val((s[1] & 15) << 2);
    } else {
        lemma_group_bits(s[0], s[1], s[2]);
        lemma_b64_char_val(s[0] >> 2);
        lemma_b64_char_val((s[0] & 3) << 4 | s[1] >> 4);
        lemma_b64_char_val((s[1] & 15) << 2 | s[2] >> 6);
        lemma_b64_char_val(s[2] & 63);
        lemma_b64_encode_bytes(s.skip(3));
        assert forall|i: int| 0 <= i < b64_encode(s).len() implies is_b64_byte(
            #[trigger] b64_encode(s)[i],
        ) && b64_encode(s)[i] < 128 && b64_encode(s)[i] != 46 by {
            if i >= 4 {
                assert(b64_encode(s)[i] == b64_encode(s.skip(3))[i - 4]);
            }
        }
    }
}

/// Decoding inverts encoding.
pub proof fn lemma_b64_round_trip(s: Seq<u8>)
    ensures
        b64_decode(b64_encode(s)) == Some(s),
    decreases s.len(),
{
    let e = b64_encode(s);
    if s.len() == 0 {
        assert(s =~= Seq::<u8>::empty());
    } else if s.len() == 1 {
        let b0 = s[0];
        lemma_tail1_bits(b0);
        lemma_b64_char_val(b0 >> 2);
        lemma_b64_char_val((b0 & 3) << 4);
        assert(b64_decode(e) == Some(seq![b0]));
        assert(seq![b0] =~= s);
    } else if s.len() == 2 {
        let b0 = s[0];
        let b1 = s[1];
        lemma_tail2_bits(b0, b1);
        lemma_b64_char_val(b0 >> 2);
        lemma_b64_char_val((b0 & 3) << 4 | b1 >> 4);
        lemma_b64_char_val((b1 & 15) << 2);
        assert(b64_decode(e) == Some(seq![b0, b1]));
        assert(seq![b0, b1] =~= s);
    } else {
        let b0 = s[0];
        let b1 = s[1];
        let b2 = s[2];
        lemma_group_bits(b0, b1, b2);
        lemma_b64_char_val(b0 >> 2);
        lemma_b64_char_val((b0 & 3) << 4 | b1 >> 4);
        lemma_b64_char_val((b1 & 15) << 2 | b2 >> 6);
        lemma_b64_char_val(b2 & 63);
        lemma_b64_round_trip(s.skip(3));
        let rest = b64_encode(s.skip(3));
        assert(e.len() == 4 + rest.len());
        assert(e.skip(4) =~= rest);
        assert(b64_decode(e) == Some(seq![b0, b1, b2] + s.skip(3)));
        assert(seq![b0, b1, b2] + s.skip(3) =~= s);
    }
}

/// Alphabet entry, executable form.
pub fn b64_char_of(d: u8) -> (r: u8)
    requires
        d < 64,
    ensures
        r == b64_char(d),
{
    if d < 26 {
        65 + d
    } else if d < 52 {
        71 + d
    } else if d < 62 {
        d - 4
    } else if d == 62 {
        45
    } else {
        95
    }
}

/// Alphabet position, executable form.
pub fn b64_val_of(b: u8) -> (r: u8)
    ensures
        r == b64_val(b),
{
    if 65 <= b && b <= 90 {
        b - 65
    } else if 97 <= b && b <= 122 {
        b - 71
    } else if 48 <= b && b <= 57 {
        b + 4
    } else if b == 45 {
        62
    } else if b == 95 {
        63
    } else {
        255
    }
}

/// Base64url-encodes `input`.
pub fn b64u_encode(input: &Vec<u8>) -> (r: Vec<u8>)
    ensures
        r@ == b64_encode(input@),
{
    let n = input.len();
    let mut out: Vec<u8> = Vec::new();
    let mut i: usize = 0;
    proof {
        assert(input@.skip(0) =~= input@);
        assert(Seq::<u8>::empty() + b64_encode(input@) =~= b64_encode(input@));
    }
    while n - i >= 3
        invariant
            i <= n,
            n == input@.len(),
            b64_encode(input@) == out@ + b64_encode(input@.skip(i as int)),
        decreases n - i,
    {
        let b0 = input[i];
        let b1 = input[i + 1];
        let b2 = input[i + 2];
        proof {
            lemma_group_bits(b0, b1, b2);
            assert(input@.skip(i as int)[0] == b0);
            assert(input@.skip(i as int)[1] == b1);
            assert(input@.skip(i as int)[2] == b2);
            assert(input@.skip(i as int).skip(3) =~= input@.skip(i + 3));
        }
        let ghost out0 = out@;
        out.push(b64_char_of(b0 >> 2));
        out.push(b64_char_of((b0 & 3) << 4 | b1 >> 4));
        out.push(b64_char_of((b1 & 15) << 2 | b2 >> 6));
        out.push(b64_char_of(b2 & 63));
        proof {
            let g = seq![
                b64_char(b0 >> 2),
                b64_char((b0 & 3) << 4 | b1 >> 4),
                b64_char((b1 & 15) << 2 | b2 >> 6),
                b64_char(b2 & 63),
            ];
            assert(out@ =~= out0 + g);
            assert(b64_encode(input@.skip(i as int)) == g + b64_encode(input@.skip(i + 3)));
            assert(out0 + (g + b64_encode(input@.skip(i + 3))) =~= out@ + b64_encode(
                input@.skip(i + 3),
            ));
        }
        i += 3;
    }
    if n - i == 1 {
        let b0 = input[i];
        proof {
            lemma_tail1_bits(b0);
            assert(input@.skip(i as int)[0] == b0);
            assert(input@.skip(i as int).len() == 1);
        }
        let ghost out0 = out@;
        out.push(b64_char_of(b0 >> 2));
        out.push(b64_char_of((b0 & 3) << 4));
        proof {
            let g = seq![b64_char(b0 >> 2), b64_char((b0 & 3) << 4)];
            assert(out@ =~= out0 + g);
            assert(b64_encode(input@.skip(i as int)) == g);
        }
    } else if n - i == 2 {
        let b0 = input[i];
        let b1 = input[i + 1];
        proof {
            lemma_tail2_bits(b0, b1);
            assert(input@.skip(i as int)[0] == b0);
            assert(input@.skip(i as int)[1] == b1);
            assert(input@.skip(i as int).len() == 2);
        }
        let ghost out0 = out@;
        out.push(b64_char_of(b0 >> 2));
        out.push(b64_char_of((b0 & 3) << 4 | b1 >> 4));
        out.push(b64_char_of((b1 & 15) << 2));
        proof {
            let g = seq![
                b64_char(b0 >> 2),
                b64_char((b0 & 3) << 4 | b1 >> 4),
                b64_char((b1 & 15) << 2),
            ];
            assert(out@ =~= out0 + g);
            assert(b64_encode(input@.skip(i as int)) == g);
        }
    } else {
        proof {
            assert(input@.skip(i as int) =~= Seq::<u8>::empty());
            assert(out@ + Seq::<u8>::empty() =~= out@);
        }
    }
    out
}

/// Strictly base64url-decodes `input`.
pub fn b64u_decode(input: &Vec<u8>) -> (r: Option<Vec<u8>>)
    ensures
        match r {
            Some(v) => b64_decode(input@) == Some(v@),
            None => b64_decode(input@) is None,
        },
{
    let n = input.len();
    let mut out: Vec<u8> = Vec::new();
    let mut i: usize = 0;
    proof {
        assert(input@.skip(0) =~= input@);
        match b64_decode(input@) {
            Some(rest) => {
                assert(Seq::<u8>::empty() + rest =~= rest);
            },
            None => {},
        }
    }
    while n - i >= 4
        invariant
            i <= n,
            n == input@.len(),
            b64_decode(input@) == (match b64_decode(input@.skip(i as int)) {
                Some(rest) => Some(out@ + rest),
                None => None::<Seq<u8>>,
            }),
        decreases n - i,
    {
        let v0 = b64_val_of(input[i]);
        let v1 = b64_val_of(input[i + 1]);
        let v2 = b64_val_of(input[i + 2]);
        let v3 = b64_val_of(input[i + 3]);
        proof {
            assert(input@.skip(i as int)[0] == input@[i as int]);
            assert(input@.skip(i as int)[1] == input@[i + 1]);
            assert(input@.skip(i as int)[2] == input@[i + 2]);
            assert(input@.skip(i as int)[3] == input@[i + 3]);
            assert(input@.skip(i as int).skip(4) =~= input@.skip(i + 4));
        }
        if v0 == 255 || v1 == 255 || v2 == 255 || v3 == 255 {
            proof {
                assert(b64_decode(input@.skip(i as int)) is None);
            }
            return None;
        }
        let ghost out0 = out@;
        out.push(v0 << 2 | v1 >> 4);
        out.push((v1 & 15) << 4 | v2 >> 2);
        out.push((v2 & 3) << 6 | v3);
        proof {
            let bs = seq![v0 << 2 | v1 >> 4, (v1 & 15) << 4 | v2 >> 2, (v2 & 3) << 6 | v3];
            assert(out@ =~= out0 + bs);
            match b64_decode(input@.skip(i + 4)) {
                Some(rest) => {
                    assert(b64_decode(input@.skip(i as int)) == Some(bs + rest));
                    assert(out0 + (bs + rest) =~= out@ + rest);
                },
                None => {
                    assert(b64_decode(input@.skip(i as int)) is None);
                },
            }
        }
        i += 4;
    }
    let rem = n - i;
    if rem == 0 {
        proof {
            assert(input@.skip(i as int) =~= Seq::<u8>::empty());
            assert(out@ + Seq::<u8>::empty() =~= out@);
        }
        Some(out)
    } else if rem == 1 {
        None
    } else if rem == 2 {
        let v0 = b64_val_of(input[i]);
        let v1 = b64_val_of(input[i + 1]);
        proof {
            assert(input@.skip(i as int)[0] == input@[i as int]);
            assert(input@.skip(i as int)[1] == input@[i + 1]);
            assert(input@.skip(i as int).len() == 2);
        }
        if v0 == 255 || v1 == 255 || v1 & 15 != 0 {
            return None;
        }
        let ghost out0 = out@;
        out.push(v0 << 2 | v1 >> 4);
        proof {
            assert(b64_decode(input@.skip(i as int)) == Some(seq![(v0 << 2 | v1 >> 4) as u8]));
            assert(out@ =~= out0 + seq![(v0 << 2 | v1 >> 4) as u8]);
        }
        Some(out)
    } else {
        let v0 = b64_val_of(input[i]);
        let v1 = b64_val_of(input[i + 1]);
        let v2 = b64_val_of(input[i + 2]);
        proof {
            assert(input@.skip(i as int)[0] == input@[i as int]);
            assert(input@.skip(i as int)[1] == input@[i + 1]);
            assert(input@.skip(i as int)[2] == input@[i + 2]);
            assert(input@.skip(i as int).len() == 3);
        }
        if v0 == 255 || v1 == 255 || v2 == 255 || v2 & 3 != 0 {
            return None;
        }
        let ghost out0 = out@;
        out.push(v0 << 2 | v1 >> 4);
        out.push((v1 & 15) << 4 | v2 >> 2);
        proof {
            assert(b64_decode(input@.skip(i as int)) == Some(
                seq![(v0 << 2 | v1 >> 4) as u8, ((v1 & 15) << 4 | v2 >> 2) as u8],
            ));
            assert(out@ =~= out0 + seq![
                (v0 << 2 | v1 >> 4) as u8,
                ((v1 & 15) << 4 | v2 >> 2) as u8,
            ]);
        }
        Some(out)
    }
}

} // verus!
