//! Signed bearer tokens: three dot-separated base64url segments — header,
//! claims payload, HMAC-SHA256 signature. The segment layout, the payload
//! codec and the expiry rule are verified; only the MAC itself is trusted
//! to the outside crate.

use crate::base64url::{
    b64_decode, b64_encode, b64u_decode, b64u_encode, lemma_b64_encode_bytes, lemma_b64_round_trip,
};
use crate::claims::{
    claims_json, claims_json_of, claims_wf, lemma_claims_round_trip, parse_claims,
    parse_claims_bytes, Claims,
};
use crate::text::{
    ascii_bytes_of_str, bytes_ascii, bytes_of_chars, chars_of_bytes, lemma_bytes_chars_round_trip,
    lemma_chars_bytes_round_trip, push_bytes, range_eq, string_of_ascii_bytes, sub_vec,
};
use vstd::prelude::*;
use vstd::utf8::is_ascii_chars;

verus! {

/// How token handling fails: creation trouble, a malformed or forged
/// token, or a genuine token past its expiry.
#[derive(Clone, Copy, Debug, PartialEq, Eq, Structural)]
pub enum JwtError {
    /// Failed to create token.
    TokenCreationFailed,
    /// Invalid token: malformed, tampered with, or signed with another key.
    InvalidToken,
    /// Token has expired.
    TokenExpired,
}

/// The HMAC-SHA256 tag over `msg` keyed by the UTF-8 bytes of `key`: a
/// fixed function of key and message, computed only by the outside crate.
pub uninterp spec fn hmac_tag(key: Seq<char>, msg: Seq<u8>) -> Seq<u8>;

/// `{"typ":"JWT","alg":"HS256"}`
pub open spec fn header_json() -> Seq<u8> {
    seq![
        123u8, 34u8, 116u8, 121u8, 112u8, 34u8, 58u8, 34u8, 74u8, 87u8, 84u8, 34u8, 44u8, 34u8,
        97u8, 108u8, 103u8, 34u8, 58u8, 34u8, 72u8, 83u8, 50u8, 53u8, 54u8, 34u8, 125u8,
    ]
}

/// The signed part of a token: encoded header, dot, encoded claims.
pub open spec fn token_msg(c: Claims) -> Seq<u8> {
    b64_encode(header_json()) + seq![46u8] + b64_encode(claims_json(c))
}

/// The full token bytes: signed part, dot, encoded signature.
pub open spec fn token_bytes(c: Claims, key: Seq<char>) -> Seq<u8> {
    token_msg(c) + seq![46u8] + b64_encode(hmac_tag(key, token_msg(c)))
}

/// The full token, as the characters of its ASCII bytes.
pub open spec fn spec_token(c: Claims, key: Seq<char>) -> Seq<char> {
    chars_of_bytes(token_bytes(c, key))
}

/// First index of `b` in `s` at or after `from`; `-1` when absent.
pub open spec fn find_byte(s: Seq<u8>, b: u8, from: int) -> int
    decreases s.len() - from when 0 <= from <= s.len()
{
    if from >= s.len() {
        -1
    } else if s[from] == b {
        from
    } else {
        find_byte(s, b, from + 1)
    }
}

/// What token verification yields on the bytes of an ASCII token.
pub open spec fn spec_verify_bytes(b: Seq<u8>, key: Seq<char>, now: i64) -> Result<
    Claims,
    JwtError,
> {
    let i = find_byte(b, 46, 0);
    if i < 0 {
        Err(JwtError::InvalidToken)
    } else {
        let j = find_byte(b, 46, i + 1);
        if j < 0 {
            Err(JwtError::InvalidToken)
        } else if b.subrange(0, i) != b64_encode(header_json()) {
            Err(JwtError::InvalidToken)
        } else if b64_decode(b.subrange(j + 1, b.len() as int)) != Some(
            hmac_tag(key, b.subrange(0, j)),
        ) {
            Err(JwtError::InvalidToken)
        } else {
            match b64_decode(b.subrange(i + 1, j)) {
                None => Err(JwtError::InvalidToken),
                Some(pj) => match parse_claims(pj) {
                    None => Err(JwtError::InvalidToken),
                    Some(c) => if now >= c.exp {
                        Err(JwtError::TokenExpired)
                    } else {
                        Ok(c)
                    },
                },
            }
        }
    }
}

/// What token verification yields on any token text at time `now`: the
/// claims exactly when the token is three well-formed segments, the header
/// is ours, the signature is the keyed MAC of the first two segments, and
/// the expiry lies after `now`.
pub open spec fn spec_verify_token(t: Seq<char>, key: Seq<char>, now: i64) -> Result<
    Claims,
    JwtError,
> {
    if !is_ascii_chars(t) {
        Err(JwtError::InvalidToken)
    } else {
        spec_verify_bytes(bytes_of_chars(t), key, now)
    }
}

/// Relies on `jsonwebtoken::crypto::sign` with HS256 and a secret key:
/// returns the base64url (no padding) encoding of the HMAC-SHA256 tag of
/// the message under the key. Signing cannot fail on this path: a secret
/// key always carries the HMAC family, and HMAC-SHA256 accepts keys of
/// any length and signs infallibly.
#[verifier::external_body]
fn sign_hs256(secret: &str, msg: &Vec<u8>) -> (r: Option<Vec<u8>>)
    ensures
        r is Some,
        r matches Some(v) ==> v@ == b64_encode(hmac_tag(secret@, msg@)),
{
    let key = jsonwebtoken::EncodingKey::from_secret(secret.as_bytes());
    match jsonwebtoken::crypto::sign(msg.as_slice(), &key, jsonwebtoken::Algorithm::HS256) {
        Ok(s) => Some(s.into_bytes()),
        Err(_) => None,
    }
}

/// Relies on `jsonwebtoken::crypto::verify` with HS256 and a secret key:
/// true exactly when the signature text strictly base64url-decodes to the
/// HMAC-SHA256 tag of the message under the key; the comparison is
/// constant time.
#[verifier::external_body]
fn verify_hs256(sig: &Vec<u8>, msg: &Vec<u8>, secret: &str) -> (r: bool)
    requires
        bytes_ascii(sig@),
    ensures
        r == (b64_decode(sig@) == Some(hmac_tag(secret@, msg@))),
{
    let s = match std::str::from_utf8(sig.as_slice()) {
        Ok(s) => s,
        Err(_) => {
            return false;
        },
    };
    let key = jsonwebtoken::DecodingKey::from_secret(secret.as_bytes());
    match jsonwebtoken::crypto::verify(s, msg.as_slice(), &key, jsonwebtoken::Algorithm::HS256) {
        Ok(b) => b,
        Err(_) => false,
    }
}

/// `{"typ":"JWT","alg":"HS256"}` as bytes.
fn header_json_vec() -> (r: Vec<u8>)
    ensures
        r@ == header_json(),
{
    let mut out: Vec<u8> = Vec::new();
    out.push(123);
    out.push(34);
    out.push(116);
    out.push(121);
    out.push(112);
    out.push(34);
    out.push(58);
    out.push(34);
    out.push(74);
    out.push(87);
    out.push(84);
    out.push(34);
    out.push(44);
    out.push(34);
    out.push(97);
    out.push(108);
    out.push(103);
    out.push(34);
    out.push(58);
    out.push(34);
    out.push(72);
    out.push(83);
    out.push(50);
    out.push(53);
    out.push(54);
    out.push(34);
    out.push(125);
    assert(out@ =~= header_json());
    out
}

/// Create a new signed token for `user_id`, valid from `now` for
/// `expiration_hours` hours.
pub fn create_token(user_id: u128, secret: &str, expiration_hours: i64, now: i64) -> (r: Result<
    String,
    JwtError,
>)
    requires
        0 <= now,
        1 <= expiration_hours,
        now + expiration_hours * 3600 <= i64::MAX,
    ensures
        r is Ok,
        (match r {
            Ok(t) => t@ == spec_token(
                Claims { sub: user_id, iat: now, exp: (now + expiration_hours * 3600) as i64 },
                secret@,
            ),
            Err(e) => e == JwtError::TokenCreationFailed,
        }),
{
    let ttl = expiration_hours * 3600;
    let c = Claims { sub: user_id, iat: now, exp: now + ttl };
    let hj = header_json_vec();
    let mut msg = b64u_encode(&hj);
    msg.push(46);
    let pj = claims_json_of(&c);
    let pb = b64u_encode(&pj);
    push_bytes(&mut msg, &pb);
    assert(msg@ =~= token_msg(c));
    let sig = match sign_hs256(secret, &msg) {
        Some(s) => s,
        None => {
            return Err(JwtError::TokenCreationFailed);
        },
    };
    let mut t = msg;
    t.push(46);
    push_bytes(&mut t, &sig);
    assert(t@ =~= token_bytes(c, secret@));
    proof {
        lemma_token_bytes_ascii(c, secret@);
    }
    Ok(string_of_ascii_bytes(t))
}

/// Verify a token at time `now`: signature first, then expiry.
pub fn verify_token(token: &str, secret: &str, now: i64) -> (r: Result<Claims, JwtError>)
    ensures
        r == spec_verify_token(token@, secret@, now),
{
    let bv = match ascii_bytes_of_str(token) {
        Some(x) => x,
        None => {
            return Err(JwtError::InvalidToken);
        },
    };
    proof {
        lemma_chars_bytes_round_trip(token@);
    }
    let n = bv.len();
    let i = match find_byte_of(&bv, 46, 0) {
        Some(k) => k,
        None => {
            return Err(JwtError::InvalidToken);
        },
    };
    let j = match find_byte_of(&bv, 46, i + 1) {
        Some(k) => k,
        None => {
            return Err(JwtError::InvalidToken);
        },
    };
    let hj = header_json_vec();
    let hb = b64u_encode(&hj);
    if i != hb.len() {
        assert(bv@.subrange(0, i as int).len() != b64_encode(header_json()).len());
        return Err(JwtError::InvalidToken);
    }
    if !range_eq(&bv, 0, &hb) {
        return Err(JwtError::InvalidToken);
    }
    let msg = sub_vec(&bv, 0, j);
    let sig = sub_vec(&bv, j + 1, n);
    if !verify_hs256(&sig, &msg, secret) {
        return Err(JwtError::InvalidToken);
    }
    let payload = sub_vec(&bv, i + 1, j);
    let pj = match b64u_decode(&payload) {
        Some(x) => x,
        None => {
            return Err(JwtError::InvalidToken);
        },
    };
    let c = match parse_claims_bytes(&pj) {
        Some(x) => x,
        None => {
            return Err(JwtError::InvalidToken);
        },
    };
    if now >= c.exp {
        return Err(JwtError::TokenExpired);
    }
    Ok(c)
}

/// First occurrence of `b` in `v` at or after `from`.
fn find_byte_of(v: &Vec<u8>, b: u8, from: usize) -> (r: Option<usize>)
    requires
        from <= v@.len(),
    ensures
        match r {
            Some(k) => find_byte(v@, b, from as int) == k && from <= k < v@.len() && v@[k as int]
                == b,
            None => find_byte(v@, b, from as int) == -1,
        },
{
    let n = v.len();
    let mut i: usize = from;
    while i < n && v[i] != b
        invariant
            from <= i <= n,
            n == v@.len(),
            find_byte(v@, b, from as int) == find_byte(v@, b, i as int),
        decreases n - i,
    {
        i += 1;
    }
    if i < n {
        Some(i)
    } else {
        None
    }
}

/// Every byte of a token we assemble is ASCII.
pub proof fn lemma_token_bytes_ascii(c: Claims, key: Seq<char>)
    requires
        claims_wf(c),
    ensures
        bytes_ascii(token_bytes(c, key)),
{
    let tb = token_bytes(c, key);
    let hb = b64_encode(header_json());
    let pb = b64_encode(claims_json(c));
    let sg = b64_encode(hmac_tag(key, token_msg(c)));
    lemma_b64_encode_bytes(header_json());
    lemma_b64_encode_bytes(claims_json(c));
    lemma_b64_encode_bytes(hmac_tag(key, token_msg(c)));
    assert forall|k: int| 0 <= k < tb.len() implies tb[k] < 128 by {
        let hl = hb.len() as int;
        let pl = pb.len() as int;
        if k < hl {
            assert(tb[k] == hb[k]);
        } else if k == hl {
            assert(tb[k] == 46);
        } else if k < hl + 1 + pl {
            assert(tb[k] == pb[k - hl - 1]);
        } else if k == hl + 1 + pl {
            assert(tb[k] == 46);
        } else {
            assert(tb[k] == sg[k - (hl + 1 + pl) - 1]);
        }
    }
}

/// Where the first byte `b` provably sits, `find_byte` finds it.
proof fn lemma_find_byte_exact(s: Seq<u8>, b: u8, from: int, k: int)
    requires
        0 <= from <= k < s.len(),
        s[k] == b,
        forall|m: int| from <= m < k ==> s[m] != b,
    ensures
        find_byte(s, b, from) == k,
    decreases k - from,
{
    if from < k {
        lemma_find_byte_exact(s, b, from + 1, k);
    }
}

/// The round trip at the heart of the codec: a token assembled for claims
/// `c` under `key` verifies under the same key to exactly `c` while `now`
/// lies before the expiry, and fails with `TokenExpired` — never with
/// `InvalidToken` — from the expiry on.
pub proof fn lemma_token_round_trip(c: Claims, key: Seq<char>, now: i64)
    requires
        claims_wf(c),
    ensures
        spec_verify_token(spec_token(c, key), key, now) == (if now >= c.exp {
            Err::<Claims, JwtError>(JwtError::TokenExpired)
        } else {
            Ok::<Claims, JwtError>(c)
        }),
{
    let tb = token_bytes(c, key);
    let hb = b64_encode(header_json());
    let pb = b64_encode(claims_json(c));
    let tag = hmac_tag(key, token_msg(c));
    let sg = b64_encode(tag);
    let hl = hb.len() as int;
    let pl = pb.len() as int;
    lemma_b64_encode_bytes(header_json());
    lemma_b64_encode_bytes(claims_json(c));
    lemma_b64_encode_bytes(tag);
    lemma_token_bytes_ascii(c, key);
    lemma_bytes_chars_round_trip(tb);

    // The two separating dots are the first two dots.
    let i = hl;
    let j = hl + 1 + pl;
    assert(tb[i] == 46);
    assert forall|m: int| 0 <= m < i implies tb[m] != 46 by {
        assert(tb[m] == hb[m]);
    }
    lemma_find_byte_exact(tb, 46, 0, i);
    assert(tb[j] == 46);
    assert forall|m: int| i + 1 <= m < j implies tb[m] != 46 by {
        assert(tb[m] == pb[m - i - 1]);
    }
    lemma_find_byte_exact(tb, 46, i + 1, j);

    // The segments are exactly the three encodings.
    assert(tb.subrange(0, i) =~= hb);
    assert(tb.subrange(i + 1, j) =~= pb);
    assert(tb.subrange(j + 1, tb.len() as int) =~= sg);
    assert(tb.subrange(0, j) =~= token_msg(c));
    lemma_b64_round_trip(tag);
    lemma_b64_round_trip(claims_json(c));
    lemma_claims_round_trip(c);
}

} // verus!
