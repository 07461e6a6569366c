//! The request-authentication gate: from the raw `Authorization` header
//! value (or its absence) and the current time to either the verified
//! subject identity or a rejection. Pure; no I/O. The specific token
//! error is not leaked: signature and expiry failures collapse into one
//! rejection reason.

use crate::claims::Claims;
use crate::jwt::{lemma_token_round_trip, spec_token, spec_verify_token, verify_token};
use vstd::prelude::*;
use vstd::string::StrSliceExecFns;

verus! {

/// Why a request was turned away.
#[derive(Clone, Copy, Debug, PartialEq, Eq, Structural)]
pub enum GateRejection {
    /// No `Authorization` header was presented.
    MissingHeader,
    /// The header does not carry the literal `Bearer ` scheme prefix.
    MalformedHeader,
    /// The bearer token is invalid or expired; which of the two is
    /// deliberately not revealed.
    InvalidOrExpiredToken,
}

/// The terminal authentication state for one request.
#[derive(Clone, Copy, Debug, PartialEq, Eq, Structural)]
pub enum GateOutcome {
    /// The verified subject identity, for downstream handlers.
    Authenticated(u128),
    Rejected(GateRejection),
}

/// `Bearer ` — the scheme prefix, case-sensitive, single space.
pub open spec fn bearer_prefix() -> Seq<char> {
    seq!['B', 'e', 'a', 'r', 'e', 'r', ' ']
}

pub open spec fn bearer_prefixed(h: Seq<char>) -> bool {
    h.len() >= 7 && h.subrange(0, 7) == bearer_prefix()
}

/// The transition rule on the header value.
pub open spec fn spec_authenticate(header: Option<Seq<char>>, key: Seq<char>, now: i64) -> GateOutcome {
    match header {
        None => GateOutcome::Rejected(GateRejection::MissingHeader),
        Some(h) => if !bearer_prefixed(h) {
            GateOutcome::Rejected(GateRejection::MalformedHeader)
        } else {
            match spec_verify_token(h.skip(7), key, now) {
                Ok(c) => GateOutcome::Authenticated(c.sub),
                Err(_) => GateOutcome::Rejected(GateRejection::InvalidOrExpiredToken),
            }
        },
    }
}

/// The view of an optional header.
pub open spec fn header_view(header: Option<&str>) -> Option<Seq<char>> {
    match header {
        Some(h) => Some(h@),
        None => None,
    }
}

/// Authenticate a request from its `Authorization` header at time `now`.
pub fn authenticate(header: Option<&str>, secret: &str, now: i64) -> (r: GateOutcome)
    ensures
        r == spec_authenticate(header_view(header), secret@, now),
{
    match header {
        None => GateOutcome::Rejected(GateRejection::MissingHeader),
        Some(h) => {
            let hl = h.unicode_len();
            if hl < 7 {
                return GateOutcome::Rejected(GateRejection::MalformedHeader);
            }
            if h.get_char(0) != 'B' || h.get_char(1) != 'e' || h.get_char(2) != 'a' || h.get_char(
                3,
            ) != 'r' || h.get_char(4) != 'e' || h.get_char(5) != 'r' || h.get_char(6) != ' ' {
                proof {
                    if bearer_prefixed(h@) {
                        assert(h@[0] == h@.subrange(0, 7)[0]);
                        assert(h@[1] == h@.subrange(0, 7)[1]);
                        assert(h@[2] == h@.subrange(0, 7)[2]);
                        assert(h@[3] == h@.subrange(0, 7)[3]);
                        assert(h@[4] == h@.subrange(0, 7)[4]);
                        assert(h@[5] == h@.subrange(0, 7)[5]);
                        assert(h@[6] == h@.subrange(0, 7)[6]);
                    }
                }
                return GateOutcome::Rejected(GateRejection::MalformedHeader);
            }
            proof {
                assert(h@.subrange(0, 7) =~= bearer_prefix());
            }
            let token = h.substring_char(7, hl);
            proof {
                assert(token@ =~= h@.skip(7));
            }
            match verify_token(token, secret, now) {
                Ok(c) => GateOutcome::Authenticated(c.sub),
                Err(_) => GateOutcome::Rejected(GateRejection::InvalidOrExpiredToken),
            }
        },
    }
}

/// A freshly issued token is accepted and exposes exactly its subject
/// downstream; the same token past its expiry is rejected.
pub proof fn lemma_gate_on_issued_token(c: Claims, key: Seq<char>, now: i64)
    requires
        crate::claims::claims_wf(c),
    ensures
        spec_authenticate(Some(bearer_prefix() + spec_token(c, key)), key, now) == (if now
            >= c.exp {
            GateOutcome::Rejected(GateRejection::InvalidOrExpiredToken)
        } else {
            GateOutcome::Authenticated(c.sub)
        }),
{
    let h = bearer_prefix() + spec_token(c, key);
    assert(h.subrange(0, 7) =~= bearer_prefix());
    assert(h.skip(7) =~= spec_token(c, key));
    lemma_token_round_trip(c, key, now);
}

} // verus!
