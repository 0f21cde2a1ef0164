//! Proof keys for a code exchange.
//!
//! A sign-in sends the challenge first and the verifier with the exchange, so
//! that a code is of use only to whoever began the sign-in.
use vstd::prelude::*;

use crate::outside::{base64_url, fresh_uuid, sha256};
use crate::text::text2;

verus! {

/// The fewest characters a verifier may have.
pub const VERIFIER_MIN: usize = 43;

/// The most characters a verifier may have.
pub const VERIFIER_MAX: usize = 128;

/// The challenge of a verifier: the URL-safe base64 form of its SHA-256.
pub open spec fn challenge(verifier: Seq<char>) -> Seq<char> {
    crate::outside::base64_url_of(
        crate::outside::sha256_of(vstd::utf8::encode_utf8(verifier)),
    )
}

/// Whether a text may stand in a URL as it is: it holds letters, digits, hyphens
/// and underscores alone.
pub open spec fn unreserved(s: Seq<char>) -> bool {
    forall|i: int| 0 <= i < s.len() ==> crate::outside::url_safe(#[trigger] s[i])
}

/// The challenge of a verifier.
#[must_use]
pub fn challenge_of(verifier: &str) -> (r: String)
    ensures
        r@ == challenge(verifier@),
        unreserved(r@),
{
    let bytes = verifier.as_bytes();
    let digest = sha256(bytes);
    base64_url(digest.as_slice())
}

/// The pair that two fresh identifiers come to.
pub fn pkce_from(first: &str, second: &str) -> (r: (String, String))
    ensures
        r.0@ == first@ + second@,
        r.1@ == challenge(first@ + second@),
{
    let verifier = text2(first, second);
    let challenge = challenge_of(verifier.as_str());
    (verifier, challenge)
}

/// A fresh verifier and its challenge.
///
/// The verifier is random: it is made of two random identifiers, which give it
/// the length that a verifier must have.
#[must_use]
pub fn generate_pkce() -> (r: (String, String))
    ensures
        VERIFIER_MIN <= r.0@.len() <= VERIFIER_MAX,
        unreserved(r.0@),
        r.1@ == challenge(r.0@),
{
    let first = fresh_uuid();
    let second = fresh_uuid();
    pkce_from(first.as_str(), second.as_str())
}

} // verus!
