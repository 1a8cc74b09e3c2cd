//! The credential side of sign-in: comparing a recomputed password hash
//! against the stored one, and issuing a time-bounded claim.
//!
//! Hashing itself and signing the claim are outside work; the callers hand
//! in the recomputed hash and receive the claim to sign.

use crate::models::opt_bytes;
use crate::repo::bytes_equal;
use vstd::prelude::*;

verus! {

/// Whether a stored credential matches a recomputed hash: the row must
/// hold a password and its bytes must equal the recomputed ones.
pub open spec fn password_matches(stored: Option<Seq<u8>>, supplied: Seq<u8>) -> bool {
    stored == Some(supplied)
}

/// Compare the stored credential against the recomputed hash of the
/// supplied password.
pub fn verify_password(stored: &Option<Vec<u8>>, supplied_hash: &[u8]) -> (r: bool)
    ensures
        r == password_matches(opt_bytes(*stored), supplied_hash@),
{
    match stored {
        Some(h) => bytes_equal(h.as_slice(), supplied_hash),
        None => false,
    }
}

/// An authentication claim: the subject it was issued to and the moment,
/// in seconds since the Unix epoch, at which it expires. It is signed by
/// the caller and never persisted.
#[derive(Debug)]
pub struct Claim {
    pub subject: Vec<u8>,
    pub expires_at: i64,
}

impl Claim {
    /// Issue a claim for a subject: it expires exactly the lifetime after
    /// issuance, so strictly after the moment it was issued.
    pub fn issue(subject: Vec<u8>, issued_at: i64, lifetime_seconds: i64) -> (c: Claim)
        requires
            lifetime_seconds > 0,
            issued_at + lifetime_seconds <= i64::MAX,
        ensures
            c.subject@ == subject@,
            c.expires_at == issued_at + lifetime_seconds,
            c.expires_at > issued_at,
    {
        Claim { subject, expires_at: issued_at + lifetime_seconds }
    }
}

} // verus!
