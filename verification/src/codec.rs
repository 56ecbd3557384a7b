//! The commitment codec: a one-way binding of a choice and a secret.
//!
//! A commitment is the SHA-256 digest of the choice's bytes followed by the
//! secret's bytes, so a committed value reveals nothing about the choice, and
//! a later `(choice, secret)` disclosure can be checked against it.

use vstd::prelude::*;

verus! {

/// The digest that committing `choice` with `secret` produces. SHA-256 is a
/// fixed function of its input, so the digest depends on the two strings
/// alone.
pub uninterp spec fn commit_digest(choice: Seq<char>, secret: Seq<char>) -> Seq<u8>;

/// Whether `commitment` is exactly what committing `choice` with `secret`
/// produces.
pub open spec fn commitment_matches(commitment: Seq<u8>, choice: Seq<char>, secret: Seq<char>) -> bool {
    commitment == commit_digest(choice, secret)
}

/// Relies on `near_sdk::env::sha256`: the 32-byte SHA-256 digest of the given
/// bytes, a deterministic function of those bytes alone (computed by the host
/// on chain and by the `sha2` crate off chain).
#[verifier::external_body]
pub(crate) fn sha256_commit(choice: &str, secret: &str) -> (r: Vec<u8>)
    ensures
        r@ == commit_digest(choice@, secret@),
        r@.len() == 32,
{
    let mut message = String::with_capacity(choice.len() + secret.len());
    message.push_str(choice);
    message.push_str(secret);
    near_sdk::env::sha256(message.as_bytes())
}

/// Recomputes the commitment of `(choice, secret)` and compares it with
/// `commitment`, byte for byte.
pub fn check_commitment(commitment: &Vec<u8>, choice: &String, secret: &String) -> (r: bool)
    ensures
        r == commitment_matches(commitment@, choice@, secret@),
{
    let fresh = sha256_commit(choice.as_str(), secret.as_str());
    if commitment.len() != fresh.len() {
        assert(commitment@ != fresh@);
        return false;
    }
    let n = commitment.len();
    let mut i: usize = 0;
    while i < n
        invariant
            i <= n,
            n == commitment@.len(),
            n == fresh@.len(),
            fresh@ == commit_digest(choice@, secret@),
            forall|j: int| 0 <= j < i ==> commitment@[j] == fresh@[j],
        decreases n - i,
    {
        if commitment[i] != fresh[i] {
            assert(commitment@ != fresh@);
            return false;
        }
        i = i + 1;
    }
    assert(commitment@ =~= fresh@);
    true
}

/// Round trip: verifying a commitment against the very pair that produced it
/// always succeeds.
pub proof fn lemma_commit_verify_round_trip(choice: Seq<char>, secret: Seq<char>)
    ensures
        commitment_matches(commit_digest(choice, secret), choice, secret),
{
}

} // verus!
