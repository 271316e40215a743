use vstd::prelude::*;

use crate::game::Digest;

verus! {

/// The exact byte length of a proof as the verification oracle expects it.
/// A protocol constant of the proof system, not a tunable.
pub const PROOF_LENGTH: usize = 14592;

/// What reaches the oracle: blobs longer than [`PROOF_LENGTH`] arrive with a
/// leading prefix of foreign origin, so only the trailing [`PROOF_LENGTH`]
/// bytes are kept (bytes are dropped from the front, never the back); any
/// other blob passes through unchanged.
pub open spec fn normalized_proof(p: Seq<u8>) -> Seq<u8> {
    if p.len() > PROOF_LENGTH {
        p.subrange(p.len() - PROOF_LENGTH, p.len() as int)
    } else {
        p
    }
}

/// Trim a proof blob as [`normalized_proof`] describes.
pub fn normalize_proof(proof: Vec<u8>) -> (r: Vec<u8>)
    ensures
        r@ == normalized_proof(proof@),
{
    if proof.len() > PROOF_LENGTH {
        let start: usize = proof.len() - PROOF_LENGTH;
        let mut out: Vec<u8> = Vec::new();
        let mut i: usize = start;
        while i < proof.len()
            invariant
                start <= i <= proof.len(),
                start == proof.len() - PROOF_LENGTH,
                out@ == proof@.subrange(start as int, i as int),
            decreases proof.len() - i,
        {
            out.push(proof[i]);
            i = i + 1;
            proof {
                assert(out@ =~= proof@.subrange(start as int, i as int));
            }
        }
        out
    } else {
        proof
    }
}

/// Port to the proof-verification oracle.
///
/// `verify` receives the configured verification key, the normalized proof
/// bytes and, as the public inputs, the stored commitment digest of the
/// round being revealed **and** the revealed move itself. Binding the move
/// into the public inputs is deliberate: a proof attesting only knowledge
/// of some opening of the commitment would let a player commit to one move
/// and reveal the other, so an acceptable proof must attest that this
/// commitment opens to this move. The verdict is exactly `accepts` on
/// those arguments, so a caller's contract can tie its outcome to the
/// oracle's answer; `false` always leaves the session untouched, so no
/// implementation can corrupt state.
pub trait ProofVerifier {
    /// Which `(key, proof, commitment, move)` quadruples this oracle
    /// accepts.
    spec fn accepts(&self, vk: Seq<u8>, proof: Seq<u8>, commitment: Digest, move_val: u32) -> bool;

    /// Whether the oracle accepts `proof` against `vk` with public inputs
    /// `commitment` and `move_val`.
    fn verify(&self, vk: &Vec<u8>, proof: &Vec<u8>, commitment: &Digest, move_val: u32) -> (r:
        bool)
        ensures
            r == self.accepts(vk@, proof@, *commitment, move_val),
    ;
}

/// A deterministic test double for the oracle: accepts or rejects every
/// proof according to its configuration, which lets the whole state machine
/// be exercised without real cryptography.
#[derive(Copy, Clone, Debug)]
pub struct FixedOutcomeVerifier {
    pub outcome: bool,
}

impl ProofVerifier for FixedOutcomeVerifier {
    open spec fn accepts(&self, vk: Seq<u8>, proof: Seq<u8>, commitment: Digest, move_val: u32) -> bool {
        self.outcome
    }

    fn verify(&self, vk: &Vec<u8>, proof: &Vec<u8>, commitment: &Digest, move_val: u32) -> (r:
        bool) {
        self.outcome
    }
}

/// A test double that accepts exactly when the revealed move matches the
/// one it was configured with: the smallest oracle that exercises the
/// binding of the move into the public inputs.
#[derive(Copy, Clone, Debug)]
pub struct MoveBoundVerifier {
    pub bound_move: u32,
}

impl ProofVerifier for MoveBoundVerifier {
    open spec fn accepts(&self, vk: Seq<u8>, proof: Seq<u8>, commitment: Digest, move_val: u32) -> bool {
        move_val == self.bound_move
    }

    fn verify(&self, vk: &Vec<u8>, proof: &Vec<u8>, commitment: &Digest, move_val: u32) -> (r:
        bool) {
        move_val == self.bound_move
    }
}

} // verus!
