use vstd::prelude::*;

verus! {

/// Every failure a contract operation can surface to its caller.
///
/// Protocol errors (`AlreadyCommitted`, `AlreadyRevealed`, `CommitmentMissing`,
/// `GameAlreadyEnded`, `InvalidMove`) and `VerificationFailed` leave the
/// session state unchanged, so the caller may retry with corrected input.
#[derive(Copy, Clone, Debug, PartialEq, Eq, PartialOrd, Ord)]
pub enum Error {
    /// No session is stored under the given identifier.
    GameNotFound,
    /// The caller is not one of the two declared players of the session.
    NotPlayer,
    /// The caller already holds a commitment for the current round.
    AlreadyCommitted,
    /// The caller has no commitment for the current round, so there is
    /// nothing a reveal could be checked against.
    CommitmentMissing,
    /// The session is complete; no further mutation is permitted.
    GameAlreadyEnded,
    /// The revealed move is not one of the two legal symbols.
    InvalidMove,
    /// The verification oracle rejected the proof.
    VerificationFailed,
    /// No verification key is configured.
    VkNotSet,
    /// The caller already revealed a move for the current round.
    AlreadyRevealed,
    /// The caller is not the configured admin.
    NotAdmin,
    /// A session cannot pair a player against themselves.
    SamePlayer,
}

} // verus!
