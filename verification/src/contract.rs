use vstd::prelude::*;

use std::collections::HashMap;

use crate::errors::Error;
use crate::game::{
    is_valid_move, new_game, snapshot_game, AccountId, Digest, Game, GameView, TOTAL_ROUNDS,
};
use crate::scoring::{lemma_payoff_bounds, score};
use crate::settlement::{payout_of, settle, treasury_remainder, Settlement, TOTAL_POOL};
use crate::verification::{normalize_proof, normalized_proof, ProofVerifier};
use vstd::pervasive::VecAdditionalExecFns;

verus! {

broadcast use vstd::std_specs::hash::group_hash_axioms;

/// The core game service: the read-mostly configuration injected at
/// construction, and the session records keyed by session identifier.
///
/// External effects — collecting entry fees, paying out, talking to the
/// registry — are the embedding host's to perform through the ports; every
/// method here is a pure state transition over this value, so a host that
/// discards the post-state when an external call fails gets the all-or-
/// nothing semantics the protocol asks for.
pub struct ZkGameTheoryContract {
    /// The sole identity allowed to rotate the verification key or approve
    /// an upgrade.
    pub admin: AccountId,
    /// The external match registry.
    pub game_hub: AccountId,
    /// The payment token the entry fees and payouts move in.
    pub native_token: AccountId,
    /// Receiver of the pool remainder at settlement.
    pub treasury: AccountId,
    /// The verification key the oracle checks proofs against, once
    /// configured.
    pub verification_key: Option<Vec<u8>>,
    /// All live sessions.
    pub games: HashMap<u32, Game>,
}

/// The two states agree on every configuration field.
pub open spec fn same_config(pre: ZkGameTheoryContract, post: ZkGameTheoryContract) -> bool {
    &&& post.admin == pre.admin
    &&& post.game_hub == pre.game_hub
    &&& post.native_token == pre.native_token
    &&& post.treasury == pre.treasury
    &&& post.verification_key == pre.verification_key
}

impl ZkGameTheoryContract {
    /// Every stored session is well-formed.
    pub open spec fn wf(self) -> bool {
        forall|k: u32| #[trigger] self.games@.contains_key(k) ==> self.games@[k]@.wf()
    }

    /// Construct the service with its configuration and no sessions.
    pub fn new(
        admin: AccountId,
        game_hub: AccountId,
        native_token: AccountId,
        treasury: AccountId,
        verification_key: Option<Vec<u8>>,
    ) -> (c: Self)
        ensures
            c.wf(),
            c.admin == admin,
            c.game_hub == game_hub,
            c.native_token == native_token,
            c.treasury == treasury,
            c.verification_key == verification_key,
            c.games@ == Map::<u32, Game>::empty(),
    {
        ZkGameTheoryContract {
            admin,
            game_hub,
            native_token,
            treasury,
            verification_key,
            games: HashMap::new(),
        }
    }

    /// The configured admin identity.
    pub fn get_admin(&self) -> (a: AccountId)
        ensures
            a == self.admin,
    {
        self.admin
    }

    /// Rotate the verification key. Only the admin may; nothing else
    /// changes, and no session is touched.
    pub fn set_verification_key(&mut self, caller: AccountId, vk: Vec<u8>) -> (r: Result<
        (),
        Error,
    >)
        requires
            old(self).wf(),
        ensures
            final(self).wf(),
            caller != old(self).admin ==> r == Err::<(), Error>(Error::NotAdmin) && *final(self)
                == *old(self),
            caller == old(self).admin ==> {
                &&& r == Ok::<(), Error>(())
                &&& final(self).verification_key == Some(vk)
                &&& final(self).games == old(self).games
                &&& final(self).admin == old(self).admin
                &&& final(self).game_hub == old(self).game_hub
                &&& final(self).native_token == old(self).native_token
                &&& final(self).treasury == old(self).treasury
            },
    {
        if caller != self.admin {
            return Err(Error::NotAdmin);
        }
        self.verification_key = Some(vk);
        Ok(())
    }

    /// Authorize a code upgrade to the referenced build. Only the admin
    /// may; the service state never changes, and performing the swap is the
    /// host's job.
    pub fn upgrade(&self, caller: AccountId, new_wasm_hash: Digest) -> (r: Result<(), Error>)
        ensures
            caller == self.admin <==> r == Ok::<(), Error>(()),
            caller != self.admin <==> r == Err::<(), Error>(Error::NotAdmin),
    {
        if caller != self.admin {
            return Err(Error::NotAdmin);
        }
        Ok(())
    }

    /// A snapshot of the session stored under `session_id`.
    pub fn get_game(&self, session_id: u32) -> (r: Result<Game, Error>)
        ensures
            match r {
                Ok(g) => self.games@.contains_key(session_id) && g@ == self.games@[session_id]@,
                Err(e) => e == Error::GameNotFound && !self.games@.contains_key(session_id),
            },
    {
        match self.games.get(&session_id) {
            Some(g) => Ok(snapshot_game(g)),
            None => Err(Error::GameNotFound),
        }
    }

    /// Create the session record for a freshly started match: two distinct
    /// players, empty round records, zero scores, round 1, not complete.
    ///
    /// Session identifiers are unique per match, so the identifier must be
    /// unused: the host refuses a duplicate before calling here. The host
    /// also collects each player's scoped authorization and entry fee, and
    /// announces the match on the registry, before this record is created;
    /// if any of that fails the host never calls here and no state appears.
    /// The declared stakes are announced to the registry and do not enter
    /// the core state.
    pub fn start_game(
        &mut self,
        session_id: u32,
        player1: AccountId,
        player2: AccountId,
        player1_points: i128,
        player2_points: i128,
    ) -> (r: Result<(), Error>)
        requires
            old(self).wf(),
            !old(self).games@.contains_key(session_id),
        ensures
            final(self).wf(),
            same_config(*old(self), *final(self)),
            player1 == player2 ==> r == Err::<(), Error>(Error::SamePlayer) && *final(self)
                == *old(self),
            player1 != player2 ==> {
                &&& r == Ok::<(), Error>(())
                &&& final(self).games@.dom() == old(self).games@.dom().insert(session_id)
                &&& final(self).games@.contains_key(session_id)
                &&& final(self).games@[session_id]@ == GameView::fresh(player1, player2)
                &&& forall|k: u32|
                    #[trigger] old(self).games@.contains_key(k) && k != session_id
                        ==> final(self).games@.contains_key(k) && final(self).games@[k]
                        == old(self).games@[k]
            },
    {
        if player1 == player2 {
            return Err(Error::SamePlayer);
        }
        let g = new_game(player1, player2);
        self.games.insert(session_id, g);
        proof {
            assert(self.games@.dom() =~= old(self).games@.dom().insert(session_id));
            assert forall|k: u32| #[trigger] self.games@.contains_key(k) implies self.games@[k]@.wf() by {
                if k != session_id {
                    assert(old(self).games@.contains_key(k));
                }
            }
        }
        Ok(())
    }

    /// Record the caller's commitment for the current round.
    ///
    /// The slot must still be empty: a commitment, once set, is never
    /// overwritten, and a second commit for the same round fails with
    /// `AlreadyCommitted` leaving the first in place. Every refused call
    /// leaves the whole state exactly as it was.
    pub fn commit_move(&mut self, session_id: u32, player: AccountId, commitment: Digest) -> (r:
        Result<(), Error>)
        requires
            old(self).wf(),
        ensures
            final(self).wf(),
            same_config(*old(self), *final(self)),
            !old(self).games@.contains_key(session_id) ==> r == Err::<(), Error>(
                Error::GameNotFound,
            ) && *final(self) == *old(self),
            old(self).games@.contains_key(session_id) ==> ({
                let g = old(self).games@[session_id]@;
                &&& !g.commit_allowed(player) ==> r == Err::<(), Error>(g.commit_error(player))
                    && *final(self) == *old(self)
                &&& g.commit_allowed(player) ==> {
                    &&& r == Ok::<(), Error>(())
                    &&& final(self).games@.dom() == old(self).games@.dom()
                    &&& final(self).games@.contains_key(session_id)
                    &&& final(self).games@[session_id]@ == g.commit_step(player, commitment)
                    &&& forall|k: u32|
                        #[trigger] old(self).games@.contains_key(k) && k != session_id
                            ==> final(self).games@[k] == old(self).games@[k]
                }
            }),
    {
        let is_p1: bool;
        match self.games.get(&session_id) {
            None => {
                return Err(Error::GameNotFound);
            },
            Some(gref) => {
                proof {
                    assert(old(self).games@.contains_key(session_id));
                    assert(*gref == old(self).games@[session_id]);
                    assert(gref@.wf());
                }
                if gref.is_complete {
                    return Err(Error::GameAlreadyEnded);
                }
                let p1 = player == gref.player1;
                if !p1 && player != gref.player2 {
                    return Err(Error::NotPlayer);
                }
                let idx = (gref.current_round - 1) as usize;
                let already = if p1 {
                    gref.p1_commitments[idx].is_some()
                } else {
                    gref.p2_commitments[idx].is_some()
                };
                if already {
                    return Err(Error::AlreadyCommitted);
                }
                is_p1 = p1;
            },
        }
        let ghost g0 = old(self).games@[session_id]@;
        let taken = self.games.remove(&session_id);
        let mut g = taken.unwrap();
        let idx = (g.current_round - 1) as usize;
        if is_p1 {
            g.p1_commitments.set(idx, Some(commitment));
        } else {
            g.p2_commitments.set(idx, Some(commitment));
        }
        proof {
            assert(g@ =~= g0.commit_step(player, commitment));
        }
        self.games.insert(session_id, g);
        proof {
            assert(self.games@.dom() =~= old(self).games@.dom());
            assert forall|k: u32| #[trigger] self.games@.contains_key(k) implies self.games@[k]@.wf() by {
                if k == session_id {
                    assert(self.games@[k]@ == g0.commit_step(player, commitment));
                } else {
                    assert(old(self).games@.contains_key(k));
                }
            }
        }
        Ok(())
    }

    /// Reveal the caller's move for the current round, gated by the
    /// verification oracle.
    ///
    /// The protocol checks run first, in the order `reveal_error` gives;
    /// the move symbol is validated before any verification. Only then is
    /// the configured key read, the proof normalized, and the oracle asked
    /// with the stored commitment digest and the revealed move as the
    /// public inputs — binding the move into the proof, so a commitment
    /// cannot be opened as the other move (see [`ProofVerifier`]). A
    /// reveal that passes the protocol checks succeeds exactly when the
    /// oracle accepts the triple it is handed; a rejected proof fails with
    /// `VerificationFailed` and — like every refused call — leaves moves,
    /// scores, round and completion exactly as they were, so the caller may
    /// retry with a corrected proof.
    ///
    /// On success the caller's move is recorded; if the opponent's move for
    /// the round is now also present, the payoff-table deltas are added to
    /// both scores and the round advances — or, on the final round, the
    /// session completes and the settlement to execute is returned —
    /// atomically in the same step.
    pub fn reveal_move<V: ProofVerifier>(
        &mut self,
        verifier: &V,
        session_id: u32,
        player: AccountId,
        move_val: u32,
        proof: Vec<u8>,
    ) -> (r: Result<Option<Settlement>, Error>)
        requires
            old(self).wf(),
        ensures
            final(self).wf(),
            same_config(*old(self), *final(self)),
            !old(self).games@.contains_key(session_id) ==> r == Err::<Option<Settlement>, Error>(
                Error::GameNotFound,
            ) && *final(self) == *old(self),
            old(self).games@.contains_key(session_id) ==> ({
                let g = old(self).games@[session_id]@;
                &&& !g.reveal_allowed(player, move_val) ==> r == Err::<Option<Settlement>, Error>(
                    g.reveal_error(player, move_val),
                ) && *final(self) == *old(self)
                &&& (g.reveal_allowed(player, move_val) && old(self).verification_key is None)
                    ==> r == Err::<Option<Settlement>, Error>(Error::VkNotSet) && *final(self)
                    == *old(self)
                &&& (g.reveal_allowed(player, move_val) && old(self).verification_key is Some)
                    ==> (r is Ok <==> verifier.accepts(
                    (old(self).verification_key->0)@,
                    normalized_proof(proof@),
                    g.commitments_of(player)[g.round_index()]->0,
                    move_val,
                ))
                &&& (g.reveal_allowed(player, move_val) && old(self).verification_key is Some)
                    ==> match r {
                    Result::Err(e) => e == Error::VerificationFailed && *final(self) == *old(self),
                    Result::Ok(st) => {
                        let g2 = g.reveal_step(player, move_val);
                        &&& final(self).games@.dom() == old(self).games@.dom()
                        &&& final(self).games@.contains_key(session_id)
                        &&& final(self).games@[session_id]@ == g2
                        &&& forall|k: u32|
                            #[trigger] old(self).games@.contains_key(k) && k != session_id
                                ==> final(self).games@[k] == old(self).games@[k]
                        &&& (st is Some <==> g2.is_complete)
                        &&& (st matches Some(s) ==> {
                            &&& s.p1_payout == payout_of(g2.p1_score)
                            &&& s.p2_payout == payout_of(g2.p2_score)
                            &&& s.treasury_payout == treasury_remainder(g2.p1_score, g2.p2_score)
                            &&& s.p1_payout + s.p2_payout + s.treasury_payout == TOTAL_POOL
                            &&& s.treasury_payout >= 0
                            &&& s.player1_won == (g2.p1_score >= g2.p2_score)
                        })
                    },
                }
            }),
    {
        let is_p1: bool;
        let commitment: Digest;
        match self.games.get(&session_id) {
            None => {
                return Err(Error::GameNotFound);
            },
            Some(gref) => {
                proof {
                    assert(old(self).games@.contains_key(session_id));
                    assert(*gref == old(self).games@[session_id]);
                    assert(gref@.wf());
                }
                if gref.is_complete {
                    return Err(Error::GameAlreadyEnded);
                }
                let p1 = player == gref.player1;
                if !p1 && player != gref.player2 {
                    return Err(Error::NotPlayer);
                }
                let idx = (gref.current_round - 1) as usize;
                let revealed = if p1 {
                    gref.p1_moves[idx].is_some()
                } else {
                    gref.p2_moves[idx].is_some()
                };
                if revealed {
                    return Err(Error::AlreadyRevealed);
                }
                let c_opt = if p1 {
                    gref.p1_commitments[idx]
                } else {
                    gref.p2_commitments[idx]
                };
                match c_opt {
                    None => {
                        return Err(Error::CommitmentMissing);
                    },
                    Some(c) => {
                        commitment = c;
                    },
                }
                if !is_valid_move(move_val) {
                    return Err(Error::InvalidMove);
                }
                is_p1 = p1;
            },
        }
        let normalized = normalize_proof(proof);
        let accepted: bool;
        match &self.verification_key {
            None => {
                return Err(Error::VkNotSet);
            },
            Some(vk) => {
                accepted = verifier.verify(vk, &normalized, &commitment, move_val);
            },
        }
        if !accepted {
            return Err(Error::VerificationFailed);
        }
        let ghost g0 = old(self).games@[session_id]@;
        let taken = self.games.remove(&session_id);
        let mut g = taken.unwrap();
        let idx = (g.current_round - 1) as usize;
        if is_p1 {
            g.p1_moves.set(idx, Some(move_val));
        } else {
            g.p2_moves.set(idx, Some(move_val));
        }
        let both = g.p1_moves[idx].is_some() && g.p2_moves[idx].is_some();
        let mut settlement_due: Option<Settlement> = None;
        if both {
            let m1 = g.p1_moves[idx].unwrap();
            let m2 = g.p2_moves[idx].unwrap();
            proof {
                lemma_payoff_bounds(m1, m2);
            }
            let (d1, d2) = score(m1, m2);
            g.p1_score = g.p1_score + d1;
            g.p2_score = g.p2_score + d2;
            if g.current_round == TOTAL_ROUNDS {
                g.is_complete = true;
                settlement_due = Some(settle(g.p1_score, g.p2_score));
            } else {
                g.current_round = g.current_round + 1;
            }
        }
        proof {
            assert(g@ =~= g0.reveal_step(player, move_val));
        }
        self.games.insert(session_id, g);
        proof {
            assert(self.games@.dom() =~= old(self).games@.dom());
            assert forall|k: u32| #[trigger] self.games@.contains_key(k) implies self.games@[k]@.wf() by {
                if k == session_id {
                    assert(self.games@[k]@ == g0.reveal_step(player, move_val));
                } else {
                    assert(old(self).games@.contains_key(k));
                }
            }
        }
        Ok(settlement_due)
    }
}

} // verus!
