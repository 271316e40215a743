use vstd::prelude::*;

use crate::errors::Error;
use crate::scoring::{payoff1, payoff2};

verus! {

/// Number of rounds in a match.
pub const TOTAL_ROUNDS: u32 = 5;

/// The move symbol for cooperation.
pub const COOPERATE: u32 = 0;

/// The move symbol for defection.
pub const DEFECT: u32 = 1;

/// An opaque account identity: a player, the admin, the registry, the
/// payment token or the treasury. The protocol only ever compares
/// identities for equality; the embedding host maps them to real addresses.
#[derive(Copy, Clone, Debug, PartialEq, Eq, Structural, Hash)]
pub struct AccountId(pub u64);

/// A fixed-size commitment digest binding a player to a concealed move.
#[derive(Copy, Clone, Debug, PartialEq, Eq)]
pub struct Digest(pub [u8; 32]);

/// The two legal move symbols.
pub open spec fn valid_move(m: u32) -> bool {
    m == COOPERATE || m == DEFECT
}

/// Runtime check matching [`valid_move`].
pub fn is_valid_move(m: u32) -> (b: bool)
    ensures
        b == valid_move(m),
{
    m == COOPERATE || m == DEFECT
}

/// One session of the two-player match.
///
/// Round `r` (1-based, `1 <= r <= TOTAL_ROUNDS`) keeps its per-player
/// sub-state at index `r - 1` of the four round vectors: `None` means no
/// commitment (or no revealed move) for that round, and a slot, once `Some`,
/// is never overwritten.
#[derive(Clone, Debug, PartialEq, Eq)]
pub struct Game {
    pub player1: AccountId,
    pub player2: AccountId,
    pub p1_commitments: Vec<Option<Digest>>,
    pub p2_commitments: Vec<Option<Digest>>,
    pub p1_moves: Vec<Option<u32>>,
    pub p2_moves: Vec<Option<u32>>,
    pub p1_score: u32,
    pub p2_score: u32,
    pub current_round: u32,
    pub is_complete: bool,
}

/// The mathematical model of a [`Game`]: the same fields over `Seq` and `int`.
#[verifier::ext_equal]
pub ghost struct GameView {
    pub player1: AccountId,
    pub player2: AccountId,
    pub p1_commitments: Seq<Option<Digest>>,
    pub p2_commitments: Seq<Option<Digest>>,
    pub p1_moves: Seq<Option<u32>>,
    pub p2_moves: Seq<Option<u32>>,
    pub p1_score: int,
    pub p2_score: int,
    pub current_round: int,
    pub is_complete: bool,
}

impl View for Game {
    type V = GameView;

    open spec fn view(&self) -> GameView {
        GameView {
            player1: self.player1,
            player2: self.player2,
            p1_commitments: self.p1_commitments@,
            p2_commitments: self.p2_commitments@,
            p1_moves: self.p1_moves@,
            p2_moves: self.p2_moves@,
            p1_score: self.p1_score as int,
            p2_score: self.p2_score as int,
            current_round: self.current_round as int,
            is_complete: self.is_complete,
        }
    }
}

impl GameView {
    /// The freshly created session: empty round records, zero scores,
    /// round 1, not complete.
    pub open spec fn fresh(player1: AccountId, player2: AccountId) -> GameView {
        GameView {
            player1,
            player2,
            p1_commitments: Seq::new(TOTAL_ROUNDS as nat, |i: int| None),
            p2_commitments: Seq::new(TOTAL_ROUNDS as nat, |i: int| None),
            p1_moves: Seq::new(TOTAL_ROUNDS as nat, |i: int| None),
            p2_moves: Seq::new(TOTAL_ROUNDS as nat, |i: int| None),
            p1_score: 0,
            p2_score: 0,
            current_round: 1,
            is_complete: false,
        }
    }

    /// Whether `a` is one of the two declared players.
    pub open spec fn is_player(self, a: AccountId) -> bool {
        a == self.player1 || a == self.player2
    }

    /// The round vectors are indexed by `current_round - 1`.
    pub open spec fn round_index(self) -> int {
        self.current_round - 1
    }

    /// The commitment slots of player `a`.
    pub open spec fn commitments_of(self, a: AccountId) -> Seq<Option<Digest>> {
        if a == self.player1 {
            self.p1_commitments
        } else {
            self.p2_commitments
        }
    }

    /// The revealed-move slots of player `a`.
    pub open spec fn moves_of(self, a: AccountId) -> Seq<Option<u32>> {
        if a == self.player1 {
            self.p1_moves
        } else {
            self.p2_moves
        }
    }

    /// Whether `a` holds a commitment for the current round.
    pub open spec fn has_committed(self, a: AccountId) -> bool {
        self.commitments_of(a)[self.round_index()] is Some
    }

    /// Whether `a` has revealed a move for the current round.
    pub open spec fn has_revealed(self, a: AccountId) -> bool {
        self.moves_of(a)[self.round_index()] is Some
    }

    /// How many rounds have been scored so far: every round before the
    /// current one, and all of them once the session is complete.
    pub open spec fn scored_rounds(self) -> int {
        if self.is_complete {
            TOTAL_ROUNDS as int
        } else {
            self.current_round - 1
        }
    }

    /// Session well-formedness: distinct players, round vectors of length
    /// `TOTAL_ROUNDS`, the round counter in range, scores bounded by the
    /// payoff table (at most 6 points are handed out per scored round),
    /// every stored move legal, and a move only ever stored where the same
    /// player also holds a commitment.
    pub open spec fn wf(self) -> bool {
        &&& self.player1 != self.player2
        &&& self.p1_commitments.len() == TOTAL_ROUNDS
        &&& self.p2_commitments.len() == TOTAL_ROUNDS
        &&& self.p1_moves.len() == TOTAL_ROUNDS
        &&& self.p2_moves.len() == TOTAL_ROUNDS
        &&& 1 <= self.current_round <= TOTAL_ROUNDS
        &&& self.is_complete ==> self.current_round == TOTAL_ROUNDS
        &&& 0 <= self.p1_score
        &&& 0 <= self.p2_score
        &&& self.p1_score + self.p2_score <= 6 * self.scored_rounds()
        &&& forall|i: int|
            0 <= i < self.p1_moves.len() ==> (#[trigger] self.p1_moves[i] matches Some(m)
                ==> valid_move(m))
        &&& forall|i: int|
            0 <= i < self.p2_moves.len() ==> (#[trigger] self.p2_moves[i] matches Some(m)
                ==> valid_move(m))
        &&& forall|i: int|
            0 <= i < self.p1_moves.len() && #[trigger] self.p1_moves[i] is Some
                ==> self.p1_commitments[i] is Some
        &&& forall|i: int|
            0 <= i < self.p2_moves.len() && #[trigger] self.p2_moves[i] is Some
                ==> self.p2_commitments[i] is Some
    }

    /// Whether a commit by `player` goes through on this session.
    pub open spec fn commit_allowed(self, player: AccountId) -> bool {
        &&& !self.is_complete
        &&& self.is_player(player)
        &&& !self.has_committed(player)
    }

    /// The error a refused commit surfaces; a completed session wins over an
    /// unknown caller, which wins over a repeated commitment.
    pub open spec fn commit_error(self, player: AccountId) -> Error {
        if self.is_complete {
            Error::GameAlreadyEnded
        } else if !self.is_player(player) {
            Error::NotPlayer
        } else {
            Error::AlreadyCommitted
        }
    }

    /// The sub-state transition of a successful commit: the caller's slot
    /// for the current round becomes `Committed(commitment)`; nothing else
    /// changes.
    pub open spec fn commit_step(self, player: AccountId, commitment: Digest) -> GameView {
        if player == self.player1 {
            GameView {
                p1_commitments: self.p1_commitments.update(
                    self.round_index(),
                    Some(commitment),
                ),
                ..self
            }
        } else {
            GameView {
                p2_commitments: self.p2_commitments.update(
                    self.round_index(),
                    Some(commitment),
                ),
                ..self
            }
        }
    }

    /// All protocol-state checks a reveal makes before the verification key
    /// is read and the oracle is consulted.
    pub open spec fn reveal_allowed(self, player: AccountId, mv: u32) -> bool {
        &&& !self.is_complete
        &&& self.is_player(player)
        &&& !self.has_revealed(player)
        &&& self.has_committed(player)
        &&& valid_move(mv)
    }

    /// The error a refused reveal surfaces, in check order: completed
    /// session, unknown caller, repeated reveal, missing commitment,
    /// illegal move symbol; a reveal refused for none of these reasons was
    /// stopped by the missing verification key.
    pub open spec fn reveal_error(self, player: AccountId, mv: u32) -> Error {
        if self.is_complete {
            Error::GameAlreadyEnded
        } else if !self.is_player(player) {
            Error::NotPlayer
        } else if self.has_revealed(player) {
            Error::AlreadyRevealed
        } else if !self.has_committed(player) {
            Error::CommitmentMissing
        } else if !valid_move(mv) {
            Error::InvalidMove
        } else {
            Error::VkNotSet
        }
    }

    /// The state transition of a successful reveal: the caller's slot for
    /// the current round becomes `Revealed(mv)`. If the opponent's move for
    /// the round is now also present, both scores grow by the payoff-table
    /// deltas in the same step, and the round either advances or — on the
    /// final round — the session completes.
    pub open spec fn reveal_step(self, player: AccountId, mv: u32) -> GameView {
        let i = self.round_index();
        let g = if player == self.player1 {
            GameView { p1_moves: self.p1_moves.update(i, Some(mv)), ..self }
        } else {
            GameView { p2_moves: self.p2_moves.update(i, Some(mv)), ..self }
        };
        if g.p1_moves[i] is Some && g.p2_moves[i] is Some {
            let m1 = g.p1_moves[i]->0;
            let m2 = g.p2_moves[i]->0;
            let scored = GameView {
                p1_score: g.p1_score + payoff1(m1, m2),
                p2_score: g.p2_score + payoff2(m1, m2),
                ..g
            };
            if scored.current_round == TOTAL_ROUNDS {
                GameView { is_complete: true, ..scored }
            } else {
                GameView { current_round: scored.current_round + 1, ..scored }
            }
        } else {
            g
        }
    }
}

/// Law: scores only increase, and only by the exact payoff-table deltas,
/// and only in the step in which both players' moves for the current round
/// become present; a reveal that leaves the opponent's move outstanding
/// changes neither score.
pub proof fn lemma_reveal_step_scores(g: GameView, player: AccountId, mv: u32)
    requires
        g.wf(),
        g.reveal_allowed(player, mv),
    ensures
        ({
            let g2 = g.reveal_step(player, mv);
            let i = g.round_index();
            &&& g2.p1_score >= g.p1_score
            &&& g2.p2_score >= g.p2_score
            &&& (g2.p1_moves[i] is Some && g2.p2_moves[i] is Some) ==> {
                &&& g2.p1_score == g.p1_score + payoff1(g2.p1_moves[i]->0, g2.p2_moves[i]->0)
                &&& g2.p2_score == g.p2_score + payoff2(g2.p1_moves[i]->0, g2.p2_moves[i]->0)
            }
            &&& !(g2.p1_moves[i] is Some && g2.p2_moves[i] is Some) ==> {
                &&& g2.p1_score == g.p1_score
                &&& g2.p2_score == g.p2_score
            }
        }),
{
    let g2 = g.reveal_step(player, mv);
    let i = g.round_index();
    if g2.p1_moves[i] is Some && g2.p2_moves[i] is Some {
        crate::scoring::lemma_payoff_bounds(g2.p1_moves[i]->0, g2.p2_moves[i]->0);
    }
}

/// Law: `is_complete` flips exactly when the final round's last missing
/// move arrives: a reveal completes the session iff the session stands in
/// round `TOTAL_ROUNDS` and both moves for it are present afterwards.
pub proof fn lemma_reveal_step_completion(g: GameView, player: AccountId, mv: u32)
    requires
        g.wf(),
        g.reveal_allowed(player, mv),
    ensures
        ({
            let g2 = g.reveal_step(player, mv);
            let i = g.round_index();
            g2.is_complete <==> (g.current_round == TOTAL_ROUNDS && g2.p1_moves[i] is Some
                && g2.p2_moves[i] is Some)
        }),
{
}

/// One full round of a match at the model level: both players commit,
/// then the first player reveals, then the second.
pub open spec fn round_trace(g: GameView, d1: Digest, d2: Digest, m1: u32, m2: u32) -> GameView {
    let committed = g.commit_step(g.player1, d1).commit_step(g.player2, d2);
    committed.reveal_step(g.player1, m1).reveal_step(g.player2, m2)
}

/// The model state after the first `k` full rounds of a match between
/// `p1` and `p2`, both playing the given move sequences. The committed
/// digests never enter the scoring, so one digest `d` stands for all.
pub open spec fn match_trace(
    p1: AccountId,
    p2: AccountId,
    d: Digest,
    ms1: Seq<u32>,
    ms2: Seq<u32>,
    k: int,
) -> GameView
    decreases k,
{
    if k <= 0 {
        GameView::fresh(p1, p2)
    } else {
        round_trace(match_trace(p1, p2, d, ms1, ms2, k - 1), d, d, ms1[k - 1], ms2[k - 1])
    }
}

/// The first player's total payoff over the first `k` rounds.
pub open spec fn payoff1_sum(ms1: Seq<u32>, ms2: Seq<u32>, k: int) -> int
    decreases k,
{
    if k <= 0 {
        0
    } else {
        payoff1_sum(ms1, ms2, k - 1) + payoff1(ms1[k - 1], ms2[k - 1])
    }
}

/// The second player's total payoff over the first `k` rounds.
pub open spec fn payoff2_sum(ms1: Seq<u32>, ms2: Seq<u32>, k: int) -> int
    decreases k,
{
    if k <= 0 {
        0
    } else {
        payoff2_sum(ms1, ms2, k - 1) + payoff2(ms1[k - 1], ms2[k - 1])
    }
}

/// Everything that holds of the model state after `k` full rounds: the
/// rounds not yet played are untouched, the session is complete exactly
/// after the last round, the round counter advanced once per completed
/// round, and both scores are exactly the payoff sums so far.
proof fn lemma_match_trace_invariant(
    p1: AccountId,
    p2: AccountId,
    d: Digest,
    ms1: Seq<u32>,
    ms2: Seq<u32>,
    k: int,
)
    requires
        p1 != p2,
        0 <= k <= TOTAL_ROUNDS,
        ms1.len() >= k,
        ms2.len() >= k,
        forall|j: int| 0 <= j < k ==> valid_move(#[trigger] ms1[j]),
        forall|j: int| 0 <= j < k ==> valid_move(#[trigger] ms2[j]),
    ensures
        ({
            let g = match_trace(p1, p2, d, ms1, ms2, k);
            &&& g.player1 == p1 && g.player2 == p2
            &&& g.p1_commitments.len() == TOTAL_ROUNDS && g.p2_commitments.len() == TOTAL_ROUNDS
            &&& g.p1_moves.len() == TOTAL_ROUNDS && g.p2_moves.len() == TOTAL_ROUNDS
            &&& forall|j: int|
                k <= j < TOTAL_ROUNDS ==> #[trigger] g.p1_moves[j] is None && g.p2_moves[j] is None
                    && g.p1_commitments[j] is None && g.p2_commitments[j] is None
            &&& (g.is_complete <==> k == TOTAL_ROUNDS)
            &&& g.current_round == (if k < TOTAL_ROUNDS {
                k + 1
            } else {
                TOTAL_ROUNDS as int
            })
            &&& g.p1_score == payoff1_sum(ms1, ms2, k)
            &&& g.p2_score == payoff2_sum(ms1, ms2, k)
        }),
    decreases k,
{
    if k > 0 {
        lemma_match_trace_invariant(p1, p2, d, ms1, ms2, k - 1);
        let prev = match_trace(p1, p2, d, ms1, ms2, k - 1);
        let committed = prev.commit_step(p1, d).commit_step(p2, d);
        let half = committed.reveal_step(p1, ms1[k - 1]);
        let g = half.reveal_step(p2, ms2[k - 1]);
        assert(match_trace(p1, p2, d, ms1, ms2, k) == g);
        assert(prev.round_index() == k - 1);
        assert(prev.p1_moves[k - 1] is None);
        assert(prev.p2_moves[k - 1] is None);
        assert(committed.p1_moves == prev.p1_moves);
        assert(committed.p2_moves == prev.p2_moves);
        assert(half.p1_moves[k - 1] == Some(ms1[k - 1]));
        assert(half.p2_moves[k - 1] is None);
        assert(g.p1_moves[k - 1] == Some(ms1[k - 1]));
        assert(g.p2_moves[k - 1] == Some(ms2[k - 1]));
        assert(g.p1_score == prev.p1_score + payoff1(ms1[k - 1], ms2[k - 1]));
        assert(g.p2_score == prev.p2_score + payoff2(ms1[k - 1], ms2[k - 1]));
        assert forall|j: int|
            k <= j < TOTAL_ROUNDS implies #[trigger] g.p1_moves[j] is None && g.p2_moves[j]
            is None && g.p1_commitments[j] is None && g.p2_commitments[j] is None by {
            assert(prev.p1_moves[j] is None);
            assert(prev.p2_moves[j] is None);
            assert(prev.p1_commitments[j] is None);
            assert(prev.p2_commitments[j] is None);
        }
    }
}

/// Law: a full match — both players committing and revealing a legal move
/// in each of the `TOTAL_ROUNDS` rounds — ends complete, was not complete
/// before its last round (the flag flips exactly once, on the final
/// round's second reveal), and leaves each player's score exactly the sum
/// of their per-round payoff-table deltas.
pub proof fn lemma_full_match_totals(
    p1: AccountId,
    p2: AccountId,
    d: Digest,
    ms1: Seq<u32>,
    ms2: Seq<u32>,
)
    requires
        p1 != p2,
        ms1.len() == TOTAL_ROUNDS,
        ms2.len() == TOTAL_ROUNDS,
        forall|j: int| 0 <= j < TOTAL_ROUNDS ==> valid_move(#[trigger] ms1[j]),
        forall|j: int| 0 <= j < TOTAL_ROUNDS ==> valid_move(#[trigger] ms2[j]),
    ensures
        ({
            let g = match_trace(p1, p2, d, ms1, ms2, TOTAL_ROUNDS as int);
            &&& g.is_complete
            &&& g.current_round == TOTAL_ROUNDS
            &&& g.p1_score == payoff1_sum(ms1, ms2, TOTAL_ROUNDS as int)
            &&& g.p2_score == payoff2_sum(ms1, ms2, TOTAL_ROUNDS as int)
        }),
        !match_trace(p1, p2, d, ms1, ms2, TOTAL_ROUNDS as int - 1).is_complete,
{
    lemma_match_trace_invariant(p1, p2, d, ms1, ms2, TOTAL_ROUNDS as int);
    lemma_match_trace_invariant(p1, p2, d, ms1, ms2, TOTAL_ROUNDS as int - 1);
}

impl Game {
    /// Runtime check matching [`GameView::wf`], for session records loaded
    /// from storage the core does not own: the host validates a record
    /// before handing it back to the core's operations.
    pub fn well_formed(&self) -> (b: bool)
        ensures
            b == self@.wf(),
    {
        let n: usize = TOTAL_ROUNDS as usize;
        if self.player1 == self.player2 {
            return false;
        }
        if self.p1_commitments.len() != n || self.p2_commitments.len() != n
            || self.p1_moves.len() != n || self.p2_moves.len() != n {
            return false;
        }
        if self.current_round < 1 || self.current_round > TOTAL_ROUNDS {
            return false;
        }
        if self.is_complete && self.current_round != TOTAL_ROUNDS {
            return false;
        }
        let scored: u32 = if self.is_complete {
            TOTAL_ROUNDS
        } else {
            self.current_round - 1
        };
        if (self.p1_score as u64) + (self.p2_score as u64) > 6 * (scored as u64) {
            return false;
        }
        let mut i: usize = 0;
        while i < n
            invariant
                i <= n,
                n == TOTAL_ROUNDS,
                self.p1_commitments@.len() == n,
                self.p2_commitments@.len() == n,
                self.p1_moves@.len() == n,
                self.p2_moves@.len() == n,
                forall|j: int|
                    0 <= j < i ==> (#[trigger] self.p1_moves@[j] matches Some(m)
                        ==> valid_move(m)),
                forall|j: int|
                    0 <= j < i ==> (#[trigger] self.p2_moves@[j] matches Some(m)
                        ==> valid_move(m)),
                forall|j: int|
                    0 <= j < i && #[trigger] self.p1_moves@[j] is Some
                        ==> self.p1_commitments@[j] is Some,
                forall|j: int|
                    0 <= j < i && #[trigger] self.p2_moves@[j] is Some
                        ==> self.p2_commitments@[j] is Some,
            decreases n - i,
        {
            match self.p1_moves[i] {
                Some(m) => {
                    if !is_valid_move(m) {
                        return false;
                    }
                    if self.p1_commitments[i].is_none() {
                        return false;
                    }
                },
                None => {},
            }
            match self.p2_moves[i] {
                Some(m) => {
                    if !is_valid_move(m) {
                        return false;
                    }
                    if self.p2_commitments[i].is_none() {
                        return false;
                    }
                },
                None => {},
            }
            i = i + 1;
        }
        true
    }
}

/// Build one fresh session record.
pub fn new_game(player1: AccountId, player2: AccountId) -> (g: Game)
    requires
        player1 != player2,
    ensures
        g@ == GameView::fresh(player1, player2),
        g@.wf(),
{
    let slots: usize = TOTAL_ROUNDS as usize;
    let g = Game {
        player1,
        player2,
        p1_commitments: empty_slots(slots),
        p2_commitments: empty_slots(slots),
        p1_moves: empty_slots(slots),
        p2_moves: empty_slots(slots),
        p1_score: 0,
        p2_score: 0,
        current_round: 1,
        is_complete: false,
    };
    proof {
        assert(g@ =~= GameView::fresh(player1, player2));
    }
    g
}

/// A vector of `n` empty round slots.
fn empty_slots<T>(n: usize) -> (v: Vec<Option<T>>)
    ensures
        v@ == Seq::new(n as nat, |i: int| None::<T>),
{
    let mut v: Vec<Option<T>> = Vec::new();
    let mut i: usize = 0;
    while i < n
        invariant
            i <= n,
            v@ == Seq::new(i as nat, |j: int| None::<T>),
        decreases n - i,
    {
        v.push(None);
        i = i + 1;
        proof {
            assert(v@ =~= Seq::new(i as nat, |j: int| None::<T>));
        }
    }
    v
}

/// A field-by-field copy of a session record.
pub fn snapshot_game(g: &Game) -> (c: Game)
    ensures
        c@ == g@,
{
    let c = Game {
        player1: g.player1,
        player2: g.player2,
        p1_commitments: copy_slots(&g.p1_commitments),
        p2_commitments: copy_slots(&g.p2_commitments),
        p1_moves: copy_slots(&g.p1_moves),
        p2_moves: copy_slots(&g.p2_moves),
        p1_score: g.p1_score,
        p2_score: g.p2_score,
        current_round: g.current_round,
        is_complete: g.is_complete,
    };
    proof {
        assert(c@ =~= g@);
    }
    c
}

/// An element-wise copy of a vector of round slots.
fn copy_slots<T: Copy>(v: &Vec<T>) -> (c: Vec<T>)
    ensures
        c@ == v@,
{
    let mut c: Vec<T> = Vec::new();
    let mut i: usize = 0;
    while i < v.len()
        invariant
            i <= v.len(),
            c@ == v@.subrange(0, i as int),
        decreases v.len() - i,
    {
        c.push(v[i]);
        i = i + 1;
        proof {
            assert(c@ =~= v@.subrange(0, i as int));
        }
    }
    proof {
        assert(c@ =~= v@);
    }
    c
}

} // verus!
