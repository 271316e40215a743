use vstd::prelude::*;

use crate::game::TOTAL_ROUNDS;

verus! {

/// Entry fee debited from each player at match start, in the smallest base
/// unit of the payment token.
pub const ENTRY_FEE: i128 = 100_000_000;

/// The fixed pool available at settlement: both entry fees.
pub const TOTAL_POOL: i128 = 200_000_000;

/// Conversion rate from one score point to the payment token's smallest
/// base unit.
pub const POINT_VALUE: i128 = 3_000_000;

/// The most points the table can hand out over a whole match: at most 6 per
/// round.
pub open spec fn max_total_score() -> int {
    6 * TOTAL_ROUNDS as int
}

/// The payout a final score converts to.
pub open spec fn payout_of(score: int) -> int {
    score * POINT_VALUE
}

/// What remains of the pool for the treasury after both payouts.
pub open spec fn treasury_remainder(p1_score: int, p2_score: int) -> int {
    TOTAL_POOL - payout_of(p1_score) - payout_of(p2_score)
}

/// The transfers and the winner declaration of one match settlement.
#[derive(Copy, Clone, Debug, PartialEq, Eq)]
pub struct Settlement {
    /// Paid from custody to player 1.
    pub p1_payout: i128,
    /// Paid from custody to player 2.
    pub p2_payout: i128,
    /// The remainder of the pool, paid from custody to the treasury.
    pub treasury_payout: i128,
    /// The winner flag reported to the registry; an exact tie favours
    /// player 1.
    pub player1_won: bool,
}

/// Law: settlement conserves the pool. For every reachable score pair (the
/// table hands out at most [`max_total_score`] points in all), the two
/// payouts and the treasury remainder are non-negative and sum to exactly
/// [`TOTAL_POOL`].
pub proof fn lemma_settlement_conserves_pool(p1_score: int, p2_score: int)
    requires
        0 <= p1_score,
        0 <= p2_score,
        p1_score + p2_score <= max_total_score(),
    ensures
        payout_of(p1_score) >= 0,
        payout_of(p2_score) >= 0,
        treasury_remainder(p1_score, p2_score) >= 0,
        payout_of(p1_score) + payout_of(p2_score) + treasury_remainder(p1_score, p2_score)
            == TOTAL_POOL,
{
    assert(payout_of(p1_score) + payout_of(p2_score) <= 30 * POINT_VALUE) by (nonlinear_arith)
        requires
            0 <= p1_score,
            0 <= p2_score,
            p1_score + p2_score <= 30,
    ;
    assert(payout_of(p1_score) >= 0) by (nonlinear_arith)
        requires
            0 <= p1_score,
    ;
    assert(payout_of(p2_score) >= 0) by (nonlinear_arith)
        requires
            0 <= p2_score,
    ;
}

/// Convert final scores into the three transfers and the winner flag.
pub fn settle(p1_score: u32, p2_score: u32) -> (s: Settlement)
    requires
        p1_score + p2_score <= max_total_score(),
    ensures
        s.p1_payout == payout_of(p1_score as int),
        s.p2_payout == payout_of(p2_score as int),
        s.treasury_payout == treasury_remainder(p1_score as int, p2_score as int),
        s.treasury_payout >= 0,
        s.p1_payout + s.p2_payout + s.treasury_payout == TOTAL_POOL,
        s.player1_won == (p1_score >= p2_score),
{
    proof {
        lemma_settlement_conserves_pool(p1_score as int, p2_score as int);
    }
    let p1_payout: i128 = (p1_score as i128) * POINT_VALUE;
    let p2_payout: i128 = (p2_score as i128) * POINT_VALUE;
    let treasury_payout: i128 = TOTAL_POOL - p1_payout - p2_payout;
    Settlement { p1_payout, p2_payout, treasury_payout, player1_won: p1_score >= p2_score }
}

} // verus!
