use vstd::prelude::*;

use crate::game::{valid_move, COOPERATE, DEFECT};

verus! {

/// Points awarded to the first player for one round of `(a, b)`:
/// 3 for mutual cooperation, 1 for mutual defection, 0 for cooperating
/// against a defector and 5 for defecting against a cooperator.
pub open spec fn payoff1(a: u32, b: u32) -> int {
    if a == COOPERATE && b == COOPERATE {
        3
    } else if a == DEFECT && b == DEFECT {
        1
    } else if a == COOPERATE {
        0
    } else {
        5
    }
}

/// Points awarded to the second player: the table is symmetric, so this is
/// [`payoff1`] with the moves swapped.
pub open spec fn payoff2(a: u32, b: u32) -> int {
    payoff1(b, a)
}

/// Both payoffs are drawn from the table, so each lies in `[0, 5]` and a
/// round hands out at most 6 points in total.
pub proof fn lemma_payoff_bounds(a: u32, b: u32)
    requires
        valid_move(a),
        valid_move(b),
    ensures
        0 <= payoff1(a, b) <= 5,
        0 <= payoff2(a, b) <= 5,
        payoff1(a, b) + payoff2(a, b) <= 6,
{
}

/// The payoff of one round, as `(points for a, points for b)`.
pub fn score(a: u32, b: u32) -> (r: (u32, u32))
    requires
        valid_move(a),
        valid_move(b),
    ensures
        r.0 == payoff1(a, b),
        r.1 == payoff2(a, b),
{
    if a == COOPERATE && b == COOPERATE {
        (3, 3)
    } else if a == DEFECT && b == DEFECT {
        (1, 1)
    } else if a == COOPERATE {
        (0, 5)
    } else {
        (5, 0)
    }
}

} // verus!
