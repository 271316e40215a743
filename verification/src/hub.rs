use vstd::prelude::*;

use crate::game::AccountId;

verus! {

/// Port to the external match-registry service that announces and closes
/// matches. The embedding host implements it against the real registry;
/// the core never calls it itself, so a registry failure can only abort the
/// enclosing host operation, never corrupt session state.
pub trait GameHub {
    /// Announce a new session: the contract hosting it, the two players and
    /// the stakes each declared.
    fn start_game(
        &mut self,
        game_id: AccountId,
        session_id: u32,
        player1: AccountId,
        player2: AccountId,
        player1_points: i128,
        player2_points: i128,
    );

    /// Close a session, reporting whether player 1 won (a tie counts as a
    /// win for player 1).
    fn end_game(&mut self, session_id: u32, player1_won: bool);
}

} // verus!
