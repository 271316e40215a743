use zk_game_theory::contract::ZkGameTheoryContract;
use zk_game_theory::errors::Error;
use zk_game_theory::game::{AccountId, Digest, COOPERATE, DEFECT};
use zk_game_theory::settlement::{Settlement, POINT_VALUE, TOTAL_POOL};
use zk_game_theory::verification::{FixedOutcomeVerifier, MoveBoundVerifier};

fn alice() -> AccountId {
    AccountId(1)
}

fn bob() -> AccountId {
    AccountId(2)
}

fn admin() -> AccountId {
    AccountId(100)
}

fn digest(x: u8) -> Digest {
    Digest([x; 32])
}

fn accept() -> FixedOutcomeVerifier {
    FixedOutcomeVerifier { outcome: true }
}

fn reject() -> FixedOutcomeVerifier {
    FixedOutcomeVerifier { outcome: false }
}

fn new_contract() -> ZkGameTheoryContract {
    ZkGameTheoryContract::new(
        admin(),
        AccountId(101),
        AccountId(102),
        AccountId(103),
        Some(vec![7u8; 4]),
    )
}

fn started(session_id: u32) -> ZkGameTheoryContract {
    let mut c = new_contract();
    c.start_game(session_id, alice(), bob(), 100, 100).unwrap();
    c
}

fn play_round(
    c: &mut ZkGameTheoryContract,
    session_id: u32,
    m1: u32,
    m2: u32,
) -> Option<Settlement> {
    c.commit_move(session_id, alice(), digest(1)).unwrap();
    c.commit_move(session_id, bob(), digest(2)).unwrap();
    let first = c
        .reveal_move(&accept(), session_id, alice(), m1, vec![0u8; 8])
        .unwrap();
    assert!(first.is_none());
    c.reveal_move(&accept(), session_id, bob(), m2, vec![0u8; 8])
        .unwrap()
}

#[test]
fn start_game_creates_fresh_session() {
    let c = started(7);
    let g = c.get_game(7).unwrap();
    assert_eq!(g.player1, alice());
    assert_eq!(g.player2, bob());
    assert_eq!(g.p1_score, 0);
    assert_eq!(g.p2_score, 0);
    assert_eq!(g.current_round, 1);
    assert!(!g.is_complete);
    assert!(g.p1_commitments.iter().all(|s| s.is_none()));
    assert!(g.p2_commitments.iter().all(|s| s.is_none()));
    assert!(g.p1_moves.iter().all(|s| s.is_none()));
    assert!(g.p2_moves.iter().all(|s| s.is_none()));
}

#[test]
fn start_game_rejects_same_player() {
    let mut c = new_contract();
    let r = c.start_game(7, alice(), alice(), 100, 100);
    assert_eq!(r, Err(Error::SamePlayer));
    assert_eq!(c.get_game(7), Err(Error::GameNotFound));
}

#[test]
fn unknown_session_not_found() {
    let mut c = new_contract();
    assert_eq!(c.get_game(3), Err(Error::GameNotFound));
    assert_eq!(c.commit_move(3, alice(), digest(1)), Err(Error::GameNotFound));
    assert_eq!(
        c.reveal_move(&accept(), 3, alice(), COOPERATE, vec![]),
        Err(Error::GameNotFound)
    );
}

#[test]
fn commit_twice_fails_and_keeps_first() {
    let mut c = started(7);
    c.commit_move(7, alice(), digest(11)).unwrap();
    let r = c.commit_move(7, alice(), digest(22));
    assert_eq!(r, Err(Error::AlreadyCommitted));
    let g = c.get_game(7).unwrap();
    assert_eq!(g.p1_commitments[0], Some(digest(11)));
}

#[test]
fn non_player_rejected() {
    let mut c = started(7);
    let before = c.get_game(7).unwrap();
    assert_eq!(c.commit_move(7, AccountId(99), digest(1)), Err(Error::NotPlayer));
    assert_eq!(
        c.reveal_move(&accept(), 7, AccountId(99), COOPERATE, vec![]),
        Err(Error::NotPlayer)
    );
    assert_eq!(c.get_game(7).unwrap(), before);
}

#[test]
fn reveal_without_commitment_fails() {
    let mut c = started(7);
    let before = c.get_game(7).unwrap();
    let r = c.reveal_move(&accept(), 7, alice(), COOPERATE, vec![0u8; 8]);
    assert_eq!(r, Err(Error::CommitmentMissing));
    assert_eq!(c.get_game(7).unwrap(), before);
}

#[test]
fn rejected_proof_changes_nothing() {
    let mut c = started(7);
    c.commit_move(7, alice(), digest(11)).unwrap();
    let before = c.get_game(7).unwrap();
    let r = c.reveal_move(&reject(), 7, alice(), COOPERATE, vec![0u8; 8]);
    assert_eq!(r, Err(Error::VerificationFailed));
    assert_eq!(c.get_game(7).unwrap(), before);
}

#[test]
fn invalid_move_rejected_before_verification() {
    let mut c = started(7);
    c.commit_move(7, alice(), digest(11)).unwrap();
    let before = c.get_game(7).unwrap();
    let r = c.reveal_move(&reject(), 7, alice(), 9, vec![0u8; 8]);
    assert_eq!(r, Err(Error::InvalidMove));
    assert_eq!(c.get_game(7).unwrap(), before);
}

#[test]
fn missing_key_blocks_reveal() {
    let mut c = ZkGameTheoryContract::new(
        admin(),
        AccountId(101),
        AccountId(102),
        AccountId(103),
        None,
    );
    c.start_game(7, alice(), bob(), 100, 100).unwrap();
    c.commit_move(7, alice(), digest(11)).unwrap();
    let before = c.get_game(7).unwrap();
    let r = c.reveal_move(&accept(), 7, alice(), COOPERATE, vec![0u8; 8]);
    assert_eq!(r, Err(Error::VkNotSet));
    assert_eq!(c.get_game(7).unwrap(), before);
}

#[test]
fn oracle_binds_the_revealed_move() {
    let mut c = started(7);
    c.commit_move(7, alice(), digest(11)).unwrap();
    let bound = MoveBoundVerifier { bound_move: COOPERATE };
    let before = c.get_game(7).unwrap();
    let wrong = c.reveal_move(&bound, 7, alice(), DEFECT, vec![0u8; 8]);
    assert_eq!(wrong, Err(Error::VerificationFailed));
    assert_eq!(c.get_game(7).unwrap(), before);
    let right = c
        .reveal_move(&bound, 7, alice(), COOPERATE, vec![0u8; 8])
        .unwrap();
    assert!(right.is_none());
    let g = c.get_game(7).unwrap();
    assert_eq!(g.p1_moves[0], Some(COOPERATE));
}

#[test]
fn second_reveal_rejected() {
    let mut c = started(7);
    c.commit_move(7, alice(), digest(11)).unwrap();
    let first = c
        .reveal_move(&accept(), 7, alice(), COOPERATE, vec![0u8; 8])
        .unwrap();
    assert!(first.is_none());
    let r = c.reveal_move(&accept(), 7, alice(), DEFECT, vec![0u8; 8]);
    assert_eq!(r, Err(Error::AlreadyRevealed));
    let g = c.get_game(7).unwrap();
    assert_eq!(g.p1_moves[0], Some(COOPERATE));
}

#[test]
fn reveal_allowed_before_opponent_commits() {
    let mut c = started(7);
    c.commit_move(7, alice(), digest(11)).unwrap();
    let first = c
        .reveal_move(&accept(), 7, alice(), COOPERATE, vec![0u8; 8])
        .unwrap();
    assert!(first.is_none());
    c.commit_move(7, bob(), digest(22)).unwrap();
    let second = c
        .reveal_move(&accept(), 7, bob(), COOPERATE, vec![0u8; 8])
        .unwrap();
    assert!(second.is_none());
    let g = c.get_game(7).unwrap();
    assert_eq!((g.p1_score, g.p2_score), (3, 3));
    assert_eq!(g.current_round, 2);
}

#[test]
fn each_outcome_scores_its_exact_deltas() {
    let outcomes = vec![
        (COOPERATE, COOPERATE, 3, 3),
        (DEFECT, DEFECT, 1, 1),
        (COOPERATE, DEFECT, 0, 5),
        (DEFECT, COOPERATE, 5, 0),
    ];
    for (m1, m2, d1, d2) in outcomes {
        let mut c = started(7);
        let settlement = play_round(&mut c, 7, m1, m2);
        assert!(settlement.is_none());
        let g = c.get_game(7).unwrap();
        assert_eq!((g.p1_score, g.p2_score), (d1, d2));
        assert_eq!(g.current_round, 2);
        assert!(!g.is_complete);
    }
}

#[test]
fn full_cooperation_match_settles_with_tie_for_player1() {
    let mut c = started(7);
    for round in 1..=4u32 {
        let settlement = play_round(&mut c, 7, COOPERATE, COOPERATE);
        assert!(settlement.is_none());
        let g = c.get_game(7).unwrap();
        assert_eq!((g.p1_score, g.p2_score), (3 * round, 3 * round));
        assert_eq!(g.current_round, round + 1);
        assert!(!g.is_complete);
    }
    let settlement = play_round(&mut c, 7, COOPERATE, COOPERATE).unwrap();
    let g = c.get_game(7).unwrap();
    assert_eq!((g.p1_score, g.p2_score), (15, 15));
    assert_eq!(g.current_round, 5);
    assert!(g.is_complete);
    assert_eq!(settlement.p1_payout, 15 * POINT_VALUE);
    assert_eq!(settlement.p2_payout, 15 * POINT_VALUE);
    assert_eq!(settlement.treasury_payout, TOTAL_POOL - 30 * POINT_VALUE);
    assert_eq!(
        settlement.p1_payout + settlement.p2_payout + settlement.treasury_payout,
        TOTAL_POOL
    );
    assert!(settlement.player1_won);
}

#[test]
fn mixed_match_pays_the_defector_more() {
    let mut c = started(7);
    assert!(play_round(&mut c, 7, COOPERATE, DEFECT).is_none());
    for _ in 0..3 {
        assert!(play_round(&mut c, 7, COOPERATE, COOPERATE).is_none());
    }
    let settlement = play_round(&mut c, 7, COOPERATE, COOPERATE).unwrap();
    let g = c.get_game(7).unwrap();
    assert_eq!((g.p1_score, g.p2_score), (12, 17));
    assert!(g.is_complete);
    assert_eq!(settlement.p1_payout, 12 * POINT_VALUE);
    assert_eq!(settlement.p2_payout, 17 * POINT_VALUE);
    assert_eq!(settlement.treasury_payout, TOTAL_POOL - 29 * POINT_VALUE);
    assert_eq!(
        settlement.p1_payout + settlement.p2_payout + settlement.treasury_payout,
        TOTAL_POOL
    );
    assert!(!settlement.player1_won);
}

#[test]
fn completed_session_rejects_every_operation() {
    let mut c = started(7);
    for _ in 0..5 {
        play_round(&mut c, 7, DEFECT, DEFECT);
    }
    let before = c.get_game(7).unwrap();
    assert!(before.is_complete);
    assert_eq!(c.commit_move(7, alice(), digest(1)), Err(Error::GameAlreadyEnded));
    assert_eq!(
        c.reveal_move(&accept(), 7, alice(), COOPERATE, vec![]),
        Err(Error::GameAlreadyEnded)
    );
    assert_eq!(
        c.reveal_move(&accept(), 7, AccountId(99), COOPERATE, vec![]),
        Err(Error::GameAlreadyEnded)
    );
    assert_eq!(c.get_game(7).unwrap(), before);
}

#[test]
fn sessions_are_independent() {
    let mut c = new_contract();
    c.start_game(7, alice(), bob(), 100, 100).unwrap();
    c.start_game(8, AccountId(3), AccountId(4), 100, 100).unwrap();
    c.commit_move(7, alice(), digest(11)).unwrap();
    let other = c.get_game(8).unwrap();
    assert!(other.p1_commitments.iter().all(|s| s.is_none()));
    assert_eq!(c.commit_move(8, alice(), digest(11)), Err(Error::NotPlayer));
}
