use genome::consensus::{count_votes, is_threshold_reached, Decision};
use genome::data::Consensus;
use genome::error::TournamentError;

#[test]
fn votes_are_counted_bit_by_bit() {
    assert_eq!(count_votes(0), 0);
    assert_eq!(count_votes(1), 1);
    assert_eq!(count_votes(0b1011), 3);
    assert_eq!(count_votes(1 << 63), 1);
    assert_eq!(count_votes(u64::MAX), 64);
    for mask in [0u64, 5, 0xff00, 0xdead_beef_0bad_f00d, u64::MAX - 1] {
        assert_eq!(count_votes(mask), mask.count_ones());
    }
}

#[test]
fn threshold_compares_basis_points_exactly() {
    assert!(!is_threshold_reached(1, 2, 5100));
    assert!(is_threshold_reached(2, 2, 5100));
    assert!(is_threshold_reached(1, 2, 5000));
    assert!(!is_threshold_reached(1, 3, 3334));
    assert!(is_threshold_reached(1, 3, 3333));
    assert!(is_threshold_reached(0, 0, 10000));
    assert!(is_threshold_reached(0, 5, 0));
    assert!(!is_threshold_reached(64, 64, 10001));
    assert!(!is_threshold_reached(64, 64, u64::MAX));
}

#[test]
fn a_verifier_votes_once_on_each_decision() {
    let mut consensus = Consensus::new(3);
    assert_eq!(consensus.cast_vote(Decision::Start, 0, 2, 5100), Ok(false));
    assert_eq!(consensus.start_votes, 1);
    assert_eq!(consensus.cancel_votes, 0);
    assert_eq!(consensus.finish_votes, 0);
    let before = consensus;
    assert_eq!(consensus.cast_vote(Decision::Start, 0, 2, 5100), Err(TournamentError::AlreadyVoted));
    assert_eq!(consensus, before);
    assert_eq!(consensus.cast_vote(Decision::Cancel, 0, 2, 5100), Ok(false));
    assert_eq!(consensus.cancel_votes, 1);
    assert_eq!(consensus.cast_vote(Decision::Start, 1, 2, 5100), Ok(true));
    assert_eq!(consensus.start_votes, 3);
    assert_eq!(consensus.cast_vote(Decision::Finish, 1, 2, 5000), Ok(true));
    assert_eq!(consensus.finish_votes, 2);
    assert_eq!(consensus.tournament_id, 3);
}

#[test]
fn the_last_position_of_a_full_panel_votes() {
    let mut consensus = Consensus::new(0);
    assert_eq!(consensus.cast_vote(Decision::Finish, 63, 64, 200), Ok(false));
    assert_eq!(consensus.finish_votes, 1 << 63);
    assert_eq!(consensus.cast_vote(Decision::Finish, 0, 64, 300), Ok(true));
}
