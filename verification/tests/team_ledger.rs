use genome::error::TournamentError;
use genome::pubkey::Pubkey;
use genome::team::{RepeatedRefund, Team};

const TEAM_SIZE: u16 = 30;

fn new_pubkey(n: u64) -> Pubkey {
    let mut bytes = [0u8; 32];
    bytes[0..8].copy_from_slice(&n.to_be_bytes());
    Pubkey::new_from_array(bytes)
}

#[test]
fn test_add_participant_by_captain_success() {
    let captain = new_pubkey(1);
    let participant = new_pubkey(2);
    let mut team = Team::with_captain(captain, TEAM_SIZE);

    assert!(team.add_participant_by_captain(participant).is_ok());

    let participant_info = team.get(&participant).unwrap();
    assert_eq!(team.participants.len(), 2);
    assert!(participant_info.paid_by_captain);
    assert!(!participant_info.claimed);
}

#[test]
fn test_add_participant_by_captain_max_players() {
    let captain = new_pubkey(1);
    let participant = new_pubkey(2);
    let mut team = Team::with_captain(captain, TEAM_SIZE);

    for n in 1..TEAM_SIZE {
        assert!(team.add_participant_by_captain(new_pubkey(100 + n as u64)).is_ok());
    }

    let result = team.add_participant_by_captain(participant).expect_err("Expected an error");
    assert_eq!(result, TournamentError::MaxPlayersExceeded);
    assert_eq!(result.message(), "Max players exceeded");
}

#[test]
fn test_add_participant_by_captain_already_registered() {
    let captain = new_pubkey(1);
    let participant = new_pubkey(2);
    let mut team = Team::with_captain(captain, TEAM_SIZE);

    assert!(team.add_participant_by_captain(participant).is_ok());

    let result = team.add_participant_by_captain(participant).expect_err("Expected an error");
    assert_eq!(result, TournamentError::AlreadyRegistered);
    assert_eq!(team.participants.len(), 2);
}

#[test]
fn test_add_participant_success() {
    let captain = new_pubkey(1);
    let participant = new_pubkey(2);
    let mut team = Team::with_captain(captain, TEAM_SIZE);

    assert!(team.add_participant(participant).is_ok());

    let participant_info = team.get(&participant).unwrap();
    assert_eq!(team.participants.len(), 2);
    assert!(!participant_info.paid_by_captain);
    assert!(!participant_info.claimed);
}

#[test]
fn test_add_participant_max_players() {
    let captain = new_pubkey(1);
    let participant = new_pubkey(2);
    let mut team = Team::with_captain(captain, TEAM_SIZE);

    for n in 1..TEAM_SIZE {
        assert!(team.add_participant(new_pubkey(100 + n as u64)).is_ok());
    }

    let result = team.add_participant(participant).expect_err("Expected an error");
    assert_eq!(result, TournamentError::MaxPlayersExceeded);
}

#[test]
fn test_add_participant_already_registered() {
    let captain = new_pubkey(1);
    let participant = new_pubkey(2);
    let mut team = Team::with_captain(captain, TEAM_SIZE);

    assert!(team.add_participant(participant).is_ok());

    let result = team.add_participant(participant).expect_err("Expected an error");
    assert_eq!(result, TournamentError::AlreadyRegistered);
}

#[test]
fn test_refund_participant_success() {
    let captain = new_pubkey(1);
    let participant = new_pubkey(2);
    let mut team = Team::with_captain(captain, TEAM_SIZE);

    assert!(team.add_participant(participant).is_ok());

    let result = team.refund_participant(&participant).expect("Expected participant refunded");

    assert_eq!(result, 1);

    let participant_info = team.get(&participant).unwrap();
    assert!(participant_info.claimed);
}

#[test]
fn test_refund_participant_paid_by_captain_success() {
    let captain = new_pubkey(1);
    let participant = new_pubkey(2);
    let mut team = Team::with_captain(captain, TEAM_SIZE);

    assert!(team.add_participant_by_captain(participant).is_ok());

    let result = team.refund_participant(&participant).expect("Expected participant refunded");

    assert_eq!(result, 0);

    let participant_info = team.get(&participant).unwrap();
    assert!(participant_info.claimed);
}

#[test]
fn test_refund_captain_success() {
    let captain = new_pubkey(1);
    let participant_1 = new_pubkey(2);
    let participant_2 = new_pubkey(3);
    let participant_3 = new_pubkey(4);
    let participant_4 = new_pubkey(5);
    let mut team = Team::with_captain(captain, TEAM_SIZE);

    assert!(team.add_participant_by_captain(participant_1).is_ok());
    assert!(team.add_participant_by_captain(participant_2).is_ok());
    assert!(team.add_participant_by_captain(participant_3).is_ok());
    assert!(team.add_participant(participant_4).is_ok());

    let result = team.refund_participant(&captain).expect("Expected participant refunded");

    assert_eq!(result, 4);
}

#[test]
fn test_refund_participant_not_found() {
    let captain = new_pubkey(1);
    let participant = new_pubkey(2);
    let mut team = Team::with_captain(captain, TEAM_SIZE);

    let result = team.refund_participant(&participant).expect_err("Expected an error");
    assert_eq!(result, TournamentError::ParticipantNotFound);
}

#[test]
fn refund_is_paid_once_under_either_policy() {
    let captain = new_pubkey(1);
    let participant = new_pubkey(2);
    let mut strict = Team::with_captain(captain, TEAM_SIZE);
    assert!(strict.add_participant(participant).is_ok());
    assert_eq!(strict.refund_participant(&participant), Ok(1));
    assert_eq!(strict.refund_participant(&participant), Err(TournamentError::AlreadyClaimed));
    assert_eq!(
        strict.refund_participant_with(&participant, RepeatedRefund::Rejected),
        Err(TournamentError::AlreadyClaimed)
    );

    let mut lenient = Team::with_captain(captain, TEAM_SIZE);
    assert!(lenient.add_participant(participant).is_ok());
    assert_eq!(lenient.refund_participant_with(&participant, RepeatedRefund::PaysNothing), Ok(1));
    let before = lenient.clone();
    assert_eq!(lenient.refund_participant_with(&participant, RepeatedRefund::PaysNothing), Ok(0));
    assert_eq!(lenient, before);
}

#[test]
fn captain_refund_counts_only_members_not_yet_claimed() {
    let captain = new_pubkey(1);
    let mate_1 = new_pubkey(2);
    let mate_2 = new_pubkey(3);
    let mut team = Team::new(captain, 3);
    assert!(team.add_participants_by_captain(vec![captain, mate_1, mate_2]).is_ok());
    assert!(team.completed);
    assert_eq!(team.count_owed_to_captain(), 3);

    assert_eq!(team.refund_participant(&mate_1), Ok(0));
    assert_eq!(team.count_owed_to_captain(), 2);
    assert_eq!(team.refund_participant(&captain), Ok(2));
    assert_eq!(team.refund_participant(&captain), Err(TournamentError::AlreadyClaimed));
    assert_eq!(team.refund_participant(&mate_2), Ok(0));
    assert_eq!(team.count_owed_to_captain(), 0);
}

#[test]
fn captain_who_paid_their_own_fee_is_refunded_one() {
    let captain = new_pubkey(1);
    let mate = new_pubkey(2);
    let mut team = Team::new(captain, 4);
    assert!(team.add_participant(captain).is_ok());
    assert!(team.add_participant_by_captain(mate).is_ok());
    assert_eq!(team.refund_participant(&captain), Ok(1));
}

#[test]
fn captain_registered_with_k_teammates_is_refunded_k_plus_one() {
    for k in 0u64..6 {
        let captain = new_pubkey(1);
        let mut batch = vec![captain];
        for n in 0..k {
            batch.push(new_pubkey(10 + n));
        }
        let mut team = Team::new(captain, 8);
        assert!(team.add_participants_by_captain(batch).is_ok());
        assert_eq!(team.refund_participant(&captain), Ok(k as usize + 1));
    }
}

#[test]
fn completed_flips_when_the_roster_fills_and_never_again() {
    let captain = new_pubkey(1);
    let mut team = Team::new(captain, 3);
    assert!(!team.completed);
    assert!(team.add_participants_by_captain(vec![captain, new_pubkey(2)]).is_ok());
    assert!(!team.completed);
    assert!(team.add_participant(new_pubkey(3)).is_ok());
    assert!(team.completed);
    let full = team.clone();
    assert_eq!(team.add_participant(new_pubkey(4)), Err(TournamentError::MaxPlayersExceeded));
    assert_eq!(
        team.add_participants_by_captain(vec![new_pubkey(5)]),
        Err(TournamentError::MaxPlayersExceeded)
    );
    assert_eq!(team, full);
    assert!(team.reward_participant(&captain).is_ok());
    assert!(team.completed);
}

#[test]
fn batch_is_added_whole_or_not_at_all() {
    let captain = new_pubkey(1);
    let mut team = Team::new(captain, 4);
    assert!(team.add_participant(new_pubkey(2)).is_ok());
    let before = team.clone();

    let too_many = vec![captain, new_pubkey(3), new_pubkey(4), new_pubkey(5)];
    assert_eq!(team.add_participants_by_captain(too_many), Err(TournamentError::MaxPlayersExceeded));
    assert_eq!(team, before);

    let twice = vec![captain, new_pubkey(3), captain];
    assert_eq!(team.add_participants_by_captain(twice), Err(TournamentError::AlreadyRegistered));
    assert_eq!(team, before);

    let known = vec![captain, new_pubkey(2)];
    assert_eq!(team.add_participants_by_captain(known), Err(TournamentError::AlreadyRegistered));
    assert_eq!(team, before);

    assert!(team.add_participants_by_captain(vec![]).is_ok());
    assert_eq!(team, before);

    assert!(team.add_participants_by_captain(vec![captain, new_pubkey(3), new_pubkey(4)]).is_ok());
    assert_eq!(team.len(), 4);
    assert!(team.completed);
    assert_eq!(team.position_of(&captain), Some(1));
    assert_eq!(team.position_of(&new_pubkey(9)), None);
}

#[test]
fn team_of_size_zero_takes_nobody() {
    let captain = new_pubkey(1);
    let mut team = Team::new(captain, 0);
    assert_eq!(team.add_participant(captain), Err(TournamentError::MaxPlayersExceeded));
    assert_eq!(
        team.add_participants_by_captain(vec![captain]),
        Err(TournamentError::MaxPlayersExceeded)
    );
    assert!(team.add_participants_by_captain(vec![]).is_ok());
    assert!(!team.completed);
}

#[test]
fn team_of_one_is_complete_with_its_captain() {
    let captain = new_pubkey(1);
    let team = Team::with_captain(captain, 1);
    assert!(team.completed);
    assert_eq!(team.len(), 1);
}

#[test]
fn reward_is_claimed_once() {
    let captain = new_pubkey(1);
    let mate = new_pubkey(2);
    let mut team = Team::new(captain, 2);
    assert!(team.add_participants_by_captain(vec![captain, mate]).is_ok());
    assert_eq!(team.reward_participant(&mate), Ok(()));
    assert!(team.get(&mate).unwrap().claimed);
    assert!(!team.get(&captain).unwrap().claimed);
    assert_eq!(team.reward_participant(&mate), Err(TournamentError::AlreadyClaimed));
    assert_eq!(team.reward_participant(&new_pubkey(3)), Err(TournamentError::ParticipantNotFound));
}
