use genome::error::TournamentError;
use genome::pubkey::Pubkey;
use genome::team::Team;

const MAX_PARTICIPANTS: u16 = 30;

fn new_pubkey(n: u64) -> Pubkey {
    let mut bytes = [0u8; 32];
    bytes[0..8].copy_from_slice(&n.to_be_bytes());
    Pubkey::new_from_array(bytes)
}

#[test]
fn lib_test_add_participant_by_captain_success() {
    let captain = new_pubkey(1);
    let participant = new_pubkey(2);
    let mut team = Team::new(captain, MAX_PARTICIPANTS);

    let result = team.add_participant_by_captain(participant);

    assert!(result.is_ok());
    assert_eq!(team.participants.len(), 1);
    let participant_info = team.get(&participant).unwrap();
    assert!(participant_info.paid_by_captain);
    assert!(!participant_info.claimed);
}

#[test]
fn lib_test_add_participant_by_captain_max_players() {
    let captain = new_pubkey(1);
    let participant = new_pubkey(2);
    let mut team = Team::new(captain, MAX_PARTICIPANTS);

    for n in 0..MAX_PARTICIPANTS {
        let _ = team.add_participant_by_captain(new_pubkey(100 + n as u64));
    }

    let result = team.add_participant_by_captain(participant);

    match result {
        Err(err) => {
            assert_eq!(err.name(), "MaxPlayersExceeded");
        }
        _ => panic!("Expected MaxPlayersExceeded error"),
    }
}

#[test]
fn lib_test_add_participant_by_captain_already_registered() {
    let captain = new_pubkey(1);
    let participant = new_pubkey(2);
    let mut team = Team::new(captain, MAX_PARTICIPANTS);

    let _ = team.add_participant_by_captain(participant);

    let result = team.add_participant_by_captain(participant);

    match result {
        Err(err) => {
            assert_eq!(err.name(), "AlreadyRegistered");
        }
        _ => panic!("Expected AlreadyRegistered error"),
    }
}

#[test]
fn lib_test_add_participant_success() {
    let captain = new_pubkey(1);
    let participant = new_pubkey(2);
    let mut team = Team::new(captain, MAX_PARTICIPANTS);

    let result = team.add_participant(participant);

    assert!(result.is_ok());
    assert_eq!(team.participants.len(), 1);
    let participant_info = team.get(&participant).unwrap();
    assert!(!participant_info.paid_by_captain);
    assert!(!participant_info.claimed);
}

#[test]
fn lib_test_add_participant_max_players() {
    let captain = new_pubkey(1);
    let participant = new_pubkey(2);
    let mut team = Team::new(captain, MAX_PARTICIPANTS);

    for n in 0..MAX_PARTICIPANTS {
        let _ = team.add_participant(new_pubkey(100 + n as u64));
    }

    let result = team.add_participant(participant);

    match result {
        Err(err) => {
            assert_eq!(err.name(), "MaxPlayersExceeded");
        }
        _ => panic!("Expected MaxPlayersExceeded error"),
    }
}

#[test]
fn lib_test_add_participant_already_registered() {
    let captain = new_pubkey(1);
    let participant = new_pubkey(2);
    let mut team = Team::new(captain, MAX_PARTICIPANTS);

    let _ = team.add_participant(participant);

    let result = team.add_participant(participant);

    match result {
        Err(err) => {
            assert_eq!(err.name(), "AlreadyRegistered");
        }
        _ => panic!("Expected AlreadyRegistered error"),
    }
}

#[test]
fn test_get_refunde_account_success() {
    let captain = new_pubkey(1);
    let participant = new_pubkey(2);
    let mut team = Team::new(captain, MAX_PARTICIPANTS);

    let _ = team.add_participant(participant);

    let result = team.get_refund_account(&participant);

    assert!(result.is_ok());
    assert_eq!(result.unwrap(), participant);
    let participant_info = team.get(&participant).unwrap();
    assert!(participant_info.claimed);
}

#[test]
fn test_get_refunde_account_participant_not_found() {
    let captain = new_pubkey(1);
    let participant = new_pubkey(2);
    let mut team = Team::new(captain, MAX_PARTICIPANTS);

    let result = team.get_refund_account(&participant);

    match result {
        Err(err) => {
            assert_eq!(err.name(), "ParticipantNotFound");
        }
        _ => panic!("Expected ParticipantNotFound error"),
    }
}

#[test]
fn refund_account_is_given_once() {
    let captain = new_pubkey(1);
    let participant = new_pubkey(2);
    let mut team = Team::new(captain, MAX_PARTICIPANTS);
    assert!(team.add_participant(participant).is_ok());
    assert_eq!(team.get_refund_account(&participant), Ok(participant));
    let before = team.clone();
    assert_eq!(team.get_refund_account(&participant), Err(TournamentError::ParticipantNotFound));
    assert_eq!(team, before);
}
