use genome::pubkey::Pubkey;
use genome::winner::{count_votes_for, plurality, resolve_winner};

fn key(n: u8) -> Pubkey {
    Pubkey::new_from_array([n; 32])
}

#[test]
fn nobody_wins_without_votes() {
    assert_eq!(resolve_winner(&vec![]), None);
}

#[test]
fn the_captain_named_most_often_wins() {
    let votes = vec![key(1), key(2), key(2), key(3), key(2), key(1)];
    assert_eq!(count_votes_for(&votes, &key(1)), 2);
    assert_eq!(count_votes_for(&votes, &key(2)), 3);
    assert_eq!(count_votes_for(&votes, &key(9)), 0);
    assert_eq!(resolve_winner(&votes), Some(key(2)));
    assert_eq!(plurality(&votes), key(2));
}

#[test]
fn of_captains_named_equally_often_the_first_named_wins() {
    assert_eq!(resolve_winner(&vec![key(5), key(4)]), Some(key(5)));
    assert_eq!(resolve_winner(&vec![key(4), key(5)]), Some(key(4)));
    assert_eq!(resolve_winner(&vec![key(1), key(2), key(2), key(1)]), Some(key(1)));
    assert_eq!(resolve_winner(&vec![key(3), key(1), key(2), key(2), key(1)]), Some(key(1)));
    assert_eq!(resolve_winner(&vec![key(7)]), Some(key(7)));
}
