use genome::data::{Role, RoleInfo, RoleList};
use genome::error::TournamentError;
use genome::pubkey::Pubkey;
use genome::roles::{handle_grant_role, handle_revoke_role};

fn key(n: u8) -> Pubkey {
    Pubkey::new_from_array([n; 32])
}

#[test]
fn a_role_is_granted_once() {
    let mut info = RoleInfo::new();
    let mut list = RoleList::new();
    assert_eq!(handle_grant_role(&mut info, &mut list, key(1), Role::Verifier), Ok(()));
    assert_eq!(info.roles, vec![Role::Verifier]);
    assert_eq!(list.accounts, vec![key(1)]);
    assert!(info.holds(Role::Verifier));
    assert!(!info.holds(Role::Operator));
    assert_eq!(
        handle_grant_role(&mut info, &mut list, key(1), Role::Verifier),
        Err(TournamentError::RoleAlreadyGranted)
    );
    assert_eq!(info.roles, vec![Role::Verifier]);
    assert_eq!(list.accounts, vec![key(1)]);
}

#[test]
fn the_panel_holds_sixty_four_verifiers() {
    let mut list = RoleList::new();
    for n in 0..64u8 {
        let mut info = RoleInfo::new();
        assert_eq!(handle_grant_role(&mut info, &mut list, key(n), Role::Verifier), Ok(()));
    }
    assert_eq!(list.len(), 64);
    let mut info = RoleInfo::new();
    assert_eq!(
        handle_grant_role(&mut info, &mut list, key(100), Role::Verifier),
        Err(TournamentError::MaxVerifiersExceeded)
    );
    assert_eq!(list.len(), 64);
    assert!(info.roles.is_empty());
    assert_eq!(list.position_of(&key(63)), Some(63));
    assert_eq!(list.position_of(&key(100)), None);
}

#[test]
fn other_roles_have_no_limit() {
    let mut list = RoleList::new();
    for n in 0..70u8 {
        let mut info = RoleInfo::new();
        assert_eq!(handle_grant_role(&mut info, &mut list, key(n), Role::Organizer), Ok(()));
    }
    assert_eq!(list.len(), 70);
}

#[test]
fn a_role_is_revoked_from_record_and_list() {
    let mut list = RoleList::new();
    let mut first = RoleInfo::new();
    let mut second = RoleInfo::new();
    let mut operators = RoleList::new();
    assert!(handle_grant_role(&mut first, &mut operators, key(1), Role::Operator).is_ok());
    assert!(handle_grant_role(&mut first, &mut list, key(1), Role::Verifier).is_ok());
    assert!(handle_grant_role(&mut second, &mut list, key(2), Role::Verifier).is_ok());
    first.claim = 5;

    assert_eq!(handle_revoke_role(&mut first, &mut list, &key(1), Role::Verifier), Ok(()));
    assert_eq!(first.roles, vec![Role::Operator]);
    assert_eq!(first.claim, 5);
    assert_eq!(list.accounts, vec![key(2)]);
    assert_eq!(list.position_of(&key(2)), Some(0));

    assert_eq!(
        handle_revoke_role(&mut first, &mut list, &key(1), Role::Verifier),
        Err(TournamentError::RoleNotFound)
    );
    assert_eq!(first.roles, vec![Role::Operator]);
    assert_eq!(list.accounts, vec![key(2)]);
}

#[test]
fn each_role_has_its_seed() {
    assert_eq!(Role::Operator.to_seed(), "operator");
    assert_eq!(Role::Verifier.to_seed(), "verifier");
    assert_eq!(Role::Organizer.to_seed(), "organizer");
}
