//! Who holds which role.
//!
//! Each account has a record of its roles, and each role has a list of the
//! accounts that hold it. The list of the verifiers is the panel: a
//! verifier's position on it is their bit in the vote masks, so the panel
//! holds at most as many verifiers as a mask has bits.

use vstd::prelude::*;
use crate::consensus::MAX_VERIFIERS_COUNT;
use crate::data::{Role, RoleInfo, RoleList};
use crate::error::TournamentError;
use crate::pubkey::Pubkey;

verus! {

impl RoleInfo {
    /// A record without roles and without a balance.
    pub fn new() -> (info: RoleInfo)
        ensures
            info.roles@ == Seq::<Role>::empty(),
            info.claim == 0,
    {
        RoleInfo { roles: Vec::new(), claim: 0 }
    }

    /// Whether the account holds `role`.
    pub open spec fn has_role(&self, role: Role) -> bool {
        self.roles@.contains(role)
    }

    /// Whether `i` is the first position at which the record holds `role`.
    pub open spec fn is_position_of(&self, i: int, role: Role) -> bool {
        &&& 0 <= i < self.roles@.len()
        &&& self.roles@[i] == role
        &&& forall|j: int| 0 <= j < i ==> self.roles@[j] != role
    }

    /// The first position at which the record holds `role`.
    pub fn position_of(&self, role: Role) -> (position: Option<usize>)
        ensures
            match position {
                Some(i) => self.is_position_of(i as int, role),
                None => !self.has_role(role),
            },
    {
        let mut i: usize = 0;
        while i < self.roles.len()
            invariant
                i <= self.roles.len(),
                forall|j: int| 0 <= j < i ==> self.roles@[j] != role,
            decreases self.roles.len() - i,
        {
            if self.roles[i] == role {
                return Some(i);
            }
            i += 1;
        }
        None
    }

    /// Whether the account holds `role`.
    pub fn holds(&self, role: Role) -> (held: bool)
        ensures
            held == self.has_role(role),
    {
        self.position_of(role).is_some()
    }
}

impl RoleList {
    /// A list without accounts.
    pub fn new() -> (list: RoleList)
        ensures
            list.accounts@ == Seq::<Pubkey>::empty(),
    {
        RoleList { accounts: Vec::new() }
    }

    /// Whether `account` is on the list.
    pub open spec fn has(&self, account: Pubkey) -> bool {
        self.accounts@.contains(account)
    }

    /// Whether `i` is the first position at which the list holds `account`.
    pub open spec fn is_position_of(&self, i: int, account: Pubkey) -> bool {
        &&& 0 <= i < self.accounts@.len()
        &&& self.accounts@[i] == account
        &&& forall|j: int| 0 <= j < i ==> self.accounts@[j] != account
    }

    /// The number of accounts on the list.
    pub fn len(&self) -> (n: usize)
        ensures
            n == self.accounts@.len(),
    {
        self.accounts.len()
    }

    /// The first position at which the list holds `account`.
    pub fn position_of(&self, account: &Pubkey) -> (position: Option<usize>)
        ensures
            match position {
                Some(i) => self.is_position_of(i as int, *account),
                None => !self.has(*account),
            },
    {
        let mut i: usize = 0;
        while i < self.accounts.len()
            invariant
                i <= self.accounts.len(),
                forall|j: int| 0 <= j < i ==> self.accounts@[j] != *account,
            decreases self.accounts.len() - i,
        {
            if self.accounts[i] == *account {
                return Some(i);
            }
            i += 1;
        }
        None
    }
}

impl Role {
    /// The name under which the list of the holders of this role is kept.
    pub fn to_seed(&self) -> (seed: &'static str)
        ensures
            seed@ == match *self {
                Role::Operator => "operator"@,
                Role::Verifier => "verifier"@,
                Role::Organizer => "organizer"@,
            },
    {
        match self {
            Role::Operator => "operator",
            Role::Verifier => "verifier",
            Role::Organizer => "organizer",
        }
    }
}

/// Gives `role` to `user`: puts the role at the end of the user's record,
/// and the user at the end of `role_list`, the list of the holders of `role`.
///
/// Rejected with `RoleAlreadyGranted` if the user holds the role, else with
/// `MaxVerifiersExceeded` if the role is that of a verifier and the panel is
/// full.
pub fn handle_grant_role(
    role_info: &mut RoleInfo,
    role_list: &mut RoleList,
    user: Pubkey,
    role: Role,
) -> (result: Result<(), TournamentError>)
    ensures
        final(role_info).claim == old(role_info).claim,
        match result {
            Ok(()) => {
                &&& !old(role_info).has_role(role)
                &&& role == Role::Verifier ==> old(role_list).accounts@.len() < MAX_VERIFIERS_COUNT
                &&& final(role_info).roles@ == old(role_info).roles@.push(role)
                &&& final(role_list).accounts@ == old(role_list).accounts@.push(user)
            },
            Err(e) => {
                &&& final(role_info).roles@ == old(role_info).roles@
                &&& final(role_list).accounts@ == old(role_list).accounts@
                &&& if old(role_info).has_role(role) {
                    e == TournamentError::RoleAlreadyGranted
                } else {
                    &&& e == TournamentError::MaxVerifiersExceeded
                    &&& role == Role::Verifier
                    &&& old(role_list).accounts@.len() >= MAX_VERIFIERS_COUNT
                }
            },
        },
{
    if role_info.holds(role) {
        return Err(TournamentError::RoleAlreadyGranted);
    }
    if role == Role::Verifier && role_list.accounts.len() >= MAX_VERIFIERS_COUNT {
        return Err(TournamentError::MaxVerifiersExceeded);
    }
    role_list.accounts.push(user);
    role_info.roles.push(role);
    Ok(())
}

/// Takes `role` from `user`: removes the role from the user's record, and
/// the user from `role_list`, the list of the holders of `role`. Those behind
/// them move up by one position.
///
/// Rejected with `RoleNotFound` if the user does not hold the role. A user
/// who holds the role is on its list.
pub fn handle_revoke_role(
    role_info: &mut RoleInfo,
    role_list: &mut RoleList,
    user: &Pubkey,
    role: Role,
) -> (result: Result<(), TournamentError>)
    requires
        old(role_info).has_role(role) ==> old(role_list).has(*user),
    ensures
        final(role_info).claim == old(role_info).claim,
        match result {
            Ok(()) => {
                &&& old(role_info).has_role(role)
                &&& forall|i: int| #[trigger]
                    old(role_info).is_position_of(i, role) ==> final(role_info).roles@ == old(
                        role_info,
                    ).roles@.remove(i)
                &&& forall|i: int| #[trigger]
                    old(role_list).is_position_of(i, *user) ==> final(role_list).accounts@ == old(
                        role_list,
                    ).accounts@.remove(i)
            },
            Err(e) => {
                &&& e == TournamentError::RoleNotFound
                &&& !old(role_info).has_role(role)
                &&& final(role_info).roles@ == old(role_info).roles@
                &&& final(role_list).accounts@ == old(role_list).accounts@
            },
        },
{
    let index_role_info = match role_info.position_of(role) {
        Some(i) => i,
        None => {
            return Err(TournamentError::RoleNotFound);
        },
    };
    let index_role_list = match role_list.position_of(user) {
        Some(i) => i,
        None => {
            return Err(TournamentError::RoleNotFound);
        },
    };
    role_list.accounts.remove(index_role_list);
    role_info.roles.remove(index_role_info);
    Ok(())
}

} // verus!
