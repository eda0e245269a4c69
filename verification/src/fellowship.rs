//! The roles of the fellowship, and the checks that other engines make against
//! them.
use crate::per_account::{find_entry, record_entry, recorded, value_of};
use crate::types::{AccountId, BadOrigin};
use vstd::prelude::*;

verus! {

/// What a fellow does in the fellowship.
#[derive(Clone, Copy, Debug, PartialEq, Eq, Structural)]
pub enum Role {
    Vetter,
    Freelancer,
    BusinessDev,
    Approver,
}

/// The roster of the fellowship, asked whether an account holds a role.
pub struct EnsureFellowshipRole {
    roles: Vec<(AccountId, Role)>,
    vetters: Vec<(AccountId, AccountId)>,
}

/// The fee that a fellow of a given role is charged, in percent.
pub struct RoleToPercentFee;

/// Whether `role` is one of `roles`.
pub open spec fn is_among(roles: Seq<Role>, role: Role) -> bool {
    roles.contains(role)
}

impl EnsureFellowshipRole {
    /// The role of each fellow.
    pub closed spec fn roles(&self) -> Seq<(AccountId, Role)> {
        self.roles@
    }

    /// The vetter of each fellow who has one.
    pub closed spec fn vetters(&self) -> Seq<(AccountId, AccountId)> {
        self.vetters@
    }

    /// A fellowship without fellows.
    pub fn new() -> (roster: EnsureFellowshipRole)
        ensures
            roster.roles() == Seq::<(AccountId, Role)>::empty(),
            roster.vetters() == Seq::<(AccountId, AccountId)>::empty(),
    {
        EnsureFellowshipRole { roles: Vec::new(), vetters: Vec::new() }
    }

    /// Makes `who` a fellow of the given role, in place of an earlier role.
    pub fn set_role(&mut self, who: AccountId, role: Role)
        ensures
            final(self).roles() == recorded(old(self).roles(), who, role),
            final(self).vetters() == old(self).vetters(),
    {
        record_entry(&mut self.roles, who, role);
    }

    /// Makes `vetter` the vetter of `fellow`, in place of an earlier vetter.
    pub fn set_vetter(&mut self, fellow: AccountId, vetter: AccountId)
        ensures
            final(self).vetters() == recorded(old(self).vetters(), fellow, vetter),
            final(self).roles() == old(self).roles(),
    {
        record_entry(&mut self.vetters, fellow, vetter);
    }

    /// The role of `who`, if `who` is a fellow.
    pub fn role_of(&self, who: &AccountId) -> (r: Option<Role>)
        ensures
            r == value_of(self.roles(), *who),
    {
        match find_entry(&self.roles, who) {
            Some(i) => Some(self.roles[i].1),
            None => None,
        }
    }

    /// Accepts `acc` if it is a fellow of exactly the role `role`.
    pub fn ensure_role(&self, acc: &AccountId, role: Role) -> (r: Result<(), BadOrigin>)
        ensures
            r.is_ok() <==> value_of(self.roles(), *acc) == Some(role),
    {
        match self.role_of(acc) {
            Some(actual) => {
                if role == actual {
                    Ok(())
                } else {
                    Err(BadOrigin)
                }
            },
            None => Err(BadOrigin),
        }
    }

    /// Accepts `acc` if it is a fellow of one of the roles `roles`.
    pub fn ensure_role_in(&self, acc: &AccountId, roles: Vec<Role>) -> (r: Result<(), BadOrigin>)
        ensures
            r.is_ok() <==> (value_of(self.roles(), *acc).is_some() && is_among(
                roles@,
                value_of(self.roles(), *acc).unwrap(),
            )),
    {
        let role = match self.role_of(acc) {
            Some(role) => role,
            None => {
                return Err(BadOrigin);
            },
        };
        let mut i: usize = 0;
        while i < roles.len()
            invariant
                i <= roles@.len(),
                value_of(self.roles(), *acc) == Some(role),
                forall|j: int| 0 <= j < i ==> roles@[j] != role,
            decreases roles@.len() - i,
        {
            if roles[i] == role {
                assert(roles@[i as int] == role);
                return Ok(());
            }
            i += 1;
        }
        Err(BadOrigin)
    }

    /// The vetter of `fellow`, if `fellow` has one.
    pub fn maybe_convert(&self, fellow: &AccountId) -> (r: Option<AccountId>)
        ensures
            r == value_of(self.vetters(), *fellow),
    {
        match find_entry(&self.vetters, fellow) {
            Some(i) => Some(self.vetters[i].1),
            None => None,
        }
    }
}

impl RoleToPercentFee {
    /// The fee of a fellow of the role `role`, in percent: fifty for every
    /// role.
    pub fn convert(role: Role) -> (percent: u8)
        ensures
            percent == 50,
    {
        match role {
            Role::Vetter => 50,
            Role::Freelancer => 50,
            Role::BusinessDev => 50,
            Role::Approver => 50,
        }
    }
}

} // verus!
