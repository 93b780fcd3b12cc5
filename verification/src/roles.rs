//! Roles and per-operation allow-sets.
//!
//! A role is a closed enumeration; exactly one is associated with a user at a
//! time. Access checks are membership tests against an explicit allow-set per
//! protected operation, never a numeric comparison: no role subsumes another.

use vstd::prelude::*;

verus! {

/// The closed set of roles a user can hold.
#[derive(Clone, Copy, Debug, PartialEq, Eq, Structural)]
pub enum Role {
    User,
    Moderator,
    Admin,
}

/// The set of roles admitted by one protected operation, fixed at
/// configuration time. A valid configuration admits at least one role.
#[derive(Clone, Copy, Debug, PartialEq, Eq, Structural)]
pub struct RoleSet {
    pub user: bool,
    pub moderator: bool,
    pub admin: bool,
}

impl RoleSet {
    /// Whether `role` is a member of this allow-set.
    pub open spec fn spec_contains(self, role: Role) -> bool {
        match role {
            Role::User => self.user,
            Role::Moderator => self.moderator,
            Role::Admin => self.admin,
        }
    }

    /// A guarded operation must admit at least one role; an empty set is a
    /// configuration error, not a runtime path.
    pub open spec fn is_valid_config(self) -> bool {
        self.user || self.moderator || self.admin
    }

    /// Membership test used by the access guard.
    pub fn contains(&self, role: Role) -> (r: bool)
        ensures
            r == self.spec_contains(role),
    {
        match role {
            Role::User => self.user,
            Role::Moderator => self.moderator,
            Role::Admin => self.admin,
        }
    }

    /// Builds the allow-set admitting exactly the roles listed.
    pub fn from_roles(roles: &Vec<Role>) -> (r: RoleSet)
        ensures
            forall|role: Role| r.spec_contains(role) <==> roles@.contains(role),
    {
        let mut r = RoleSet { user: false, moderator: false, admin: false };
        let mut i: usize = 0;
        while i < roles.len()
            invariant
                i <= roles@.len(),
                forall|role: Role| #[trigger] r.spec_contains(role) <==> exists|j: int|
                    0 <= j < i && roles@[j] == role,
            decreases roles@.len() - i,
        {
            let role = roles[i];
            let ghost prev = r;
            match role {
                Role::User => {
                    r.user = true;
                },
                Role::Moderator => {
                    r.moderator = true;
                },
                Role::Admin => {
                    r.admin = true;
                },
            }
            proof {
                assert forall|x: Role| #[trigger] r.spec_contains(x) implies exists|j: int|
                    0 <= j < i + 1 && roles@[j] == x by {
                    if prev.spec_contains(x) {
                        let j = choose|j: int| 0 <= j < i && roles@[j] == x;
                        assert(0 <= j < i + 1 && roles@[j] == x);
                    } else {
                        assert(roles@[i as int] == x);
                    }
                }
                assert forall|x: Role| (exists|j: int| 0 <= j < i + 1 && roles@[j] == x)
                    implies #[trigger] r.spec_contains(x) by {
                    let j = choose|j: int| 0 <= j < i + 1 && roles@[j] == x;
                    if j < i {
                        assert(prev.spec_contains(x));
                    }
                }
            }
            i = i + 1;
        }
        proof {
            assert forall|x: Role| #[trigger] roles@.contains(x) implies r.spec_contains(x) by {
                let j = choose|j: int| 0 <= j < roles@.len() && roles@[j] == x;
                assert(exists|k: int| 0 <= k < i && roles@[k] == x);
            }
            assert forall|x: Role| r.spec_contains(x) implies roles@.contains(x) by {
                let j = choose|j: int| 0 <= j < i && roles@[j] == x;
                assert(roles@[j] == x);
            }
        }
        r
    }
}

} // verus!
