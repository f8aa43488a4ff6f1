//! Grouping users by role, and applying a caller-supplied transformation to
//! each user.

use vstd::prelude::*;
use vstd::string::StringExecFns;

use crate::errors::AppError;
use crate::user::{Role, User};

verus! {

/// Whether `u` survives the inactive-user filter: with the flag off every
/// user survives, with it on only active users do.
pub open spec fn survives(u: User, filter_inactive: bool) -> bool {
    !filter_inactive || u.active
}

/// The users of `users` that carry `role` and survive the filter, in input
/// order.
pub open spec fn group_of(users: Seq<User>, filter_inactive: bool, role: Role) -> Seq<User> {
    users.filter(|u: User| survives(u, filter_inactive) && u.role == role)
}

/// The users of one grouping run, split by role: each group holds the
/// surviving users of that role in input order, and a role nobody carries has
/// an empty group.
pub struct RoleGroups {
    pub admins: Vec<User>,
    pub editors: Vec<User>,
    pub viewers: Vec<User>,
}

impl RoleGroups {
    /// The group for `role`.
    pub fn get(&self, role: Role) -> (r: &Vec<User>)
        ensures
            *r == match role {
                Role::Admin => self.admins,
                Role::Editor => self.editors,
                Role::Viewer => self.viewers,
            },
    {
        match role {
            Role::Admin => &self.admins,
            Role::Editor => &self.editors,
            Role::Viewer => &self.viewers,
        }
    }

    /// How many distinct roles have at least one user in their group.
    pub fn len(&self) -> (r: usize)
        ensures
            r == (if self.admins@.len() > 0 { 1int } else { 0int }) + (if self.editors@.len() > 0 {
                1int
            } else {
                0int
            }) + (if self.viewers@.len() > 0 { 1int } else { 0int }),
    {
        let mut n: usize = 0;
        if self.admins.len() > 0 {
            n += 1;
        }
        if self.editors.len() > 0 {
            n += 1;
        }
        if self.viewers.len() > 0 {
            n += 1;
        }
        n
    }
}

/// Groups `users` by role, optionally dropping inactive users first.
///
/// Fails with `InvalidInput` exactly when the raw input is empty - the check
/// runs before filtering, so an input whose users are all filtered out still
/// succeeds, with every group empty. On success each role's group holds
/// exactly the surviving users of that role, in input order.
pub fn process_users(users: &[User], filter_inactive: bool) -> (r: Result<RoleGroups, AppError>)
    ensures
        match r {
            Ok(g) => {
                &&& users@.len() > 0
                &&& g.admins@ == group_of(users@, filter_inactive, Role::Admin)
                &&& g.editors@ == group_of(users@, filter_inactive, Role::Editor)
                &&& g.viewers@ == group_of(users@, filter_inactive, Role::Viewer)
            },
            Err(e) => {
                &&& users@.len() == 0
                &&& e matches AppError::InvalidInput(m) && m@ == "Empty user list"@
            },
        },
{
    if users.is_empty() {
        return Err(AppError::InvalidInput(String::from_str("Empty user list")));
    }

    let mut groups = RoleGroups { admins: Vec::new(), editors: Vec::new(), viewers: Vec::new() };

    proof {
        reveal(Seq::filter);
        assert(users@.take(0) =~= Seq::<User>::empty());
    }

    let mut i: usize = 0;
    while i < users.len()
        invariant
            i <= users@.len(),
            groups.admins@ == group_of(users@.take(i as int), filter_inactive, Role::Admin),
            groups.editors@ == group_of(users@.take(i as int), filter_inactive, Role::Editor),
            groups.viewers@ == group_of(users@.take(i as int), filter_inactive, Role::Viewer),
        decreases users@.len() - i,
    {
        let user = &users[i];
        proof {
            reveal(Seq::filter);
            let t = users@.take(i + 1);
            assert(t.drop_last() =~= users@.take(i as int));
            assert(t.last() == users@[i as int]);
        }
        if !(filter_inactive && !user.active) {
            match user.role {
                Role::Admin => groups.admins.push(user.clone()),
                Role::Editor => groups.editors.push(user.clone()),
                Role::Viewer => groups.viewers.push(user.clone()),
            }
        }
        i += 1;
    }
    proof {
        assert(users@.take(users@.len() as int) =~= users@);
    }
    Ok(groups)
}

/// Applies `transformer` to each user in order; the result has one rendered
/// string per input user, each a possible output of `transformer` on the
/// corresponding user.
pub fn transform_users<F: Fn(&User) -> String>(users: &[User], transformer: F) -> (r: Vec<String>)
    requires
        forall|i: int| 0 <= i < users@.len() ==> call_requires(transformer, (&users@[i],)),
    ensures
        r@.len() == users@.len(),
        forall|i: int|
            0 <= i < users@.len() ==> call_ensures(transformer, (&users@[i],), #[trigger] r@[i]),
{
    let mut out: Vec<String> = Vec::new();
    let mut i: usize = 0;
    while i < users.len()
        invariant
            forall|k: int| 0 <= k < users@.len() ==> call_requires(transformer, (&users@[k],)),
            i <= users@.len(),
            out@.len() == i,
            forall|k: int|
                0 <= k < i ==> call_ensures(transformer, (&users@[k],), #[trigger] out@[k]),
        decreases users@.len() - i,
    {
        out.push(transformer(&users[i]));
        i += 1;
    }
    out
}

} // verus!
