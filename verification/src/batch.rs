//! Simulated user lookup and batch fetching.
//!
//! `fetch_user_data` is the decision part of a simulated remote lookup: an
//! even identity yields a synthesized viewer, an odd one a `NotFound`
//! failure. `process_user_batch` fans a list of identities out over that
//! lookup, discards individual failures, and fails only on empty input or
//! when every lookup failed. Both are pure; a caller that wants the simulated
//! per-lookup delay or real concurrency wraps them in its own tasks.

use vstd::prelude::*;
use vstd::string::StringExecFns;

use crate::errors::AppError;
use crate::text::{spec_decimal, u64_to_string};
use crate::user::{Role, User};

verus! {

/// The user that a successful simulated lookup of `id` synthesizes: a fresh
/// active viewer whose name and email embed the identity in decimal.
pub open spec fn is_fetched_user(id: u64, u: User) -> bool {
    &&& u.id == id
    &&& u.name@ == "User "@ + spec_decimal(id as nat)
    &&& u.email@ == "user"@ + spec_decimal(id as nat) + "@example.com"@
    &&& u.role == Role::Viewer
    &&& u.active
}

/// The identities in `ids` whose simulated lookup succeeds, in input order.
pub open spec fn even_ids(ids: Seq<u64>) -> Seq<u64> {
    ids.filter(|id: u64| id % 2 == 0)
}

/// Simulated lookup of one user: succeeds with a synthesized viewer exactly
/// when the identity is even, and fails with `NotFound`, naming the identity,
/// when it is odd.
pub fn fetch_user_data(user_id: u64) -> (r: Result<User, AppError>)
    ensures
        r is Ok <==> user_id % 2 == 0,
        r matches Ok(u) ==> is_fetched_user(user_id, u),
        r matches Err(e) ==> e matches AppError::NotFound(m) && m@ == "User "@ + spec_decimal(
            user_id as nat,
        ) + " not found"@,
{
    if user_id % 2 == 0 {
        let digits = u64_to_string(user_id);
        let name = String::from_str("User ").concat(digits.as_str());
        let email = String::from_str("user").concat(digits.as_str()).concat("@example.com");
        Ok(User::new(user_id, name, email, Role::Viewer))
    } else {
        let msg = String::from_str("User ").concat(u64_to_string(user_id).as_str()).concat(
            " not found",
        );
        Err(AppError::NotFound(msg))
    }
}

/// Looks every identity in `user_ids` up and keeps the successful results, in
/// input order.
///
/// Fails with `InvalidInput` exactly when `user_ids` is empty, and with
/// `NotFound` exactly when it is not empty but every lookup failed; otherwise
/// returns one synthesized user per identity whose lookup succeeded.
pub fn process_user_batch(user_ids: Vec<u64>) -> (r: Result<Vec<User>, AppError>)
    ensures
        match r {
            Ok(users) => {
                &&& user_ids@.len() > 0
                &&& users@.len() == even_ids(user_ids@).len()
                &&& users@.len() > 0
                &&& forall|j: int|
                    0 <= j < users@.len() ==> is_fetched_user(
                        even_ids(user_ids@)[j],
                        #[trigger] users@[j],
                    )
            },
            Err(e) => match e {
                AppError::InvalidInput(m) => user_ids@.len() == 0 && m@ == "Empty user id list"@,
                AppError::NotFound(m) => {
                    &&& user_ids@.len() > 0
                    &&& even_ids(user_ids@).len() == 0
                    &&& m@ == "No users found"@
                },
                AppError::DatabaseError(_) => false,
            },
        },
{
    if user_ids.is_empty() {
        return Err(AppError::InvalidInput(String::from_str("Empty user id list")));
    }

    let mut users: Vec<User> = Vec::new();

    proof {
        reveal(Seq::filter);
        assert(user_ids@.take(0) =~= Seq::<u64>::empty());
    }

    let mut i: usize = 0;
    while i < user_ids.len()
        invariant
            i <= user_ids@.len(),
            users@.len() == even_ids(user_ids@.take(i as int)).len(),
            forall|j: int|
                0 <= j < users@.len() ==> is_fetched_user(
                    even_ids(user_ids@.take(i as int))[j],
                    #[trigger] users@[j],
                ),
        decreases user_ids@.len() - i,
    {
        proof {
            reveal(Seq::filter);
            let t = user_ids@.take(i + 1);
            assert(t.drop_last() =~= user_ids@.take(i as int));
            assert(t.last() == user_ids@[i as int]);
        }
        match fetch_user_data(user_ids[i]) {
            Ok(user) => users.push(user),
            Err(_) => {},
        }
        i += 1;
    }

    proof {
        assert(user_ids@.take(user_ids@.len() as int) =~= user_ids@);
    }

    if users.is_empty() {
        return Err(AppError::NotFound(String::from_str("No users found")));
    }

    Ok(users)
}

} // verus!
