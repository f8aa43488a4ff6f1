//! An in-memory repository of users keyed by identity.
//!
//! The store is a vector of users whose identities are pairwise distinct; its
//! abstract value is the finite map from identity to user that the vector
//! spells out. Lookup, insert-or-replace, delete and enumeration are all
//! specified against that map.

use vstd::prelude::*;
use vstd::string::StringExecFns;

use crate::errors::AppError;
use crate::text::{spec_decimal, u64_to_string};
use crate::user::User;

verus! {

/// The identities in `s` are pairwise distinct.
pub open spec fn distinct_ids(s: Seq<User>) -> bool {
    forall|i: int, j: int|
        #![trigger s[i].id, s[j].id]
        0 <= i < j < s.len() ==> s[i].id != s[j].id
}

/// The map from identity to user that `s` spells out; a later entry with the
/// same identity shadows an earlier one.
pub open spec fn seq_to_map(s: Seq<User>) -> Map<u64, User>
    decreases s.len(),
{
    if s.len() == 0 {
        Map::empty()
    } else {
        seq_to_map(s.drop_last()).insert(s.last().id, s.last())
    }
}

/// A key is in the map exactly when some entry of the sequence carries it,
/// and the map is finite.
proof fn lemma_map_domain(s: Seq<User>, k: u64)
    ensures
        seq_to_map(s).contains_key(k) <==> (exists|i: int| 0 <= i < s.len() && s[i].id == k),
        seq_to_map(s).dom().finite(),
    decreases s.len(),
{
    if s.len() > 0 {
        lemma_map_domain(s.drop_last(), k);
        if seq_to_map(s).contains_key(k) {
            if s.last().id == k {
                assert(s[s.len() - 1].id == k);
            } else {
                let i = choose|i: int| 0 <= i < s.drop_last().len() && s.drop_last()[i].id == k;
                assert(s[i].id == k);
            }
        }
        if exists|i: int| 0 <= i < s.len() && s[i].id == k {
            let i = choose|i: int| 0 <= i < s.len() && s[i].id == k;
            if i < s.len() - 1 {
                assert(s.drop_last()[i].id == k);
            }
        }
    }
}

/// With distinct identities, the map sends the identity of each entry to that
/// entry.
proof fn lemma_map_index(s: Seq<User>, i: int)
    requires
        distinct_ids(s),
        0 <= i < s.len(),
    ensures
        seq_to_map(s).contains_key(s[i].id),
        seq_to_map(s)[s[i].id] == s[i],
    decreases s.len(),
{
    if i < s.len() - 1 {
        assert(distinct_ids(s.drop_last()));
        lemma_map_index(s.drop_last(), i);
        assert(s.drop_last()[i] == s[i]);
        assert(s[i].id != s.last().id);
    }
}

/// Overwriting the entry at `i` with a user of the same identity inserts that
/// user into the map.
proof fn lemma_map_update(s: Seq<User>, i: int, u: User)
    requires
        distinct_ids(s),
        0 <= i < s.len(),
        s[i].id == u.id,
    ensures
        seq_to_map(s.update(i, u)) == seq_to_map(s).insert(u.id, u),
        distinct_ids(s.update(i, u)),
    decreases s.len(),
{
    let t = s.update(i, u);
    assert(distinct_ids(t));
    if i == s.len() - 1 {
        assert(t.drop_last() =~= s.drop_last());
        assert(t.last() == u);
        assert(seq_to_map(t) =~= seq_to_map(s).insert(u.id, u));
    } else {
        assert(t.drop_last() =~= s.drop_last().update(i, u));
        assert(t.last() == s.last());
        assert(distinct_ids(s.drop_last()));
        assert(s.drop_last()[i] == s[i]);
        lemma_map_update(s.drop_last(), i, u);
        assert(u.id != s.last().id);
        assert(seq_to_map(t) =~= seq_to_map(s).insert(u.id, u));
    }
}

/// Appending a user whose identity is absent inserts it into the map and
/// keeps the identities distinct.
proof fn lemma_map_push(s: Seq<User>, u: User)
    requires
        distinct_ids(s),
        forall|i: int| 0 <= i < s.len() ==> (#[trigger] s[i].id) != u.id,
    ensures
        seq_to_map(s.push(u)) == seq_to_map(s).insert(u.id, u),
        distinct_ids(s.push(u)),
{
    assert(s.push(u).drop_last() =~= s);
    assert(s.push(u).last() == u);
}

/// Removing the entry at `i` removes its identity from the map and keeps the
/// identities distinct.
proof fn lemma_map_remove(s: Seq<User>, i: int)
    requires
        distinct_ids(s),
        0 <= i < s.len(),
    ensures
        seq_to_map(s.remove(i)) == seq_to_map(s).remove(s[i].id),
        distinct_ids(s.remove(i)),
    decreases s.len(),
{
    let t = s.remove(i);
    let k = s[i].id;
    assert(distinct_ids(t)) by {
        assert forall|a: int, b: int| 0 <= a < b < t.len() implies t[a].id != t[b].id by {
            let a0 = if a < i { a } else { a + 1 };
            let b0 = if b < i { b } else { b + 1 };
            assert(t[a] == s[a0]);
            assert(t[b] == s[b0]);
        }
    }
    assert(distinct_ids(s.drop_last()));
    lemma_map_domain(s.drop_last(), k);
    if i == s.len() - 1 {
        assert(t =~= s.drop_last());
        assert(!seq_to_map(s.drop_last()).contains_key(k));
        assert(seq_to_map(t) =~= seq_to_map(s).remove(k));
    } else {
        assert(t.drop_last() =~= s.drop_last().remove(i));
        assert(t.last() == s.last());
        assert(s.drop_last()[i] == s[i]);
        lemma_map_remove(s.drop_last(), i);
        assert(k != s.last().id);
        assert(seq_to_map(t) =~= seq_to_map(s).remove(k));
    }
}

/// With distinct identities the map has exactly one entry per element.
proof fn lemma_map_len(s: Seq<User>)
    requires
        distinct_ids(s),
    ensures
        seq_to_map(s).dom().finite(),
        seq_to_map(s).dom().len() == s.len(),
    decreases s.len(),
{
    if s.len() == 0 {
        assert(seq_to_map(s).dom() =~= Set::<u64>::empty());
    } else {
        assert(distinct_ids(s.drop_last()));
        lemma_map_len(s.drop_last());
        lemma_map_domain(s.drop_last(), s.last().id);
        assert(forall|i: int|
            0 <= i < s.drop_last().len() ==> (#[trigger] s.drop_last()[i].id) != s.last().id);
        assert(!seq_to_map(s.drop_last()).contains_key(s.last().id));
        assert(seq_to_map(s).dom() =~= seq_to_map(s.drop_last()).dom().insert(s.last().id));
    }
}

/// An in-memory keyed collection of users with lookup, insert-or-replace,
/// delete and enumeration.
pub struct UserRepository {
    users: Vec<User>,
}

impl View for UserRepository {
    type V = Map<u64, User>;

    closed spec fn view(&self) -> Map<u64, User> {
        seq_to_map(self.users@)
    }
}

impl UserRepository {
    /// The repository's internal invariant: stored identities are pairwise
    /// distinct, so each identity names at most one user.
    pub closed spec fn wf(&self) -> bool {
        distinct_ids(self.users@)
    }

    /// Creates an empty repository.
    pub fn new() -> (r: Self)
        ensures
            r.wf(),
            r@ == Map::<u64, User>::empty(),
    {
        UserRepository { users: Vec::new() }
    }

    /// The index of the stored user with identity `id`, if any.
    fn find_index(&self, id: u64) -> (r: Option<usize>)
        ensures
            match r {
                Some(i) => i < self.users@.len() && self.users@[i as int].id == id,
                None => forall|i: int|
                    0 <= i < self.users@.len() ==> (#[trigger] self.users@[i].id) != id,
            },
    {
        let mut i: usize = 0;
        while i < self.users.len()
            invariant
                i <= self.users@.len(),
                forall|j: int| 0 <= j < i ==> (#[trigger] self.users@[j].id) != id,
            decreases self.users@.len() - i,
        {
            if self.users[i].id == id {
                return Some(i);
            }
            i += 1;
        }
        None
    }

    /// Looks a user up by identity. Returns a copy of the stored user, or
    /// nothing when the identity is absent; absence is not an error.
    pub fn find_by_id(&self, id: u64) -> (r: Option<User>)
        requires
            self.wf(),
        ensures
            match r {
                Some(u) => self@.contains_key(id) && u == self@[id],
                None => !self@.contains_key(id),
            },
    {
        proof {
            lemma_map_domain(self.users@, id);
        }
        match self.find_index(id) {
            Some(i) => {
                proof {
                    lemma_map_index(self.users@, i as int);
                }
                Some(self.users[i].clone())
            },
            None => None,
        }
    }

    /// Inserts `user`, replacing any stored user with the same identity.
    /// Always succeeds.
    pub fn save(&mut self, user: User) -> (r: Result<(), AppError>)
        requires
            old(self).wf(),
        ensures
            final(self).wf(),
            r is Ok,
            final(self)@ == old(self)@.insert(user.id, user),
    {
        let ghost s = self.users@;
        match self.find_index(user.id) {
            Some(i) => {
                proof {
                    lemma_map_update(s, i as int, user);
                }
                self.users.set(i, user);
            },
            None => {
                proof {
                    lemma_map_push(s, user);
                }
                self.users.push(user);
            },
        }
        Ok(())
    }

    /// Deletes the user with identity `id`. Fails with `NotFound`, naming the
    /// identity, when it is absent; otherwise removes exactly that entry.
    pub fn delete(&mut self, id: u64) -> (r: Result<(), AppError>)
        requires
            old(self).wf(),
        ensures
            final(self).wf(),
            match r {
                Ok(()) => old(self)@.contains_key(id) && final(self)@ == old(self)@.remove(id),
                Err(e) => {
                    &&& !old(self)@.contains_key(id)
                    &&& *final(self) == *old(self)
                    &&& e matches AppError::NotFound(m)
                        && m@ == "User with id "@ + spec_decimal(id as nat) + " not found"@
                },
            },
    {
        let ghost s = self.users@;
        proof {
            lemma_map_domain(s, id);
        }
        match self.find_index(id) {
            Some(i) => {
                proof {
                    lemma_map_remove(s, i as int);
                }
                self.users.remove(i);
                Ok(())
            },
            None => {
                let msg = String::from_str("User with id ").concat(
                    u64_to_string(id).as_str(),
                ).concat(" not found");
                Err(AppError::NotFound(msg))
            },
        }
    }

    /// A snapshot of all stored users, in unspecified order: one copy per map
    /// entry, each carried under its own identity.
    pub fn find_all(&self) -> (r: Vec<User>)
        requires
            self.wf(),
        ensures
            r@.len() == self@.dom().len(),
            distinct_ids(r@),
            forall|i: int|
                0 <= i < r@.len() ==> self@.contains_key(#[trigger] r@[i].id) && self@[r@[i].id]
                    == r@[i],
            forall|k: u64| #[trigger]
                self@.contains_key(k) ==> exists|i: int| 0 <= i < r@.len() && r@[i].id == k,
    {
        proof {
            lemma_map_len(self.users@);
        }
        let mut out: Vec<User> = Vec::new();
        let mut i: usize = 0;
        while i < self.users.len()
            invariant
                self.wf(),
                i <= self.users@.len(),
                out@ =~= self.users@.take(i as int),
            decreases self.users@.len() - i,
        {
            out.push(self.users[i].clone());
            proof {
                assert(out@ =~= self.users@.take(i + 1 as int));
            }
            i += 1;
        }
        proof {
            assert(out@ =~= self.users@);
            assert forall|i2: int| 0 <= i2 < out@.len() implies self@.contains_key(
                #[trigger] out@[i2].id,
            ) && self@[out@[i2].id] == out@[i2] by {
                lemma_map_index(self.users@, i2);
            }
            assert forall|k: u64| #[trigger] self@.contains_key(k) implies exists|i2: int|
                0 <= i2 < out@.len() && out@[i2].id == k by {
                lemma_map_domain(self.users@, k);
            }
        }
        out
    }
}

/// After a successful delete of an identity, a lookup of that identity finds
/// nothing: deleting removes the key from the repository's map.
pub proof fn lemma_delete_then_absent(m: Map<u64, User>, id: u64)
    ensures
        !m.remove(id).contains_key(id),
{
}

} // verus!
