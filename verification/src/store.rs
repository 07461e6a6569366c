//! The user-store capability: the three operations the core needs from
//! persistence, with their contracts over a sequence-of-rows model, and a
//! verified in-memory store for running the flows without a backend.

use crate::user::{User, UserView};
use vstd::prelude::*;

verus! {

/// How a store call fails: a uniqueness conflict on email, distinct from
/// any other failure.
#[derive(Clone, Copy, Debug, PartialEq, Eq, Structural)]
pub enum StoreError {
    /// The email is already taken.
    Conflict,
    /// Any other store failure.
    Failure,
}

/// The first active row with this email, in row order.
pub open spec fn lookup_active(rows: Seq<UserView>, email: Seq<char>) -> Option<UserView>
    decreases rows.len(),
{
    if rows.len() == 0 {
        None
    } else if rows[0].is_active && rows[0].email == email {
        Some(rows[0])
    } else {
        lookup_active(rows.drop_first(), email)
    }
}

/// The first active row with this id, in row order.
pub open spec fn lookup_id_active(rows: Seq<UserView>, id: u128) -> Option<UserView>
    decreases rows.len(),
{
    if rows.len() == 0 {
        None
    } else if rows[0].is_active && rows[0].id == id {
        Some(rows[0])
    } else {
        lookup_id_active(rows.drop_first(), id)
    }
}

/// Whether any row — active or not — holds this email; uniqueness is over
/// all rows, as a store-level constraint would have it.
pub open spec fn email_taken(rows: Seq<UserView>, email: Seq<char>) -> bool {
    exists|i: int| 0 <= i < rows.len() && #[trigger] rows[i].email == email
}

/// The store collaborator: find by email, find by id, insert. An
/// implementation may fail any call; what it returns on success, and what
/// an insert does to the rows, is pinned to the model.
pub trait UserStore {
    /// The rows the store holds, in insertion order.
    spec fn rows(&self) -> Seq<UserView>;

    /// The first active user with this email, if the store answers.
    fn find_by_email(&self, email: &str) -> (r: Result<Option<User>, StoreError>)
        ensures
            (match r {
                Ok(Some(u)) => lookup_active(self.rows(), email@) == Some(u@),
                Ok(None) => lookup_active(self.rows(), email@) is None,
                Err(_) => true,
            }),
    ;

    /// The first active user with this id, if the store answers.
    fn find_by_id(&self, id: u128) -> (r: Result<Option<User>, StoreError>)
        ensures
            (match r {
                Ok(Some(u)) => lookup_id_active(self.rows(), id) == Some(u@),
                Ok(None) => lookup_id_active(self.rows(), id) is None,
                Err(_) => true,
            }),
    ;

    /// Appends the user; succeeds only when no row holds the email, and
    /// signals a conflict — leaving the rows unchanged — when one does.
    fn insert(&mut self, user: &User) -> (r: Result<(), StoreError>)
        ensures
            (match r {
                Ok(_) => !email_taken(old(self).rows(), user@.email) && final(self).rows() == old(
                    self,
                ).rows().push(user@),
                Err(e) => final(self).rows() == old(self).rows() && (e == StoreError::Conflict
                    ==> email_taken(old(self).rows(), user@.email)),
            }),
    ;
}

/// A row just inserted under a fresh email is what a lookup of that email
/// then finds: registration becomes visible to login, exactly.
pub proof fn lemma_fresh_row_found(rows: Seq<UserView>, u: UserView)
    requires
        !email_taken(rows, u.email),
        u.is_active,
    ensures
        lookup_active(rows.push(u), u.email) == Some(u),
    decreases rows.len(),
{
    if rows.len() == 0 {
        assert(rows.push(u)[0] == u);
    } else {
        assert(rows[0].email != u.email);
        assert(rows.push(u)[0] == rows[0]);
        assert(rows.push(u).drop_first() =~= rows.drop_first().push(u));
        assert(!email_taken(rows.drop_first(), u.email)) by {
            assert forall|i: int|
                0 <= i < rows.drop_first().len() implies #[trigger] rows.drop_first()[i].email
                != u.email by {
                assert(rows.drop_first()[i] == rows[i + 1]);
            }
        }
        lemma_fresh_row_found(rows.drop_first(), u);
    }
}

/// An in-memory store: a vector of rows. Every call answers; inserts
/// enforce email uniqueness over all rows.
pub struct InMemoryUserStore {
    pub users: Vec<User>,
}

impl InMemoryUserStore {
    /// An empty store.
    pub fn new() -> (s: Self)
        ensures
            s.rows() == Seq::<UserView>::empty(),
    {
        let s = InMemoryUserStore { users: Vec::new() };
        proof {
            assert(s.rows() =~= Seq::<UserView>::empty());
        }
        s
    }
}

impl UserStore for InMemoryUserStore {
    open spec fn rows(&self) -> Seq<UserView> {
        self.users@.map_values(|u: User| u@)
    }

    fn find_by_email(&self, email: &str) -> (r: Result<Option<User>, StoreError>) {
        let needle = email.to_owned();
        let n = self.users.len();
        let mut i: usize = 0;
        proof {
            assert(self.rows().skip(0) =~= self.rows());
        }
        while i < n
            invariant
                i <= n,
                n == self.users@.len(),
                needle@ == email@,
                lookup_active(self.rows(), email@) == lookup_active(
                    self.rows().skip(i as int),
                    email@,
                ),
            decreases n - i,
        {
            proof {
                assert(self.rows().skip(i as int)[0] == self.rows()[i as int]);
                assert(self.rows().skip(i as int).drop_first() =~= self.rows().skip(i + 1));
            }
            let u = &self.users[i];
            if u.is_active && u.email == needle {
                return Ok(Some(u.clone()));
            }
            i += 1;
        }
        proof {
            assert(self.rows().skip(n as int) =~= Seq::<UserView>::empty());
        }
        Ok(None)
    }

    fn find_by_id(&self, id: u128) -> (r: Result<Option<User>, StoreError>) {
        let n = self.users.len();
        let mut i: usize = 0;
        proof {
            assert(self.rows().skip(0) =~= self.rows());
        }
        while i < n
            invariant
                i <= n,
                n == self.users@.len(),
                lookup_id_active(self.rows(), id) == lookup_id_active(
                    self.rows().skip(i as int),
                    id,
                ),
            decreases n - i,
        {
            proof {
                assert(self.rows().skip(i as int)[0] == self.rows()[i as int]);
                assert(self.rows().skip(i as int).drop_first() =~= self.rows().skip(i + 1));
            }
            let u = &self.users[i];
            if u.is_active && u.id == id {
                return Ok(Some(u.clone()));
            }
            i += 1;
        }
        proof {
            assert(lookup_id_active(self.rows().skip(n as int), id) is None);
        }
        Ok(None)
    }

    fn insert(&mut self, user: &User) -> (r: Result<(), StoreError>) {
        let needle = user.email.clone();
        let n = self.users.len();
        let mut i: usize = 0;
        while i < n
            invariant
                i <= n,
                n == self.users@.len(),
                needle@ == user@.email,
                forall|k: int| 0 <= k < i ==> #[trigger] self.rows()[k].email != user@.email,
            decreases n - i,
        {
            if self.users[i].email == needle {
                assert(self.rows()[i as int].email == user@.email);
                return Err(StoreError::Conflict);
            }
            i += 1;
        }
        self.users.push(user.clone());
        proof {
            assert(self.rows() =~= old(self).rows().push(user@));
        }
        Ok(())
    }
}

} // verus!
