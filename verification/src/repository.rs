//! The account repository: the `User` record, the `CreateUser` input,
//! the in-memory `Store` they live in, and the four operations.

use vstd::prelude::*;

use crate::clock::now_seconds;
use crate::exception::Exception;
use crate::model::email_taken;
use crate::model::id_taken;
use crate::model::lemma_table_len_bound;
use crate::model::new_row;
use crate::model::save_allowed;
use crate::model::soft_deleted;
use crate::model::spec_save;
use crate::model::wf_table;
use crate::model::UserRec;
use crate::password::hash_password;
use crate::password::is_password_hash_of;

verus! {

/// One persisted user record. The password field holds a bcrypt hash,
/// never a plaintext, once the create path has run; timestamps are Unix
/// seconds; `deleted_at` is `None` while the record is active.
#[derive(Debug, PartialEq, Eq)]
pub struct User {
    pub id: i32,
    pub email: String,
    pub username: String,
    pub password: String,
    pub created_at: i64,
    pub updated_at: i64,
    pub deleted_at: Option<i64>,
}

impl View for User {
    type V = UserRec;

    open spec fn view(&self) -> UserRec {
        UserRec {
            id: self.id as int,
            email: self.email@,
            username: self.username@,
            password: self.password@,
            created_at: self.created_at as int,
            updated_at: self.updated_at as int,
            deleted_at: match self.deleted_at {
                Some(t) => Some(t as int),
                None => None,
            },
        }
    }
}

/// Transient input to the create operation; `password` holds the
/// caller's plaintext, which is hashed before anything is persisted.
#[derive(Debug)]
pub struct CreateUser {
    pub email: String,
    pub username: String,
    pub password: String,
}

/// The rows' views, in the order the store keeps them.
pub open spec fn row_views(rows: Seq<User>) -> Seq<UserRec> {
    rows.map_values(|u: User| u@)
}

/// An in-memory users table: rows in insertion order, plus the next
/// identifier the store will assign. Every operation preserves `wf`:
/// increasing store-assigned identifiers and unique emails.
pub struct Store {
    rows: Vec<User>,
    next_id: i32,
}

impl View for Store {
    type V = Seq<UserRec>;

    closed spec fn view(&self) -> Seq<UserRec> {
        row_views(self.rows@)
    }
}

impl Store {
    /// The identifier the store will assign to the next inserted row.
    pub closed spec fn next_id_spec(&self) -> int {
        self.next_id as int
    }

    /// The table invariant: constructors establish it and every
    /// operation preserves it.
    pub open spec fn wf(&self) -> bool {
        wf_table(self@, self.next_id_spec())
    }

    /// An empty store; the first inserted row gets identifier 1.
    pub fn new() -> (s: Store)
        ensures
            s.wf(),
            s@ == Seq::<UserRec>::empty(),
            s.next_id_spec() == 1,
    {
        let s = Store { rows: Vec::new(), next_id: 1 };
        proof {
            assert(s@ =~= Seq::<UserRec>::empty());
        }
        s
    }

    /// Soft-deletes the row with the given identifier, as an update
    /// path outside this repository would: `deleted_at` is set to
    /// `when` and nothing else changes. Returns whether a row matched.
    pub fn mark_deleted(&mut self, user_id: i32, when: i64) -> (r: bool)
        requires
            old(self).wf(),
        ensures
            final(self).wf(),
            final(self).next_id_spec() == old(self).next_id_spec(),
            r <==> id_taken(old(self)@, user_id as int),
            !r ==> final(self)@ == old(self)@,
            r ==> exists|i: int|
                0 <= i < old(self)@.len() && (#[trigger] old(self)@[i]).id == user_id as int
                    && final(self)@ == old(self)@.update(
                    i,
                    soft_deleted(old(self)@[i], when as int),
                ),
    {
        match index_of_id(&self.rows, user_id) {
            Some(i) => {
                let ghost pre = self@;
                let ghost old_rows = self.rows@;
                let ghost j = i as int;
                self.rows[i].deleted_at = Some(when);
                proof {
                    lemma_view_update(old_rows, j, self.rows@[j]);
                    assert(self.rows@ =~= old_rows.update(j, self.rows@[j]));
                    assert(pre[j] == old_rows[j]@);
                    assert(self.rows@[j]@ == soft_deleted(pre[j], when as int));
                    assert(self@ == pre.update(j, soft_deleted(pre[j], when as int)));
                    assert forall|a: int| 0 <= a < self@.len() implies (#[trigger] self@[a]).id
                        == pre[a].id && self@[a].email == pre[a].email by {
                        if a != j {
                            assert(self@[a] == pre[a]);
                        }
                    }
                    assert(self.wf());
                    assert(0 <= j < pre.len() && pre[j].id == user_id as int && self@
                        == pre.update(j, soft_deleted(pre[j], when as int)));
                }
                true
            },
            None => false,
        }
    }
}

impl User {
    /// Fetch exactly the record with the given identifier. `NotFound`
    /// exactly when no row carries it; a soft-deleted row is still
    /// returned unfiltered.
    pub fn find_one(user_id: i32, store: &Store) -> (r: Result<User, Exception>)
        requires
            store.wf(),
        ensures
            r is Ok <==> id_taken(store@, user_id as int),
            match r {
                Ok(u) => exists|i: int|
                    0 <= i < store@.len() && #[trigger] store@[i] == u@ && u@.id == user_id as int,
                Err(e) => e == Exception::NotFound && !id_taken(store@, user_id as int),
            },
    {
        match index_of_id(&store.rows, user_id) {
            Some(i) => {
                let u = clone_user(&store.rows[i]);
                proof {
                    assert(0 <= (i as int) && (i as int) < store@.len() && store@[i as int] == u@
                        && u@.id == user_id as int);
                }
                Ok(u)
            },
            None => Err(Exception::NotFound),
        }
    }

    /// Fetch the record whose email equals the query character for
    /// character; `NotFound` exactly when no row's email does.
    pub fn find_one_by_email(query: String, store: &Store) -> (r: Result<User, Exception>)
        requires
            store.wf(),
        ensures
            r is Ok <==> email_taken(store@, query@),
            match r {
                Ok(u) => exists|i: int|
                    0 <= i < store@.len() && #[trigger] store@[i] == u@ && u@.email == query@,
                Err(e) => e == Exception::NotFound && !email_taken(store@, query@),
            },
    {
        match index_of_email(&store.rows, &query) {
            Some(i) => {
                let u = clone_user(&store.rows[i]);
                proof {
                    assert(0 <= (i as int) && (i as int) < store@.len() && store@[i as int] == u@
                        && u@.email == query@);
                }
                Ok(u)
            },
            None => Err(Exception::NotFound),
        }
    }

    /// Full scan plus an independently computed count. Over this store
    /// the two always agree: the list holds every row in insertion
    /// order and the count equals its length.
    pub fn find(store: &Store) -> (r: Result<(Vec<User>, i64), Exception>)
        requires
            store.wf(),
        ensures
            r matches Ok(p) && ({
                &&& p.0@.len() == store@.len()
                &&& p.1 as int == store@.len()
                &&& forall|i: int| 0 <= i < store@.len() ==> (#[trigger] p.0@[i])@ == store@[i]
            }),
    {
        let mut items: Vec<User> = Vec::new();
        let mut i: usize = 0;
        while i < store.rows.len()
            invariant
                i <= store.rows@.len(),
                store.rows@.len() == store@.len(),
                items@.len() == i as int,
                forall|j: int| 0 <= j < i as int ==> (#[trigger] items@[j])@ == store@[j],
            decreases store.rows@.len() - i,
        {
            proof {
                assert(store@[i as int] == store.rows@[i as int]@);
            }
            items.push(clone_user(&store.rows[i]));
            i += 1;
        }
        proof {
            lemma_table_len_bound(store@, store.next_id_spec());
        }
        let count: i64 = store.rows.len() as i64;
        Ok((items, count))
    }

    /// Insert a record built from an email, a username and an already
    /// computed password hash; the store assigns the identifier and
    /// sets both timestamps to one drawn clock value. Fails, changing
    /// nothing, exactly when the email is already present or the store
    /// has no identifier left.
    pub fn save_hashed(
        email: String,
        username: String,
        password_hash: String,
        store: &mut Store,
    ) -> (r: Result<User, Exception>)
        requires
            old(store).wf(),
        ensures
            final(store).wf(),
            r is Ok <==> save_allowed(old(store)@, old(store).next_id_spec(), email@),
            match r {
                Ok(u) => {
                    &&& u@ == new_row(
                        old(store).next_id_spec(),
                        email@,
                        username@,
                        password_hash@,
                        u@.created_at,
                    )
                    &&& final(store)@ == old(store)@.push(u@)
                    &&& final(store).next_id_spec() == old(store).next_id_spec() + 1
                    &&& (final(store)@, final(store).next_id_spec(), Ok::<UserRec, Exception>(u@))
                        == spec_save(
                        old(store)@,
                        old(store).next_id_spec(),
                        email@,
                        username@,
                        password_hash@,
                        u@.created_at,
                    )
                },
                Err(e) => {
                    &&& e == Exception::InternalServerError
                    &&& final(store)@ == old(store)@
                    &&& final(store).next_id_spec() == old(store).next_id_spec()
                },
            },
    {
        if let Some(i) = index_of_email(&store.rows, &email) {
            proof {
                assert(store@[i as int] == store.rows@[i as int]@);
                assert(email_taken(store@, email@));
            }
            return Err(Exception::InternalServerError);
        }
        if store.next_id == i32::MAX {
            return Err(Exception::InternalServerError);
        }
        proof {
            assert forall|a: int| 0 <= a < store@.len() implies (#[trigger] store@[a]).email
                != email@ by {
                assert(store@[a] == store.rows@[a]@);
            }
            assert(!email_taken(store@, email@));
        }
        let now: i64 = now_seconds();
        let ghost pre = store@;
        let ghost old_rows = store.rows@;
        let id = store.next_id;
        let u = User {
            id,
            email,
            username,
            password: password_hash,
            created_at: now,
            updated_at: now,
            deleted_at: None,
        };
        let saved = clone_user(&u);
        store.rows.push(u);
        store.next_id = id + 1;
        proof {
            let ghost pushed = store.rows@[old_rows.len() as int];
            assert(store.rows@ =~= old_rows.push(pushed));
            lemma_view_push(old_rows, pushed);
            assert(pushed@ == saved@);
            assert(store@ == pre.push(saved@));
            assert forall|a: int, b: int| 0 <= a < b < store@.len() implies {
                &&& 1 <= (#[trigger] store@[a]).id < (#[trigger] store@[b]).id < store.next_id as int
                &&& store@[a].email != store@[b].email
            } by {
                assert(store@[a] == pre[a]);
                if b < pre.len() {
                    assert(store@[b] == pre[b]);
                } else {
                    assert(store@[b] == saved@);
                }
            }
            assert forall|a: int| 0 <= a < store@.len() implies 1 <= (#[trigger] store@[a]).id
                < store.next_id as int by {
                if a < pre.len() {
                    assert(store@[a] == pre[a]);
                } else {
                    assert(store@[a] == saved@);
                }
            }
            assert(store.wf());
        }
        Ok(saved)
    }

    /// Hash the plaintext password with bcrypt, then insert: the
    /// persisted password field holds a 60-character bcrypt hash of the
    /// input plaintext. On any failure — email already present, no
    /// identifier left, or the hashing step itself — nothing is
    /// inserted.
    pub fn save(create_user_input: CreateUser, store: &mut Store) -> (r: Result<User, Exception>)
        requires
            old(store).wf(),
        ensures
            final(store).wf(),
            !save_allowed(old(store)@, old(store).next_id_spec(), create_user_input.email@)
                ==> r is Err,
            match r {
                Ok(u) => {
                    &&& save_allowed(
                        old(store)@,
                        old(store).next_id_spec(),
                        create_user_input.email@,
                    )
                    &&& is_password_hash_of(u@.password, create_user_input.password@)
                    &&& u@.password.len() == 60
                    &&& u@.id == old(store).next_id_spec()
                    &&& u@.email == create_user_input.email@
                    &&& u@.username == create_user_input.username@
                    &&& u@.created_at == u@.updated_at
                    &&& u@.deleted_at is None
                    &&& final(store)@ == old(store)@.push(u@)
                    &&& final(store).next_id_spec() == old(store).next_id_spec() + 1
                },
                Err(e) => {
                    &&& e == Exception::InternalServerError
                    &&& final(store)@ == old(store)@
                    &&& final(store).next_id_spec() == old(store).next_id_spec()
                },
            },
    {
        let CreateUser { email, username, password } = create_user_input;
        match hash_password(password.as_str()) {
            Ok(h) => User::save_hashed(email, username, h, store),
            Err(_) => Err(Exception::InternalServerError),
        }
    }
}

/// A field-for-field copy of one record, so lookups can hand a caller
/// a row without surrendering the store's own.
fn clone_user(u: &User) -> (r: User)
    ensures
        r@ == u@,
{
    User {
        id: u.id,
        email: u.email.clone(),
        username: u.username.clone(),
        password: u.password.clone(),
        created_at: u.created_at,
        updated_at: u.updated_at,
        deleted_at: u.deleted_at,
    }
}

/// Index of the first row carrying this identifier, if any.
fn index_of_id(rows: &Vec<User>, user_id: i32) -> (r: Option<usize>)
    ensures
        match r {
            Some(i) => i < rows@.len() && rows@[i as int]@.id == user_id as int,
            None => forall|j: int|
                0 <= j < rows@.len() ==> (#[trigger] rows@[j])@.id != user_id as int,
        },
{
    let mut i: usize = 0;
    while i < rows.len()
        invariant
            i <= rows@.len(),
            forall|j: int| 0 <= j < i as int ==> (#[trigger] rows@[j])@.id != user_id as int,
        decreases rows@.len() - i,
    {
        if rows[i].id == user_id {
            return Some(i);
        }
        i += 1;
    }
    None
}

/// Index of the first row whose email equals the query character for
/// character, if any.
fn index_of_email(rows: &Vec<User>, query: &String) -> (r: Option<usize>)
    ensures
        match r {
            Some(i) => i < rows@.len() && rows@[i as int]@.email == query@,
            None => forall|j: int|
                0 <= j < rows@.len() ==> (#[trigger] rows@[j])@.email != query@,
        },
{
    let mut i: usize = 0;
    while i < rows.len()
        invariant
            i <= rows@.len(),
            forall|j: int| 0 <= j < i as int ==> (#[trigger] rows@[j])@.email != query@,
        decreases rows@.len() - i,
    {
        if rows[i].email == *query {
            return Some(i);
        }
        i += 1;
    }
    None
}

/// Mapping row views commutes with appending a row.
proof fn lemma_view_push(rows: Seq<User>, u: User)
    ensures
        row_views(rows.push(u)) == row_views(rows).push(u@),
{
    assert(row_views(rows.push(u)) =~= row_views(rows).push(u@));
}

/// Mapping row views commutes with replacing one row.
proof fn lemma_view_update(rows: Seq<User>, i: int, u: User)
    requires
        0 <= i < rows.len(),
    ensures
        row_views(rows.update(i, u)) == row_views(rows).update(i, u@),
{
    assert(row_views(rows.update(i, u)) =~= row_views(rows).update(i, u@));
}

} // verus!
