//! The mathematical model of the users table: one ghost record per row,
//! the table's well-formedness, and the effect of one insert.

use vstd::prelude::*;

use crate::exception::Exception;

verus! {

/// Mathematical image of one persisted user row; timestamps are Unix
/// seconds, `deleted_at` is `None` while the row is active.
pub ghost struct UserRec {
    pub id: int,
    pub email: Seq<char>,
    pub username: Seq<char>,
    pub password: Seq<char>,
    pub created_at: int,
    pub updated_at: int,
    pub deleted_at: Option<int>,
}

/// Some row of the table carries this identifier.
pub open spec fn id_taken(rows: Seq<UserRec>, id: int) -> bool {
    exists|i: int| 0 <= i < rows.len() && (#[trigger] rows[i]).id == id
}

/// Some row of the table carries exactly this email.
pub open spec fn email_taken(rows: Seq<UserRec>, email: Seq<char>) -> bool {
    exists|i: int| 0 <= i < rows.len() && (#[trigger] rows[i]).email == email
}

/// The table's invariant: identifiers are positive, strictly increasing
/// in insertion order and all below the next identifier the store will
/// assign, and no two rows share an email.
pub open spec fn wf_table(rows: Seq<UserRec>, next_id: int) -> bool {
    &&& 1 <= next_id <= i32::MAX
    &&& forall|i: int| 0 <= i < rows.len() ==> 1 <= (#[trigger] rows[i]).id < next_id
    &&& forall|i: int, j: int|
        0 <= i < j < rows.len() ==> (#[trigger] rows[i]).id < (#[trigger] rows[j]).id
    &&& forall|i: int, j: int|
        0 <= i < j < rows.len() ==> (#[trigger] rows[i]).email != (#[trigger] rows[j]).email
}

/// The row an insert at time `now` builds: the store assigns the
/// identifier and sets both timestamps to `now`; the password field
/// holds whatever hash the caller computed.
pub open spec fn new_row(
    id: int,
    email: Seq<char>,
    username: Seq<char>,
    password_hash: Seq<char>,
    now: int,
) -> UserRec {
    UserRec {
        id: id,
        email: email,
        username: username,
        password: password_hash,
        created_at: now,
        updated_at: now,
        deleted_at: None,
    }
}

/// An insert with this email can succeed on this table: the email is
/// fresh and the store still has an identifier to assign.
pub open spec fn save_allowed(rows: Seq<UserRec>, next_id: int, email: Seq<char>) -> bool {
    !email_taken(rows, email) && next_id < i32::MAX
}

/// The effect of one insert: the table, the next identifier and the
/// outcome. An allowed insert appends exactly one row and advances the
/// identifier; a refused one changes nothing and reports the store
/// failure.
pub open spec fn spec_save(
    rows: Seq<UserRec>,
    next_id: int,
    email: Seq<char>,
    username: Seq<char>,
    password_hash: Seq<char>,
    now: int,
) -> (Seq<UserRec>, int, Result<UserRec, Exception>) {
    if save_allowed(rows, next_id, email) {
        let row = new_row(next_id, email, username, password_hash, now);
        (rows.push(row), next_id + 1, Ok(row))
    } else {
        (rows, next_id, Err(Exception::InternalServerError))
    }
}

/// A row after soft deletion at time `when`: only `deleted_at` changes.
pub open spec fn soft_deleted(row: UserRec, when: int) -> UserRec {
    UserRec { deleted_at: Some(when), ..row }
}

/// In a well-formed table the row at position `i` has identifier at
/// least `1 + i`: identifiers start at one and strictly increase.
pub proof fn lemma_ids_at_least_index(rows: Seq<UserRec>, next_id: int, i: int)
    requires
        wf_table(rows, next_id),
        0 <= i < rows.len(),
    ensures
        rows[i].id >= 1 + i,
    decreases i,
{
    if i > 0 {
        lemma_ids_at_least_index(rows, next_id, i - 1);
    }
}

/// A well-formed table holds fewer rows than the next identifier, and
/// so always fewer than `i32::MAX`.
pub proof fn lemma_table_len_bound(rows: Seq<UserRec>, next_id: int)
    requires
        wf_table(rows, next_id),
    ensures
        rows.len() < next_id,
{
    if rows.len() > 0 {
        lemma_ids_at_least_index(rows, next_id, rows.len() - 1);
    }
}

} // verus!
