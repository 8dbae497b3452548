//! Laws of the repository, stated over the table model and proved once
//! for every table, input and time.

use vstd::prelude::*;

use crate::model::email_taken;
use crate::model::new_row;
use crate::model::save_allowed;
use crate::model::spec_save;
use crate::model::wf_table;
use crate::model::UserRec;

verus! {

/// Two inserts in sequence with distinct fresh emails both succeed,
/// and the store assigns them distinct, strictly increasing
/// identifiers. The store must still have two identifiers to give.
pub proof fn lemma_sequential_saves_monotonic_ids(
    rows: Seq<UserRec>,
    next_id: int,
    email1: Seq<char>,
    username1: Seq<char>,
    hash1: Seq<char>,
    now1: int,
    email2: Seq<char>,
    username2: Seq<char>,
    hash2: Seq<char>,
    now2: int,
)
    requires
        wf_table(rows, next_id),
        !email_taken(rows, email1),
        !email_taken(rows, email2),
        email1 != email2,
        next_id + 1 < i32::MAX,
    ensures
        ({
            let first = spec_save(rows, next_id, email1, username1, hash1, now1);
            let second = spec_save(first.0, first.1, email2, username2, hash2, now2);
            &&& first.2 is Ok
            &&& second.2 is Ok
            &&& first.2->Ok_0.id == next_id
            &&& second.2->Ok_0.id == next_id + 1
            &&& first.2->Ok_0.id < second.2->Ok_0.id
        }),
{
    let first = spec_save(rows, next_id, email1, username1, hash1, now1);
    assert(save_allowed(rows, next_id, email1));
    let pushed = rows.push(new_row(next_id, email1, username1, hash1, now1));
    assert(first.0 == pushed);
    assert forall|i: int| 0 <= i < pushed.len() implies (#[trigger] pushed[i]).email
        != email2 by {
        if i < rows.len() {
            assert(pushed[i] == rows[i]);
        } else {
            assert(pushed[i] == new_row(next_id, email1, username1, hash1, now1));
        }
    }
    assert(!email_taken(pushed, email2));
    assert(save_allowed(pushed, next_id + 1, email2));
}

/// An insert whose email is already present fails, and leaves the
/// table — and with it the record count — exactly as it was.
pub proof fn lemma_duplicate_email_insert_changes_nothing(
    rows: Seq<UserRec>,
    next_id: int,
    email: Seq<char>,
    username: Seq<char>,
    password_hash: Seq<char>,
    now: int,
)
    requires
        email_taken(rows, email),
    ensures
        ({
            let stepped = spec_save(rows, next_id, email, username, password_hash, now);
            &&& stepped.2 is Err
            &&& stepped.0 == rows
            &&& stepped.0.len() == rows.len()
            &&& stepped.1 == next_id
        }),
{
}

/// A bcrypt hash string has 60 characters, so a stored hash can never
/// equal a plaintext whose length is anything else.
pub proof fn lemma_hash_differs_from_plaintext(stored: Seq<char>, plain: Seq<char>)
    requires
        stored.len() == 60,
        plain.len() != 60,
    ensures
        stored != plain,
{
}

} // verus!
