//! The password-hashing boundary: bcrypt, called with the crate's
//! default work factor, behind one trusted wrapper.

use vstd::prelude::*;

verus! {

/// Holds when bcrypt's verification accepts `plain` against the hash
/// string `hashed`. bcrypt::verify computes this from the two values
/// alone (the salt it needs is embedded in the hash string), so the
/// relation is well-defined; its value on given inputs is not stated
/// here.
pub uninterp spec fn is_password_hash_of(hashed: Seq<char>, plain: Seq<char>) -> bool;

/// bcrypt::BcryptError, declared so the wrapper below can return it;
/// opaque here, and mapped to the repository's own taxonomy by callers.
#[verifier::external_type_specification]
#[verifier::external_body]
pub struct ExBcryptError(bcrypt::BcryptError);

/// Relies on bcrypt::hash with bcrypt::DEFAULT_COST: on success the
/// result is a 60-character bcrypt hash string of the password, built
/// over a freshly drawn random salt — so nothing is said of its value
/// beyond its length and that bcrypt::verify accepts the password
/// against it. The call fails only when the operating system's
/// randomness is unavailable.
#[verifier::external_body]
pub(crate) fn hash_password(plain: &str) -> (r: Result<String, bcrypt::BcryptError>)
    ensures
        r matches Ok(h) ==> is_password_hash_of(h@, plain@) && h@.len() == 60,
{
    bcrypt::hash(plain, bcrypt::DEFAULT_COST)
}

} // verus!
