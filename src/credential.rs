use argon2::password_hash::{PasswordHash, PasswordVerifier};
use argon2::Argon2;
use vstd::prelude::*;

verus! {

#[verifier::external_type_specification]
#[verifier::external_body]
pub struct ExPasswordHashError(argon2::password_hash::Error);

/// Whether `s` is a password hash in the PHC string format.
pub uninterp spec fn is_password_hash(s: Seq<char>) -> bool;

/// Whether `password` matches the Argon2 password hash `hash`, given in the PHC string
/// format, under the algorithm, version and parameters that the hash names.
pub uninterp spec fn password_verifies(password: Seq<char>, hash: Seq<char>) -> bool;

/// Relies on `password_hash::PasswordHash::new`, which accepts or rejects a string by its
/// text alone.
#[verifier::external_body]
pub(crate) fn check_password_hash(s: &str) -> (r: Result<(), argon2::password_hash::Error>)
    ensures
        r is Ok <==> is_password_hash(s@),
{
    match PasswordHash::new(s) {
        Ok(_) => Ok(()),
        Err(e) => Err(e),
    }
}

/// Relies on `password_hash::PasswordHash::new` to read the stored hash and on
/// `PasswordVerifier::verify_password` of `argon2::Argon2`, which recomputes the hash of
/// the password with the salt and parameters of the stored one and compares the two; a
/// stored hash that does not parse matches no password.
#[verifier::external_body]
pub(crate) fn verify_password(password: &str, hash: &str) -> (r: bool)
    ensures
        r == password_verifies(password@, hash@),
{
    match PasswordHash::new(hash) {
        Ok(h) => Argon2::default().verify_password(password.as_bytes(), &h).is_ok(),
        Err(_) => false,
    }
}

} // verus!
