//! Trusted boundary to the password-hashing crate. Hashing draws a fresh
//! random salt, so nothing relates two hashes of the same password; what a
//! hash means is captured by the two uninterpreted predicates below, which
//! every contract in the crate speaks through.

use vstd::prelude::*;
use crate::errors::StoreError;

verus! {

/// Whether `hash` is a well-formed stored password hash, i.e. whether
/// `argon2::password_hash::PasswordHash::new` accepts it. A function of the
/// characters alone.
pub uninterp spec fn hash_wf(hash: Seq<char>) -> bool;

/// Whether `password` verifies against the stored hash `hash` under
/// `argon2::Argon2::verify_password`. A function of the two strings alone:
/// the salt and parameters are part of `hash`.
pub uninterp spec fn verifies(password: Seq<char>, hash: Seq<char>) -> bool;

/// Relies on `argon2::password_hash::PasswordHash::new`: parsing a stored
/// hash string succeeds or fails depending on the string alone.
#[verifier::external_body]
pub(crate) fn parse_hash_ok(hash: &str) -> (r: bool)
    ensures
        r == hash_wf(hash@),
{
    argon2::password_hash::PasswordHash::new(hash).is_ok()
}

/// Relies on `argon2::Argon2::verify_password` (and `PasswordHash::new` to
/// parse the stored string): verification is a function of the password and
/// the hash string alone; an unparseable hash verifies nothing.
#[verifier::external_body]
pub(crate) fn verify_password(password: &str, hash: &str) -> (r: bool)
    ensures
        r == verifies(password@, hash@),
{
    match argon2::password_hash::PasswordHash::new(hash) {
        Ok(parsed) => argon2::password_hash::PasswordVerifier::verify_password(
            &argon2::Argon2::default(),
            password.as_bytes(),
            &parsed,
        ).is_ok(),
        Err(_) => false,
    }
}

/// The character count up to which hashing is owed to succeed: the crate
/// refuses passwords over `0xFFFF_FFFF` bytes, and a character encodes to
/// at most four bytes, so this many characters always stay under the cap.
pub const MAX_HASH_PASSWORD_CHARS: usize = 0x3FFFFFFF;

/// Relies on `argon2::Argon2::hash_password` with a salt drawn from
/// `SaltString::generate(OsRng)`: on success the returned PHC string parses
/// back under `PasswordHash::new` and verifies the very password it was
/// derived from. With the generated salt and the default parameters the
/// only input-dependent failure is a password over the crate's length cap,
/// so success is owed under it. The salt is random, so nothing more is
/// promised.
#[verifier::external_body]
pub(crate) fn hash_password(password: &str) -> (r: Result<String, StoreError>)
    ensures
        r matches Ok(h) ==> hash_wf(h@) && verifies(password@, h@),
        r matches Err(e) ==> e == StoreError::HashError,
        password@.len() <= MAX_HASH_PASSWORD_CHARS ==> r is Ok,
{
    let salt = argon2::password_hash::SaltString::generate(
        &mut argon2::password_hash::rand_core::OsRng,
    );
    match argon2::password_hash::PasswordHasher::hash_password(
        &argon2::Argon2::default(),
        password.as_bytes(),
        &salt,
    ) {
        Ok(h) => Ok(h.to_string()),
        Err(_) => Err(StoreError::HashError),
    }
}

} // verus!
