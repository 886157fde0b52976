//! Input validation for signup payloads: the email-shape check is delegated
//! to the validator crate behind a trusted wrapper; the password policy is
//! the crate's own rule.

use vstd::prelude::*;

verus! {

/// The minimum accepted password length, in characters.
pub const MIN_PASSWORD_LEN: usize = 8;

/// Whether `s` passes `validator::ValidateEmail` for `&str` (the HTML5
/// email shape). A function of the characters alone.
pub uninterp spec fn valid_email(s: Seq<char>) -> bool;

/// Relies on `validator::ValidateEmail::validate_email` for `&str`: the
/// check is a pure function of the string (fixed compiled patterns).
#[verifier::external_body]
pub(crate) fn email_ok(s: &str) -> (r: bool)
    ensures
        r == valid_email(s@),
{
    validator::ValidateEmail::validate_email(&s)
}

/// The password policy: at least `MIN_PASSWORD_LEN` characters.
pub open spec fn password_ok(s: Seq<char>) -> bool {
    s.len() >= MIN_PASSWORD_LEN
}

/// Checks the password policy on an executable string.
pub fn check_password(s: &str) -> (r: bool)
    ensures
        r == password_ok(s@),
{
    s.unicode_len() >= MIN_PASSWORD_LEN
}

} // verus!
