//! The credential check of a staff login.
use vstd::prelude::*;
use crate::errors::GrantError;

verus! {

/// What bcrypt concludes of a password against a stored hash: a match or
/// not, or nothing when the hash cannot be read.
pub uninterp spec fn bcrypt_verdict(password: Seq<char>, hash: Seq<char>) -> Option<bool>;

/// Relies on `bcrypt::verify`: it rehashes the password with the cost and
/// salt the stored hash records and compares; it fails on a hash it cannot
/// read. The verdict depends on the two texts alone.
#[verifier::external_body]
fn verify_password(password: &str, hash: &str) -> (r: Option<bool>)
    ensures
        r == bcrypt_verdict(password@, hash@),
{
    bcrypt::verify(password, hash).ok()
}

/// The outcome of a login once the password has been checked against the
/// stored hash of the account (`verdict`), or with no account (`None` hash).
pub open spec fn login_outcome(found: bool, verdict: Option<bool>) -> Result<(), GrantError> {
    if !found {
        Err(GrantError::InvalidCredentials)
    } else {
        match verdict {
            None => Err(GrantError::PasswordCheckFailed),
            Some(true) => Ok(()),
            Some(false) => Err(GrantError::InvalidCredentials),
        }
    }
}

/// Decides a login from whether an active account was found and what the
/// password check concluded.
pub fn login_verdict(found: bool, verdict: Option<bool>) -> (r: Result<(), GrantError>)
    ensures
        r == login_outcome(found, verdict),
{
    if !found {
        return Err(GrantError::InvalidCredentials);
    }
    match verdict {
        None => Err(GrantError::PasswordCheckFailed),
        Some(true) => Ok(()),
        Some(false) => Err(GrantError::InvalidCredentials),
    }
}

/// Checks a login password against the stored hash of the active account
/// with that e-mail, if there is one.
pub fn authenticate(password: &str, stored_hash: Option<&str>) -> (r: Result<(), GrantError>)
    ensures
        r == match stored_hash {
            None => login_outcome(false, None),
            Some(h) => login_outcome(true, bcrypt_verdict(password@, h@)),
        },
{
    match stored_hash {
        None => login_verdict(false, None),
        Some(h) => {
            let verdict = verify_password(password, h);
            login_verdict(true, verdict)
        },
    }
}

} // verus!
