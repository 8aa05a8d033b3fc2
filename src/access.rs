//! Route guards: what an authenticated request carries, and the check that
//! it holds every permission a route requires.
use vstd::prelude::*;
use crate::derogation::contains_id;
use crate::errors::GrantError;

verus! {

/// The principal of an authenticated request and the permission ids its
/// token carries.
#[derive(Debug)]
pub struct AuthState {
    pub employee_id: u128,
    pub authorizations: Vec<i32>,
}

/// What the authentication layer needs: the secret that signs tokens.
#[derive(Debug)]
pub struct MiddlewareState {
    pub jwt_secret: String,
}

/// Every id of `required` occurs in `held`.
pub open spec fn holds_all(required: Seq<i32>, held: Seq<i32>) -> bool {
    forall|i: int| 0 <= i < required.len() ==> held.contains(#[trigger] required[i])
}

pub fn has_all_permissions(required: &Vec<i32>, held: &Vec<i32>) -> (r: bool)
    ensures
        r == holds_all(required@, held@),
{
    let mut i: usize = 0;
    while i < required.len()
        invariant
            i <= required@.len(),
            forall|j: int| 0 <= j < i ==> held@.contains(#[trigger] required@[j]),
        decreases required@.len() - i,
    {
        if !contains_id(held, required[i]) {
            return false;
        }
        i = i + 1;
    }
    true
}

/// Admits a request when it is authenticated and its token carries every
/// permission in `required`.
pub fn require_permissions(required: &Vec<i32>, auth_state: Option<&AuthState>) -> (r: Result<(), GrantError>)
    ensures
        r == match auth_state {
            None => Err(GrantError::AuthenticationRequired),
            Some(s) => if holds_all(required@, s.authorizations@) {
                Ok(())
            } else {
                Err(GrantError::InsufficientPermissions)
            },
        },
{
    match auth_state {
        None => Err(GrantError::AuthenticationRequired),
        Some(s) => if has_all_permissions(required, &s.authorizations) {
            Ok(())
        } else {
            Err(GrantError::InsufficientPermissions)
        },
    }
}

} // verus!
