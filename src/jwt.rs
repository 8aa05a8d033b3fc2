//! Claims of the short-lived tokens that carry a snapshot of a principal's
//! resolved permissions. Instants here are whole seconds since the Unix epoch.
use vstd::prelude::*;

verus! {

/// The latest expiry a token may carry, in seconds since the epoch (the end
/// of the calendar range that timestamps cover).
pub const MAX_TIMESTAMP_SECONDS: i64 = 8_210_266_876_799;

/// Claims of an access token.
#[derive(Debug)]
pub struct Claims {
    pub sub: u128,
    pub email: String,
    pub firstname: String,
    pub lastname: String,
    pub authorizations: Vec<i32>,
    pub exp: i64,
    pub iat: i64,
}

/// Claims of a refresh token.
#[derive(Debug, Clone, Copy, PartialEq, Eq, Structural)]
pub struct RefreshClaims {
    pub sub: u128,
    pub exp: i64,
    pub iat: i64,
}

/// `now` plus `minutes_valid` minutes stays within the timestamp range.
pub open spec fn expiry_fits(now: int, minutes_valid: int) -> bool {
    now + minutes_valid * 60 <= MAX_TIMESTAMP_SECONDS
}

impl Claims {
    /// Claims issued at `now`, expiring `minutes_valid` minutes later.
    pub fn new(
        employee_id: u128,
        email: String,
        firstname: String,
        lastname: String,
        authorizations: Vec<i32>,
        minutes_valid: u32,
        now: i64,
    ) -> (r: Claims)
        requires
            expiry_fits(now as int, minutes_valid as int),
        ensures
            r.sub == employee_id,
            r.email == email,
            r.firstname == firstname,
            r.lastname == lastname,
            r.authorizations == authorizations,
            r.iat == now,
            r.exp == now + minutes_valid * 60,
    {
        let exp = now + (minutes_valid as i64) * 60;
        Claims { sub: employee_id, email, firstname, lastname, authorizations, exp, iat: now }
    }

    /// The token has expired at `now`: `now` lies after its expiry.
    pub fn is_expired(&self, now: i64) -> (r: bool)
        ensures
            r == (now > self.exp),
    {
        now > self.exp
    }
}

impl RefreshClaims {
    /// Claims issued at `now`, expiring `minutes_valid` minutes later.
    pub fn new(employee_id: u128, minutes_valid: u32, now: i64) -> (r: RefreshClaims)
        requires
            expiry_fits(now as int, minutes_valid as int),
        ensures
            r.sub == employee_id,
            r.iat == now,
            r.exp == now + minutes_valid * 60,
    {
        RefreshClaims { sub: employee_id, exp: now + (minutes_valid as i64) * 60, iat: now }
    }

    /// The token has expired at `now`: `now` lies after its expiry.
    pub fn is_expired(&self, now: i64) -> (r: bool)
        ensures
            r == (now > self.exp),
    {
        now > self.exp
    }
}

/// What a successful login or refresh returns.
#[derive(Debug)]
pub struct AuthResponse {
    pub access_token: String,
    pub refresh_token: String,
    pub token_type: String,
}

/// A request for a new access token.
#[derive(Debug)]
pub struct RefreshTokenRequest {
    pub refresh_token: String,
}

/// What the login flow reports about a principal.
#[derive(Debug)]
pub struct EmployeeInfo {
    pub id: u128,
    pub firstname: String,
    pub lastname: String,
    pub professional_email: String,
    pub permissions: Vec<i32>,
}

} // verus!
