//! Failures of the engine, each with its kind and a stable machine-readable code.
use vstd::prelude::*;

verus! {

/// The five kinds of failure that callers tell apart.
#[derive(Debug, Clone, Copy, PartialEq, Eq, Structural)]
pub enum ErrorKind {
    Validation,
    NotFound,
    Conflict,
    Forbidden,
    Internal,
}

/// Every failure the engine reports.
#[derive(Debug, Clone, Copy, PartialEq, Eq, Structural)]
pub enum GrantError {
    /// The window starts more than the grace period before now.
    StartInPast,
    /// The window ends at or before its start.
    EndNotAfterStart,
    EmployeeNotFound,
    LevelNotFound,
    /// The principal holds no accreditation active now.
    CurrentLevelNotFound,
    AuthorizationNotFound,
    AccreditationNotFound,
    DerogationNotFound,
    /// The grantor's level does not rank strictly above the level assigned.
    ForbiddenAssignHigherLevel,
    /// The requester's level does not rank strictly above the accreditation's.
    ForbiddenDeleteHigherLevel,
    /// The grantor does not hold the permission being derogated.
    ForbiddenAssignUnownedAuthorization,
    /// The requester does not hold the derogated permission.
    ForbiddenDeleteUnownedAuthorization,
    /// Another accreditation of the principal intersects the window.
    AccreditationAlreadyExists,
    /// The principal already holds the permission being derogated.
    HasAlreadyAuthorization,
    /// The identifier chosen for a new row is already taken.
    IdentifierInUse,
    /// The request carries no authenticated principal.
    AuthenticationRequired,
    /// The principal lacks one of the permissions a route requires.
    InsufficientPermissions,
    /// No active account has that e-mail, or the password does not match.
    InvalidCredentials,
    /// The stored password hash could not be read.
    PasswordCheckFailed,
    /// A page number of 0.
    InvalidPage,
    /// A page size of 0 or above the largest one accepted.
    InvalidLimit,
}

impl GrantError {
    pub open spec fn spec_kind(self) -> ErrorKind {
        match self {
            GrantError::StartInPast
            | GrantError::EndNotAfterStart
            | GrantError::AuthenticationRequired
            | GrantError::InsufficientPermissions
            | GrantError::InvalidCredentials
            | GrantError::InvalidPage
            | GrantError::InvalidLimit => ErrorKind::Validation,
            GrantError::EmployeeNotFound
            | GrantError::LevelNotFound
            | GrantError::CurrentLevelNotFound
            | GrantError::AuthorizationNotFound
            | GrantError::AccreditationNotFound
            | GrantError::DerogationNotFound => ErrorKind::NotFound,
            GrantError::AccreditationAlreadyExists
            | GrantError::HasAlreadyAuthorization => ErrorKind::Conflict,
            GrantError::ForbiddenAssignHigherLevel
            | GrantError::ForbiddenDeleteHigherLevel
            | GrantError::ForbiddenAssignUnownedAuthorization
            | GrantError::ForbiddenDeleteUnownedAuthorization => ErrorKind::Forbidden,
            GrantError::IdentifierInUse
            | GrantError::PasswordCheckFailed => ErrorKind::Internal,
        }
    }

    pub fn kind(&self) -> (r: ErrorKind)
        ensures
            r == self.spec_kind(),
    {
        match self {
            GrantError::StartInPast
            | GrantError::EndNotAfterStart
            | GrantError::AuthenticationRequired
            | GrantError::InsufficientPermissions
            | GrantError::InvalidCredentials
            | GrantError::InvalidPage
            | GrantError::InvalidLimit => ErrorKind::Validation,
            GrantError::EmployeeNotFound
            | GrantError::LevelNotFound
            | GrantError::CurrentLevelNotFound
            | GrantError::AuthorizationNotFound
            | GrantError::AccreditationNotFound
            | GrantError::DerogationNotFound => ErrorKind::NotFound,
            GrantError::AccreditationAlreadyExists
            | GrantError::HasAlreadyAuthorization => ErrorKind::Conflict,
            GrantError::ForbiddenAssignHigherLevel
            | GrantError::ForbiddenDeleteHigherLevel
            | GrantError::ForbiddenAssignUnownedAuthorization
            | GrantError::ForbiddenDeleteUnownedAuthorization => ErrorKind::Forbidden,
            GrantError::IdentifierInUse
            | GrantError::PasswordCheckFailed => ErrorKind::Internal,
        }
    }

    pub open spec fn spec_code(self) -> Seq<char> {
        match self {
            GrantError::StartInPast => "START_DATE_IN_PAST"@,
            GrantError::EndNotAfterStart => "END_DATE_NOT_AFTER_START"@,
            GrantError::EmployeeNotFound => "EMPLOYEE_NOT_FOUND"@,
            GrantError::LevelNotFound => "EMPLOYEE_LEVEL_NOT_FOUND"@,
            GrantError::CurrentLevelNotFound => "EMPLOYEE_LEVEL_NOT_FOUND"@,
            GrantError::AuthorizationNotFound => "AUTHORIZATION_NOT_FOUND"@,
            GrantError::AccreditationNotFound => "ACCREDITATION_NOT_FOUND"@,
            GrantError::DerogationNotFound => "DEROGATION_NOT_FOUND"@,
            GrantError::ForbiddenAssignHigherLevel => "FORBIDDEN_ASSIGN_HIGHER_LEVEL"@,
            GrantError::ForbiddenDeleteHigherLevel => "FORBIDDEN_DELETE_HIGHER_LEVEL"@,
            GrantError::ForbiddenAssignUnownedAuthorization => "FORBIDDEN_ASSIGN_UNOWNED_AUTHORIZATION"@,
            GrantError::ForbiddenDeleteUnownedAuthorization => "FORBIDDEN_DELETE_UNOWNED_AUTHORIZATION"@,
            GrantError::AccreditationAlreadyExists => "ACCREDITATION_ALREADY_EXISTS_FOR_THIS_PERIOD"@,
            GrantError::HasAlreadyAuthorization => "HAS_ALREADY_AUTHORIZATION"@,
            GrantError::IdentifierInUse => "IDENTIFIER_IN_USE"@,
            GrantError::AuthenticationRequired => "AUTHENTICATION_REQUIRED"@,
            GrantError::InsufficientPermissions => "INSUFFICIENT_PERMISSIONS"@,
            GrantError::InvalidCredentials => "INVALID_CREDENTIALS"@,
            GrantError::PasswordCheckFailed => "PASSWORD_CHECK_FAILED"@,
            GrantError::InvalidPage => "INVALID_PAGE"@,
            GrantError::InvalidLimit => "INVALID_LIMIT"@,
        }
    }

    /// The stable machine-readable code of the failure.
    pub fn code(&self) -> (r: String)
        ensures
            r@ == self.spec_code(),
    {
        let s: &str = match self {
            GrantError::StartInPast => "START_DATE_IN_PAST",
            GrantError::EndNotAfterStart => "END_DATE_NOT_AFTER_START",
            GrantError::EmployeeNotFound => "EMPLOYEE_NOT_FOUND",
            GrantError::LevelNotFound => "EMPLOYEE_LEVEL_NOT_FOUND",
            GrantError::CurrentLevelNotFound => "EMPLOYEE_LEVEL_NOT_FOUND",
            GrantError::AuthorizationNotFound => "AUTHORIZATION_NOT_FOUND",
            GrantError::AccreditationNotFound => "ACCREDITATION_NOT_FOUND",
            GrantError::DerogationNotFound => "DEROGATION_NOT_FOUND",
            GrantError::ForbiddenAssignHigherLevel => "FORBIDDEN_ASSIGN_HIGHER_LEVEL",
            GrantError::ForbiddenDeleteHigherLevel => "FORBIDDEN_DELETE_HIGHER_LEVEL",
            GrantError::ForbiddenAssignUnownedAuthorization => "FORBIDDEN_ASSIGN_UNOWNED_AUTHORIZATION",
            GrantError::ForbiddenDeleteUnownedAuthorization => "FORBIDDEN_DELETE_UNOWNED_AUTHORIZATION",
            GrantError::AccreditationAlreadyExists => "ACCREDITATION_ALREADY_EXISTS_FOR_THIS_PERIOD",
            GrantError::HasAlreadyAuthorization => "HAS_ALREADY_AUTHORIZATION",
            GrantError::IdentifierInUse => "IDENTIFIER_IN_USE",
            GrantError::AuthenticationRequired => "AUTHENTICATION_REQUIRED",
            GrantError::InsufficientPermissions => "INSUFFICIENT_PERMISSIONS",
            GrantError::InvalidCredentials => "INVALID_CREDENTIALS",
            GrantError::PasswordCheckFailed => "PASSWORD_CHECK_FAILED",
            GrantError::InvalidPage => "INVALID_PAGE",
            GrantError::InvalidLimit => "INVALID_LIMIT",
        };
        s.to_owned()
    }

    pub open spec fn spec_message(self) -> Seq<char> {
        match self {
            GrantError::StartInPast => "The start date must be in the future."@,
            GrantError::EndNotAfterStart => "The end date must be after the start date."@,
            GrantError::EmployeeNotFound => "Employee not found"@,
            GrantError::LevelNotFound => "Level not found"@,
            GrantError::CurrentLevelNotFound => "No current employee level found"@,
            GrantError::AuthorizationNotFound => "Authorization not found"@,
            GrantError::AccreditationNotFound => "Accreditation not found"@,
            GrantError::DerogationNotFound => "Derogation not found"@,
            GrantError::ForbiddenAssignHigherLevel => "You can't assign a higher or equal level than your own."@,
            GrantError::ForbiddenDeleteHigherLevel => "You can't delete an accreditation with a higher or equal level than your own."@,
            GrantError::ForbiddenAssignUnownedAuthorization => "You can't assign a derogation authorization that you don't have."@,
            GrantError::ForbiddenDeleteUnownedAuthorization => "You can't delete a derogation that you don't have."@,
            GrantError::AccreditationAlreadyExists => "An accreditation already exists for this employee in the specified time range."@,
            GrantError::HasAlreadyAuthorization => "The employee already has this authorization."@,
            GrantError::IdentifierInUse => "The identifier of the new record is already in use."@,
            GrantError::AuthenticationRequired => "Authentication required"@,
            GrantError::InsufficientPermissions => "Insufficient permissions"@,
            GrantError::InvalidCredentials => "Invalid email or password"@,
            GrantError::PasswordCheckFailed => "Invalid email or password"@,
            GrantError::InvalidPage => "Page must be greater than 0"@,
            GrantError::InvalidLimit => "Limit must be between 1 and 100."@,
        }
    }

    /// A human-readable description of the failure.
    pub fn message(&self) -> (r: String)
        ensures
            r@ == self.spec_message(),
    {
        let s: &str = match self {
            GrantError::StartInPast => "The start date must be in the future.",
            GrantError::EndNotAfterStart => "The end date must be after the start date.",
            GrantError::EmployeeNotFound => "Employee not found",
            GrantError::LevelNotFound => "Level not found",
            GrantError::CurrentLevelNotFound => "No current employee level found",
            GrantError::AuthorizationNotFound => "Authorization not found",
            GrantError::AccreditationNotFound => "Accreditation not found",
            GrantError::DerogationNotFound => "Derogation not found",
            GrantError::ForbiddenAssignHigherLevel => "You can't assign a higher or equal level than your own.",
            GrantError::ForbiddenDeleteHigherLevel => "You can't delete an accreditation with a higher or equal level than your own.",
            GrantError::ForbiddenAssignUnownedAuthorization => "You can't assign a derogation authorization that you don't have.",
            GrantError::ForbiddenDeleteUnownedAuthorization => "You can't delete a derogation that you don't have.",
            GrantError::AccreditationAlreadyExists => "An accreditation already exists for this employee in the specified time range.",
            GrantError::HasAlreadyAuthorization => "The employee already has this authorization.",
            GrantError::IdentifierInUse => "The identifier of the new record is already in use.",
            GrantError::AuthenticationRequired => "Authentication required",
            GrantError::InsufficientPermissions => "Insufficient permissions",
            GrantError::InvalidCredentials => "Invalid email or password",
            GrantError::PasswordCheckFailed => "Invalid email or password",
            GrantError::InvalidPage => "Page must be greater than 0",
            GrantError::InvalidLimit => "Limit must be between 1 and 100.",
        };
        s.to_owned()
    }
}

} // verus!
