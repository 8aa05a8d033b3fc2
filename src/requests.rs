//! Plain request and response records of the surrounding account endpoints,
//! with the defaults that list queries take.
use vstd::prelude::*;
use crate::paginate::{default_limit, default_page, default_sort_order};

verus! {

/// Filters and page of a driver list query.
#[derive(Debug)]
pub struct GetAllDriversQuery {
    pub page: u32,
    pub limit: u32,
    pub pk_driver_id: Option<String>,
    pub firstname: Option<String>,
    pub lastname: Option<String>,
    pub gender: Option<String>,
    pub email: Option<String>,
    pub phone_number: Option<String>,
    pub is_searchable: Option<bool>,
    pub allow_request_professional_agreement: Option<bool>,
    pub language: Option<String>,
    pub rest_json: Option<bool>,
    pub verified: Option<bool>,
    pub deactivated: Option<bool>,
    pub sort_order: String,
}

impl Default for GetAllDriversQuery {
    /// The first page of default size, no filter, ascending order.
    fn default() -> (r: Self)
        ensures
            r.page == 1,
            r.limit == 20,
            r.pk_driver_id is None,
            r.firstname is None,
            r.lastname is None,
            r.gender is None,
            r.email is None,
            r.phone_number is None,
            r.is_searchable is None,
            r.allow_request_professional_agreement is None,
            r.language is None,
            r.rest_json is None,
            r.verified is None,
            r.deactivated is None,
            r.sort_order@ == "asc"@,
    {
        GetAllDriversQuery {
            page: default_page(),
            limit: default_limit(),
            pk_driver_id: None,
            firstname: None,
            lastname: None,
            gender: None,
            email: None,
            phone_number: None,
            is_searchable: None,
            allow_request_professional_agreement: None,
            language: None,
            rest_json: None,
            verified: None,
            deactivated: None,
            sort_order: default_sort_order(),
        }
    }
}

/// Filters and page of a staff list query.
#[derive(Debug)]
pub struct GetAllEmployeesQuery {
    pub page: u32,
    pub limit: u32,
    pub firstname: Option<String>,
    pub lastname: Option<String>,
    pub gender: Option<String>,
    pub personal_email: Option<String>,
    pub phone_number: Option<String>,
    pub professional_email: Option<String>,
    pub deactivated: Option<bool>,
    pub sort_order: String,
}

impl Default for GetAllEmployeesQuery {
    /// The first page of default size, no filter, ascending order.
    fn default() -> (r: Self)
        ensures
            r.page == 1,
            r.limit == 20,
            r.firstname is None,
            r.lastname is None,
            r.gender is None,
            r.personal_email is None,
            r.phone_number is None,
            r.professional_email is None,
            r.deactivated is None,
            r.sort_order@ == "asc"@,
    {
        GetAllEmployeesQuery {
            page: default_page(),
            limit: default_limit(),
            firstname: None,
            lastname: None,
            gender: None,
            personal_email: None,
            phone_number: None,
            professional_email: None,
            deactivated: None,
            sort_order: default_sort_order(),
        }
    }
}

/// Page and month filter of a workday list query.
#[derive(Debug, Clone, Copy, PartialEq, Eq, Structural)]
pub struct GetAllWorkdaysQuery {
    pub page: u32,
    pub limit: u32,
    pub month: Option<i32>,
    pub year: Option<i32>,
}

impl Default for GetAllWorkdaysQuery {
    /// The first page of default size, any month.
    fn default() -> (r: Self)
        ensures
            r.page == 1,
            r.limit == 20,
            r.month is None,
            r.year is None,
    {
        GetAllWorkdaysQuery { page: default_page(), limit: default_limit(), month: None, year: None }
    }
}

/// A request to register a driver.
#[derive(Debug)]
pub struct CreateDriverRequest {
    pub firstname: String,
    pub lastname: String,
    pub gender: Option<String>,
    pub email: String,
    pub password: String,
    pub phone_number: Option<String>,
    pub is_searchable: Option<bool>,
    pub allow_request_professional_agreement: Option<bool>,
    pub language: String,
}

/// A request to register a staff account.
#[derive(Debug)]
pub struct EmployeeCreateRequest {
    pub firstname: String,
    pub lastname: String,
    pub gender: Option<String>,
    pub personal_email: String,
    pub login_password: String,
    pub phone_number: Option<String>,
    pub professional_email: String,
    pub professional_email_password: String,
}

/// The registration record the authentication flow receives.
#[derive(Debug)]
pub struct EmployeeCreate {
    pub firstname: String,
    pub lastname: String,
    pub gender: Option<String>,
    pub personal_email: String,
    pub login_password: String,
    pub phone_number: Option<String>,
    pub professional_email: String,
    pub professional_email_password: String,
}

/// Credentials of a staff login.
#[derive(Debug)]
pub struct EmployeeLoginRequest {
    pub professional_email: String,
    pub password: String,
}

/// The token a staff login returns.
#[derive(Debug)]
pub struct EmployeeLoginResponse {
    pub token: String,
    pub token_type: String,
}

} // verus!
