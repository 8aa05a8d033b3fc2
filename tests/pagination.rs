use staff_authz::paginate::{default_limit, default_page, default_sort_order, PaginateQuery, PAGINATE_MAX_LIMIT};
use staff_authz::requests::{GetAllDriversQuery, GetAllEmployeesQuery, GetAllWorkdaysQuery};

#[test]
fn handlers_test_pagination_validation() {
    // Test valid page and limit
    let valid_query = GetAllDriversQuery {
        page: 1,
        limit: 50,
        ..Default::default()
    };
    assert_eq!(valid_query.page, 1);
    assert_eq!(valid_query.limit, 50);

    // Test default values
    let default_query = GetAllDriversQuery {
        ..Default::default()
    };
    assert_eq!(default_query.page, 1);
    assert_eq!(default_query.limit, 20);
}

#[test]
fn driver_handlers_test_pagination_validation() {
    // Test valid page and limit
    let valid_query = GetAllDriversQuery {
        page: 1,
        limit: 50,
        ..Default::default()
    };
    assert_eq!(valid_query.page, 1);
    assert_eq!(valid_query.limit, 50);

    // Test default values
    let default_query = GetAllDriversQuery {
        ..Default::default()
    };
    assert_eq!(default_query.page, 1);
    assert_eq!(default_query.limit, 20);
}

#[test]
fn defaults_of_queries() {
    assert_eq!(default_page(), 1);
    assert_eq!(default_limit(), 20);
    assert_eq!(default_sort_order(), "asc");
    assert!(PAGINATE_MAX_LIMIT == 100);

    let drivers = GetAllDriversQuery::default();
    assert_eq!(drivers.sort_order, "asc");
    assert_eq!(drivers.firstname, None);
    assert_eq!(drivers.is_searchable, None);

    let employees = GetAllEmployeesQuery::default();
    assert_eq!(employees.page, 1);
    assert_eq!(employees.limit, 20);
    assert_eq!(employees.sort_order, "asc");
    assert_eq!(employees.deactivated, None);

    let workdays = GetAllWorkdaysQuery::default();
    assert_eq!(workdays.page, 1);
    assert_eq!(workdays.limit, 20);
    assert_eq!(workdays.month, None);

    let page = PaginateQuery::default();
    assert_eq!(page.page, 1);
    assert_eq!(page.limit, 20);
}

#[test]
fn offset_of_a_page() {
    assert_eq!(PaginateQuery { page: 1, limit: 20 }.offset(), 0);
    assert_eq!(PaginateQuery { page: 3, limit: 20 }.offset(), 40);
    assert_eq!(PaginateQuery { page: u32::MAX, limit: u32::MAX }.offset(), (u32::MAX as u64 - 1) * u32::MAX as u64);
}
