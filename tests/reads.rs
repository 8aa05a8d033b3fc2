use staff_authz::access::{has_all_permissions, require_permissions, AuthState};
use staff_authz::catalog::{CrudType, EmployeeAuthorization, EmployeeLevel, EntityType, LevelAuthorizationLink, LightEmployee};
use staff_authz::errors::GrantError;
use staff_authz::jwt::{Claims, RefreshClaims};
use staff_authz::login::{authenticate, login_verdict};
use staff_authz::paginate::{check_page, PaginateQuery};
use staff_authz::store::{EmployeeAccreditationRow, EmployeeDerogationRow, GrantStore};
use staff_authz::window::Window;

const P: u128 = 7;
const Q: u128 = 8;

fn row(id: u128, who: u128, level_id: i32, start: i64, end: Option<i64>, created: i64) -> EmployeeAccreditationRow {
    EmployeeAccreditationRow {
        pk_employee_accreditation_authorization_id: id,
        fk_recipient_employee_id: who,
        fk_employee_level_id: level_id,
        fk_authorizing_employee_id: Some(Q),
        start_at: start,
        end_at: end,
        created_at: created,
    }
}

fn person(id: u128) -> LightEmployee {
    LightEmployee {
        pk_employee_id: id,
        firstname: "Lee".to_string(),
        lastname: "Roe".to_string(),
        gender: Some("F".to_string()),
        professional_email: "lee@example.com".to_string(),
    }
}

fn authorization(id: i32) -> EmployeeAuthorization {
    EmployeeAuthorization {
        pk_employee_authorization_id: id,
        authorization_feature_code: "DRIVERS".to_string(),
        authorization_index: 1,
        crud_type: CrudType::U,
        description: "update drivers".to_string(),
        category_name_code: "FLEET".to_string(),
        category_entity_type: EntityType::DRIVER,
        category_index: 2,
    }
}

fn store() -> GrantStore {
    let mut s = GrantStore::new();
    s.levels = vec![
        EmployeeLevel { pk_employee_level_id: 1, level_index: 0, level_label: "Root".to_string() },
        EmployeeLevel { pk_employee_level_id: 2, level_index: 1, level_label: "Staff".to_string() },
    ];
    s.authorizations = vec![authorization(5), authorization(6), authorization(9)];
    s.links = vec![
        LevelAuthorizationLink { fk_employee_level_id: 1, fk_employee_authorization_type_id: 9 },
        LevelAuthorizationLink { fk_employee_level_id: 1, fk_employee_authorization_type_id: 5 },
        LevelAuthorizationLink { fk_employee_level_id: 2, fk_employee_authorization_type_id: 6 },
    ];
    s.employees = vec![person(P), person(Q)];
    s.accreditations = vec![
        row(100, P, 2, 300, Some(400), 3),
        row(101, Q, 1, 0, None, 1),
        row(102, P, 1, 100, Some(200), 2),
        row(103, P, 99, 200, Some(300), 4),
        row(104, P, 2, 100, Some(100 + 1), 5),
    ];
    s
}

#[test]
fn cache_miss_recomputes_and_writes_json() {
    let s = store();
    let first = s.get_employee_permissions(Q, 10, &None);
    assert_eq!(first.permissions, vec![5, 9]);
    assert_eq!(first.cache_write, Some("[5,9]".to_string()));
}

#[test]
fn cache_hit_is_returned_as_is() {
    let s = store();
    let hit = s.get_employee_permissions(Q, 10, &Some("[3,1]".to_string()));
    assert_eq!(hit.permissions, vec![3, 1]);
    assert_eq!(hit.cache_write, None);
    let bad = s.get_employee_permissions(Q, 10, &Some("not json".to_string()));
    assert_eq!(bad.permissions, vec![5, 9]);
    assert_eq!(bad.cache_write, Some("[5,9]".to_string()));
}

#[test]
fn repeated_reads_within_ttl_agree() {
    let mut s = store();
    let first = s.get_employee_permissions(Q, 10, &None);
    let held = first.cache_write.clone();
    // the grant changes, the cached entry does not
    s.accreditations.remove(1);
    let second = s.get_employee_permissions(Q, 20, &held);
    assert_eq!(second.permissions, first.permissions);
    assert_eq!(second.cache_write, None);
    let fresh = s.get_employee_permissions(Q, 20, &None);
    assert!(fresh.permissions.is_empty());
    assert_eq!(fresh.cache_write, Some("[]".to_string()));
}

#[test]
fn settle_from_decoded_ids() {
    let s = store();
    assert_eq!(s.settle_permissions(Q, 10, Some(vec![4])), (vec![4], false));
    assert_eq!(s.settle_permissions(Q, 10, None), (vec![5, 9], true));
}

#[test]
fn lookups_and_level_permissions() {
    let s = store();
    assert_eq!(s.get_employee_level_by_id(2).unwrap().level_label, "Staff");
    assert_eq!(s.get_employee_level_by_id(3).unwrap_err(), GrantError::LevelNotFound);
    assert_eq!(s.get_light_employee_by_id(99).unwrap_err(), GrantError::EmployeeNotFound);
    assert_eq!(s.get_employee_authorization_by_type_id(6).unwrap().crud_type, CrudType::U);
    assert_eq!(s.get_employee_authorization_by_type_id(1).unwrap_err(), GrantError::AuthorizationNotFound);
    assert_eq!(s.get_all_employee_levels().len(), 2);
    assert_eq!(s.get_all_employee_authorizations().len(), 3);
    let ids: Vec<i32> = s
        .get_all_employee_authorizations_by_level_id(1)
        .iter()
        .map(|a| a.pk_employee_authorization_id)
        .collect();
    assert_eq!(ids, vec![5, 9]);
    let with = s.get_employee_level_with_authorizations_by_id(2).unwrap();
    assert_eq!(with.level_index, 1);
    assert_eq!(with.authorizations.len(), 1);
    assert_eq!(with.authorizations[0].pk_employee_authorization_id, 6);
    assert!(s.level_confers_permission(2, 6));
    assert!(!s.level_confers_permission(2, 5));
}

#[test]
fn list_in_start_order_with_pages() {
    let s = store();
    let (all, total) = s.get_all_employee_accreditations(&PaginateQuery { page: 1, limit: 20 });
    assert_eq!(total, 5);
    // row 103 names a level that does not exist and is left out
    let ids: Vec<u128> = all.iter().map(|a| a.accreditation_id).collect();
    assert_eq!(ids, vec![101, 102, 104, 100]);
    let (page, _) = s.get_all_employee_accreditations(&PaginateQuery { page: 2, limit: 2 });
    let ids: Vec<u128> = page.iter().map(|a| a.accreditation_id).collect();
    assert_eq!(ids, vec![104]);
    let (beyond, total) = s.get_all_employee_accreditations(&PaginateQuery { page: 9, limit: 2 });
    assert!(beyond.is_empty());
    assert_eq!(total, 5);
}

#[test]
fn list_of_one_principal_in_start_order() {
    let s = store();
    let (mine, total) = s.get_employee_accreditations_by_employee_id(P, &PaginateQuery { page: 1, limit: 3 });
    assert_eq!(total, 4);
    // starts 100 (twice, kept in store order), then 200 (dangling level, left out)
    let ids: Vec<u128> = mine.iter().map(|a| a.accreditation_id).collect();
    assert_eq!(ids, vec![102, 104]);
    let (rest, _) = s.get_employee_accreditations_by_employee_id(P, &PaginateQuery { page: 2, limit: 3 });
    let ids: Vec<u128> = rest.iter().map(|a| a.accreditation_id).collect();
    assert_eq!(ids, vec![100]);
    let between = s.get_all_employee_accreditations_from(P, &Window::new(150, Some(350)));
    let ids: Vec<u128> = between.iter().map(|a| a.accreditation_id).collect();
    assert_eq!(ids, vec![102, 100]);
    let acc = s.get_employee_accreditation_by_id(100).unwrap();
    assert_eq!(acc.authorizing_employee.unwrap().pk_employee_id, Q);
    assert_eq!(s.get_employee_accreditation_by_id(103).unwrap_err(), GrantError::LevelNotFound);
}

#[test]
fn well_formed_store_pages_keep_every_row() {
    let mut s = store();
    assert!(!s.is_well_formed());
    // drop the row with a dangling level and one that intersects row 102
    s.accreditations.retain(|a| a.pk_employee_accreditation_authorization_id < 103);
    assert!(s.is_well_formed());
    let (page, total) = s.get_all_employee_accreditations(&PaginateQuery { page: 1, limit: 3 });
    assert_eq!(total, 3);
    let ids: Vec<u128> = page.iter().map(|a| a.accreditation_id).collect();
    assert_eq!(ids, vec![101, 102, 100]);
    // a derogation naming an unknown grantor breaks the invariant
    s.derogations.push(EmployeeDerogationRow {
        pk_employee_authorization_derogation_id: 1,
        fk_recipient_employee_id: P,
        fk_employee_authorization_type_id: 6,
        fk_authorizing_employee_id: 99,
        derogation_reason: None,
        start_at: 0,
        end_at: 10,
        created_at: 0,
    });
    assert!(!s.is_well_formed());
}

#[test]
fn list_derogations_in_start_order() {
    let mut s = store();
    for (id, start) in [(1, 50i64), (2, 10), (3, 50)] {
        s.derogations.push(EmployeeDerogationRow {
            pk_employee_authorization_derogation_id: id,
            fk_recipient_employee_id: P,
            fk_employee_authorization_type_id: 6,
            fk_authorizing_employee_id: Q,
            derogation_reason: None,
            start_at: start,
            end_at: start + 10,
            created_at: 0,
        });
    }
    let (all, total) = s.get_all_employee_derogations(&PaginateQuery { page: 1, limit: 10 });
    assert_eq!(total, 3);
    let ids: Vec<i32> = all.iter().map(|d| d.pk_derogation_id).collect();
    assert_eq!(ids, vec![2, 1, 3]);
}

#[test]
fn route_guard_requires_every_permission() {
    let state = AuthState { employee_id: P, authorizations: vec![1, 2, 3] };
    assert!(require_permissions(&vec![1, 3], Some(&state)).is_ok());
    assert!(require_permissions(&vec![], Some(&state)).is_ok());
    assert_eq!(require_permissions(&vec![1, 4], Some(&state)).unwrap_err(), GrantError::InsufficientPermissions);
    assert_eq!(require_permissions(&vec![1], None).unwrap_err(), GrantError::AuthenticationRequired);
    assert!(!has_all_permissions(&vec![4], &vec![]));
}

#[test]
fn token_claims_expiry() {
    let c = Claims::new(P, "a@b.c".to_string(), "A".to_string(), "B".to_string(), vec![1], 15, 1_000);
    assert_eq!(c.iat, 1_000);
    assert_eq!(c.exp, 1_900);
    assert!(!c.is_expired(1_900));
    assert!(c.is_expired(1_901));
    let r = RefreshClaims::new(P, 60 * 24 * 7, 0);
    assert_eq!(r.exp, 604_800);
    assert!(!r.is_expired(604_800));
    assert!(r.is_expired(604_801));
}

#[test]
fn catalog_codes() {
    assert_eq!("DRIVER".parse::<EntityType>(), Ok(EntityType::DRIVER));
    assert_eq!(EntityType::from_code("EMPLOYEE"), Some(EntityType::EMPLOYEE));
    assert_eq!(EntityType::from_code("driver"), None);
    assert_eq!("D".parse::<CrudType>(), Ok(CrudType::D));
    assert_eq!(CrudType::from_code("X"), None);
    assert_eq!(GrantError::HasAlreadyAuthorization.code(), "HAS_ALREADY_AUTHORIZATION");
    assert_eq!(GrantError::StartInPast.message(), "The start date must be in the future.");
}

#[test]
fn login_checks_password_against_stored_hash() {
    let hash = bcrypt::hash("s3cret-pass", 4).unwrap();
    assert!(authenticate("s3cret-pass", Some(hash.as_str())).is_ok());
    assert_eq!(authenticate("wrong-pass", Some(hash.as_str())).unwrap_err(), GrantError::InvalidCredentials);
    assert_eq!(authenticate("s3cret-pass", Some("not a hash")).unwrap_err(), GrantError::PasswordCheckFailed);
    assert_eq!(authenticate("s3cret-pass", None).unwrap_err(), GrantError::InvalidCredentials);
    assert_eq!(login_verdict(true, Some(true)), Ok(()));
    assert_eq!(login_verdict(false, Some(true)), Err(GrantError::InvalidCredentials));
}

#[test]
fn page_checks() {
    assert!(check_page(&PaginateQuery { page: 1, limit: 100 }).is_ok());
    assert_eq!(check_page(&PaginateQuery { page: 0, limit: 10 }), Err(GrantError::InvalidPage));
    assert_eq!(check_page(&PaginateQuery { page: 1, limit: 0 }), Err(GrantError::InvalidLimit));
    assert_eq!(check_page(&PaginateQuery { page: 1, limit: 101 }), Err(GrantError::InvalidLimit));
}
