use staff_authz::accreditation::{AssignAccreditationRequest, UpdateAccreditationRequest};
use staff_authz::catalog::{
    CrudType, EmployeeAuthorization, EmployeeLevel, EntityType, LevelAuthorizationLink, LightEmployee,
};
use staff_authz::derogation::CreateEmployeeDerogationRequest;
use staff_authz::errors::{ErrorKind, GrantError};
use staff_authz::store::{EmployeeAccreditationRow, EmployeeDerogationRow, GrantStore};
use staff_authz::window::Window;

const ADMIN: u128 = 0x1001;
const MANAGER: u128 = 0x1002;
const AGENT: u128 = 0x1003;
const NEWCOMER: u128 = 0x1004;
const DAY: i64 = 86_400_000_000;

fn at(y: i32, m: u32, d: u32) -> i64 {
    chrono::NaiveDate::from_ymd_opt(y, m, d)
        .unwrap()
        .and_hms_opt(0, 0, 0)
        .unwrap()
        .and_utc()
        .timestamp_micros()
}

fn level(id: i32, index: i32, label: &str) -> EmployeeLevel {
    EmployeeLevel { pk_employee_level_id: id, level_index: index, level_label: label.to_string() }
}

fn authorization(id: i32, code: &str) -> EmployeeAuthorization {
    EmployeeAuthorization {
        pk_employee_authorization_id: id,
        authorization_feature_code: code.to_string(),
        authorization_index: id,
        crud_type: CrudType::R,
        description: format!("{} access", code),
        category_name_code: "STAFF".to_string(),
        category_entity_type: EntityType::EMPLOYEE,
        category_index: 1,
    }
}

fn employee(id: u128, name: &str) -> LightEmployee {
    LightEmployee {
        pk_employee_id: id,
        firstname: name.to_string(),
        lastname: "Doe".to_string(),
        gender: None,
        professional_email: format!("{}@example.com", name),
    }
}

fn link(level_id: i32, perm: i32) -> LevelAuthorizationLink {
    LevelAuthorizationLink { fk_employee_level_id: level_id, fk_employee_authorization_type_id: perm }
}

fn accreditation(id: u128, who: u128, level_id: i32, start: i64, end: Option<i64>) -> EmployeeAccreditationRow {
    EmployeeAccreditationRow {
        pk_employee_accreditation_authorization_id: id,
        fk_recipient_employee_id: who,
        fk_employee_level_id: level_id,
        fk_authorizing_employee_id: None,
        start_at: start,
        end_at: end,
        created_at: start,
    }
}

/// Levels: 10 (ordinal 0) confers {1, 2, 3}; 11 (ordinal 1) confers {2, 42};
/// 12 (ordinal 2) confers {3}. Admin, manager and agent hold them since 2020.
fn store() -> GrantStore {
    let mut s = GrantStore::new();
    s.levels = vec![level(10, 0, "Administrator"), level(11, 1, "Manager"), level(12, 2, "Agent")];
    s.authorizations = vec![authorization(1, "A"), authorization(2, "B"), authorization(3, "C"), authorization(42, "X")];
    s.links = vec![link(10, 1), link(10, 2), link(10, 3), link(11, 2), link(11, 42), link(12, 3)];
    s.employees = vec![employee(ADMIN, "ada"), employee(MANAGER, "max"), employee(AGENT, "ann"), employee(NEWCOMER, "ned")];
    s.accreditations = vec![
        accreditation(1, ADMIN, 10, at(2020, 1, 1), None),
        accreditation(2, MANAGER, 11, at(2020, 1, 1), None),
        accreditation(3, AGENT, 12, at(2020, 1, 1), None),
    ];
    assert!(s.is_well_formed());
    s
}

fn now() -> i64 {
    at(2024, 3, 1)
}

#[test]
fn most_senior_level_confers_its_permissions() {
    let s = store();
    assert_eq!(s.resolve_permissions(ADMIN, now()), vec![1, 2, 3]);
}

#[test]
fn resolution_is_union_of_active_level_and_derogations() {
    let mut s = store();
    s.derogations = vec![
        // active
        EmployeeDerogationRow {
            pk_employee_authorization_derogation_id: 1,
            fk_recipient_employee_id: AGENT,
            fk_employee_authorization_type_id: 42,
            fk_authorizing_employee_id: MANAGER,
            derogation_reason: Some("cover".to_string()),
            start_at: now() - DAY,
            end_at: now() + DAY,
            created_at: now() - DAY,
        },
        // expired
        EmployeeDerogationRow {
            pk_employee_authorization_derogation_id: 2,
            fk_recipient_employee_id: AGENT,
            fk_employee_authorization_type_id: 1,
            fk_authorizing_employee_id: ADMIN,
            derogation_reason: None,
            start_at: now() - 3 * DAY,
            end_at: now(),
            created_at: now() - 3 * DAY,
        },
        // future
        EmployeeDerogationRow {
            pk_employee_authorization_derogation_id: 3,
            fk_recipient_employee_id: AGENT,
            fk_employee_authorization_type_id: 2,
            fk_authorizing_employee_id: ADMIN,
            derogation_reason: None,
            start_at: now() + 1,
            end_at: now() + DAY,
            created_at: now(),
        },
    ];
    // an expired accreditation of the agent contributes nothing
    s.accreditations[2] = accreditation(3, AGENT, 12, at(2020, 1, 1), Some(at(2023, 1, 1)));
    s.accreditations.push(accreditation(4, AGENT, 12, at(2023, 1, 1), None));
    s.accreditations.push(accreditation(5, NEWCOMER, 11, now() + DAY, None));
    assert!(s.is_well_formed());
    assert_eq!(s.resolve_permissions(AGENT, now()), vec![3, 42]);
    assert_eq!(s.resolve_permissions(NEWCOMER, now()), Vec::<i32>::new());
    assert_eq!(s.resolve_permissions(NEWCOMER, now() + DAY), vec![2, 42]);
    assert!(s.employee_has_permission(AGENT, 42, now()));
    assert!(!s.employee_has_permission(AGENT, 1, now()));
}

#[test]
fn resolution_on_empty_store_is_empty() {
    let s = GrantStore::new();
    assert!(s.is_well_formed());
    assert!(s.resolve_permissions(ADMIN, 0).is_empty());
    assert_eq!(s.most_senior_level_index(), None);
}

#[test]
fn current_level_is_most_senior_active() {
    let mut s = store();
    let l = s.get_current_employee_level_by_employee_id(MANAGER, now()).unwrap();
    assert_eq!(l.pk_employee_level_id, 11);
    assert_eq!(l.level_index, 1);
    assert_eq!(
        s.get_current_employee_level_by_employee_id(NEWCOMER, now()).unwrap_err(),
        GrantError::CurrentLevelNotFound
    );
    // rows that break the invariant still resolve to the most senior level
    s.accreditations.push(accreditation(9, MANAGER, 10, at(2021, 1, 1), None));
    assert!(!s.is_well_formed());
    let l = s.get_current_employee_level_by_employee_id(MANAGER, now()).unwrap();
    assert_eq!(l.level_index, 0);
    assert_eq!(s.most_senior_level_index(), Some(0));
}

#[test]
fn assign_by_root_succeeds_and_is_stored() {
    let mut s = store();
    let req = AssignAccreditationRequest { employee_id: NEWCOMER, level_id: 11, start_at: now(), end_at: None };
    let acc = s.assign_accreditation(&req, ADMIN, now(), 77).unwrap();
    assert_eq!(acc.accreditation_id, 77);
    assert_eq!(acc.recipient_employee.pk_employee_id, NEWCOMER);
    assert_eq!(acc.employee_level.level_index, 1);
    assert_eq!(acc.authorizing_employee.unwrap().firstname, "ada");
    assert_eq!(acc.created_at, now());
    assert_eq!(s.accreditations.len(), 4);
    assert_eq!(s.accreditations[3].fk_authorizing_employee_id, Some(ADMIN));
    assert!(s.is_well_formed());
    assert_eq!(s.resolve_permissions(NEWCOMER, now()), vec![2, 42]);
}

#[test]
fn assign_of_level_not_below_grantor_is_forbidden() {
    let mut s = store();
    // the manager (ordinal 1, not the root) assigns ordinal 2
    let req = AssignAccreditationRequest { employee_id: NEWCOMER, level_id: 12, start_at: now(), end_at: None };
    let e = s.assign_accreditation(&req, MANAGER, now(), 77).unwrap_err();
    assert_eq!(e, GrantError::ForbiddenAssignHigherLevel);
    assert_eq!(e.kind(), ErrorKind::Forbidden);
    assert_eq!(e.code(), "FORBIDDEN_ASSIGN_HIGHER_LEVEL");
    // its own ordinal too
    let req = AssignAccreditationRequest { employee_id: NEWCOMER, level_id: 11, start_at: now(), end_at: None };
    assert_eq!(s.assign_accreditation(&req, MANAGER, now(), 77).unwrap_err(), GrantError::ForbiddenAssignHigherLevel);
    assert_eq!(s.accreditations.len(), 3);
    // a lower ordinal passes the rule
    let req = AssignAccreditationRequest { employee_id: NEWCOMER, level_id: 10, start_at: now(), end_at: None };
    assert!(s.assign_accreditation(&req, MANAGER, now(), 77).is_ok());
}

#[test]
fn grantor_may_assign_a_lower_ordinal_than_its_own() {
    // grantor at ordinal 2 assigning ordinal 1: a strictly lower ordinal,
    // which the authority rule admits
    let mut s = store();
    let req = AssignAccreditationRequest { employee_id: NEWCOMER, level_id: 11, start_at: now(), end_at: None };
    let r = s.assign_accreditation(&req, AGENT, now(), 77);
    assert!(r.is_ok());
}

#[test]
fn assign_over_intersecting_window_conflicts() {
    let mut s = store();
    s.accreditations.push(accreditation(5, NEWCOMER, 12, at(2024, 1, 1), Some(at(2024, 6, 1))));
    let req = AssignAccreditationRequest {
        employee_id: NEWCOMER,
        level_id: 12,
        start_at: at(2024, 3, 1),
        end_at: Some(at(2024, 9, 1)),
    };
    let e = s.assign_accreditation(&req, ADMIN, at(2024, 3, 1), 77).unwrap_err();
    assert_eq!(e, GrantError::AccreditationAlreadyExists);
    assert_eq!(e.kind(), ErrorKind::Conflict);
    assert_eq!(e.code(), "ACCREDITATION_ALREADY_EXISTS_FOR_THIS_PERIOD");
    assert_eq!(s.accreditations.len(), 4);
    // a window that starts where the other ends does not intersect it
    let req = AssignAccreditationRequest { employee_id: NEWCOMER, level_id: 12, start_at: at(2024, 6, 1), end_at: None };
    assert!(s.assign_accreditation(&req, ADMIN, at(2024, 3, 1), 77).is_ok());
    assert!(s.is_well_formed());
}

#[test]
fn assign_validation_and_lookup_failures() {
    let mut s = store();
    let past = AssignAccreditationRequest { employee_id: NEWCOMER, level_id: 12, start_at: now() - 300_000_001, end_at: None };
    assert_eq!(s.assign_accreditation(&past, ADMIN, now(), 77).unwrap_err(), GrantError::StartInPast);
    let grace = AssignAccreditationRequest { employee_id: NEWCOMER, level_id: 12, start_at: now() - 300_000_000, end_at: None };
    assert!(store().assign_accreditation(&grace, ADMIN, now(), 78).is_ok());
    let bad = AssignAccreditationRequest { employee_id: NEWCOMER, level_id: 12, start_at: now(), end_at: Some(now()) };
    let e = s.assign_accreditation(&bad, ADMIN, now(), 77).unwrap_err();
    assert_eq!(e, GrantError::EndNotAfterStart);
    assert_eq!(e.kind(), ErrorKind::Validation);
    let nobody = AssignAccreditationRequest { employee_id: 0xdead, level_id: 12, start_at: now(), end_at: None };
    assert_eq!(s.assign_accreditation(&nobody, ADMIN, now(), 77).unwrap_err(), GrantError::EmployeeNotFound);
    let nolevel = AssignAccreditationRequest { employee_id: NEWCOMER, level_id: 99, start_at: now(), end_at: None };
    let e = s.assign_accreditation(&nolevel, ADMIN, now(), 77).unwrap_err();
    assert_eq!(e, GrantError::LevelNotFound);
    assert_eq!(e.kind(), ErrorKind::NotFound);
    let ok = AssignAccreditationRequest { employee_id: NEWCOMER, level_id: 12, start_at: now(), end_at: None };
    assert_eq!(s.assign_accreditation(&ok, 0xdead, now(), 77).unwrap_err(), GrantError::EmployeeNotFound);
    assert_eq!(s.assign_accreditation(&ok, NEWCOMER, now(), 77).unwrap_err(), GrantError::CurrentLevelNotFound);
    let e = s.assign_accreditation(&ok, ADMIN, now(), 1).unwrap_err();
    assert_eq!(e, GrantError::IdentifierInUse);
    assert_eq!(e.kind(), ErrorKind::Internal);
    assert_eq!(s.accreditations.len(), 3);
}

#[test]
fn update_excludes_itself_from_overlap() {
    let mut s = store();
    let upd = UpdateAccreditationRequest { level_id: 12, start_at: now(), end_at: Some(now() + 10 * DAY) };
    let acc = s.update_accreditation(3, &upd, ADMIN, now()).unwrap();
    assert_eq!(acc.accreditation_id, 3);
    assert_eq!(acc.recipient_employee.pk_employee_id, AGENT);
    assert_eq!(acc.end_at, Some(now() + 10 * DAY));
    assert_eq!(s.accreditations[2].start_at, now());
    assert!(s.is_well_formed());
    assert_eq!(s.update_accreditation(99, &upd, ADMIN, now()).unwrap_err(), GrantError::AccreditationNotFound);
    assert_eq!(s.update_accreditation(3, &upd, AGENT, now()).unwrap_err(), GrantError::ForbiddenAssignHigherLevel);
    // moving the agent's window onto the newcomer's accreditation conflicts
    s.accreditations.push(accreditation(8, AGENT, 12, now() + 20 * DAY, None));
    let upd = UpdateAccreditationRequest { level_id: 12, start_at: now(), end_at: Some(now() + 21 * DAY) };
    assert_eq!(s.update_accreditation(3, &upd, ADMIN, now()).unwrap_err(), GrantError::AccreditationAlreadyExists);
}

#[test]
fn delete_accreditation_needs_more_senior_requester() {
    let mut s = store();
    let e = s.delete_accreditation(2, AGENT, now()).unwrap_err();
    assert_eq!(e, GrantError::ForbiddenDeleteHigherLevel);
    assert_eq!(e.code(), "FORBIDDEN_DELETE_HIGHER_LEVEL");
    assert_eq!(s.delete_accreditation(2, MANAGER, now()).unwrap_err(), GrantError::ForbiddenDeleteHigherLevel);
    assert_eq!(s.delete_accreditation(42, ADMIN, now()).unwrap_err(), GrantError::AccreditationNotFound);
    assert_eq!(s.accreditations.len(), 3);
    s.delete_accreditation(2, ADMIN, now()).unwrap();
    assert_eq!(s.accreditations.len(), 2);
    assert!(s.get_employee_accreditation_by_id(2).is_err());
    assert!(s.resolve_permissions(MANAGER, now()).is_empty());
}

#[test]
fn derogation_granted_then_repeated_conflicts() {
    let mut s = store();
    let req = CreateEmployeeDerogationRequest {
        recipient_employee_id: AGENT,
        employee_authorization_type_id: 42,
        derogation_reason: Some("holiday cover".to_string()),
        start_at: now(),
        end_at: now() + 30 * DAY,
    };
    let d = s.create_employee_derogation(&req, MANAGER, now(), 1).unwrap();
    assert_eq!(d.pk_derogation_id, 1);
    assert_eq!(d.employee_authorization.pk_employee_authorization_id, 42);
    assert_eq!(d.authorizing_employee.pk_employee_id, MANAGER);
    assert_eq!(d.derogation_reason, Some("holiday cover".to_string()));
    assert_eq!(s.resolve_permissions(AGENT, now()), vec![3, 42]);
    let e = s.create_employee_derogation(&req, MANAGER, now(), 2).unwrap_err();
    assert_eq!(e, GrantError::HasAlreadyAuthorization);
    assert_eq!(e.kind(), ErrorKind::Conflict);
    assert_eq!(s.derogations.len(), 1);
    assert!(s.is_well_formed());
}

#[test]
fn derogation_of_unowned_permission_is_forbidden() {
    let mut s = store();
    let req = CreateEmployeeDerogationRequest {
        recipient_employee_id: NEWCOMER,
        employee_authorization_type_id: 1,
        derogation_reason: None,
        start_at: now(),
        end_at: now() + DAY,
    };
    let e = s.create_employee_derogation(&req, MANAGER, now(), 1).unwrap_err();
    assert_eq!(e, GrantError::ForbiddenAssignUnownedAuthorization);
    assert_eq!(e.kind(), ErrorKind::Forbidden);
    let missing = CreateEmployeeDerogationRequest {
        recipient_employee_id: NEWCOMER,
        employee_authorization_type_id: 7,
        derogation_reason: None,
        start_at: now(),
        end_at: now() + DAY,
    };
    assert_eq!(s.create_employee_derogation(&missing, ADMIN, now(), 1).unwrap_err(), GrantError::AuthorizationNotFound);
    assert!(s.derogations.is_empty());
}

#[test]
fn derogation_with_unordered_window_is_rejected() {
    let mut s = store();
    let req = CreateEmployeeDerogationRequest {
        recipient_employee_id: AGENT,
        employee_authorization_type_id: 42,
        derogation_reason: None,
        start_at: now() + DAY,
        end_at: now() + DAY,
    };
    let e = s.create_employee_derogation(&req, MANAGER, now(), 1).unwrap_err();
    assert_eq!(e, GrantError::EndNotAfterStart);
    assert_eq!(e.kind(), ErrorKind::Validation);
    assert!(s.derogations.is_empty());
    let earlier = CreateEmployeeDerogationRequest { end_at: now(), ..req };
    assert_eq!(s.create_employee_derogation(&earlier, MANAGER, now(), 1).unwrap_err(), GrantError::EndNotAfterStart);
    assert!(s.derogations.is_empty());
}

#[test]
fn delete_derogation_needs_the_permission() {
    let mut s = store();
    let req = CreateEmployeeDerogationRequest {
        recipient_employee_id: AGENT,
        employee_authorization_type_id: 42,
        derogation_reason: None,
        start_at: now(),
        end_at: now() + DAY,
    };
    s.create_employee_derogation(&req, MANAGER, now(), 5).unwrap();
    assert_eq!(s.get_employee_derogation_by_id(5).unwrap().recipient_employee.pk_employee_id, AGENT);
    let e = s.delete_employee_derogation_by_id(5, ADMIN, now()).unwrap_err();
    assert_eq!(e, GrantError::ForbiddenDeleteUnownedAuthorization);
    assert_eq!(e.code(), "FORBIDDEN_DELETE_UNOWNED_AUTHORIZATION");
    assert_eq!(s.delete_employee_derogation_by_id(6, MANAGER, now()).unwrap_err(), GrantError::DerogationNotFound);
    s.delete_employee_derogation_by_id(5, MANAGER, now()).unwrap();
    assert!(s.derogations.is_empty());
    assert_eq!(s.get_employee_derogation_by_id(5).unwrap_err(), GrantError::DerogationNotFound);
}

#[test]
fn windows_and_grace() {
    let w = Window::new(10, Some(20));
    assert!(w.covers_instant(10));
    assert!(!w.covers_instant(20));
    assert!(w.intersects_window(&Window::new(19, None)));
    assert!(!w.intersects_window(&Window::new(20, None)));
    assert!(!Window::new(5, Some(5)).is_valid_window());
    assert!(staff_authz::window::start_is_in_grace(now() - 300_000_000, now()));
    assert!(!staff_authz::window::start_is_in_grace(now() - 300_000_001, now()));
    assert!(staff_authz::window::start_is_in_grace(i64::MIN, i64::MIN));
}
