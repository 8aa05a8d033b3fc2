//! Properties of resolution and delegation that relate several functions,
//! stated over the same spec functions their contracts use.
use vstd::prelude::*;
use crate::accreditation::AssignAccreditationRequest;
use crate::derogation::CreateEmployeeDerogationRequest;
use crate::errors::GrantError;
use crate::store::GrantStore;
use crate::window::{lemma_intersects_iff_common_instant, start_in_grace, Window};

verus! {

impl GrantStore {
    /// Permissions conferred at `t` by the level of an accreditation of the
    /// principal that covers `t`.
    pub open spec fn level_permissions_at(self, employee_id: u128, t: int) -> Set<i32> {
        Set::new(
            |perm: i32|
                exists|i: int|
                    0 <= i < self.accreditations@.len() && #[trigger] self.accreditation_active(i, employee_id, t)
                        && self.level_confers(self.accreditations@[i].fk_employee_level_id, perm),
        )
    }

    /// Permission ids of the derogations of the principal that cover `t`.
    pub open spec fn derogation_permissions_at(self, employee_id: u128, t: int) -> Set<i32> {
        Set::new(
            |perm: i32|
                exists|j: int|
                    0 <= j < self.derogations@.len() && #[trigger] self.derogation_active(j, employee_id, t)
                        && self.derogations@[j].fk_employee_authorization_type_id == perm,
        )
    }
}

/// The resolved permission set of a principal at `t` is the union of the
/// permissions of the levels of its accreditations covering `t` and the
/// permission ids of its derogations covering `t`; every id in it comes from
/// a grant whose window covers `t`, never from an expired or future one.
pub proof fn lemma_resolution_is_union(store: GrantStore, employee_id: u128, t: int, ids: Seq<i32>)
    requires
        store.is_resolution(employee_id, t, ids),
    ensures
        ids.to_set() == store.level_permissions_at(employee_id, t).union(
            store.derogation_permissions_at(employee_id, t),
        ),
        forall|perm: i32|
            #![trigger ids.contains(perm)]
            ids.contains(perm) ==> (exists|i: int|
                0 <= i < store.accreditations@.len() && store.accreditations@[i].window().covers(t)
                    && #[trigger] store.accreditation_active(i, employee_id, t)) || (exists|j: int|
                0 <= j < store.derogations@.len() && store.derogations@[j].window().covers(t)
                    && #[trigger] store.derogation_active(j, employee_id, t)),
{
    assert(ids.to_set() =~= store.level_permissions_at(employee_id, t).union(
        store.derogation_permissions_at(employee_id, t),
    ));
}

/// In a well-formed store, at most one accreditation of a principal is active
/// at any instant.
pub proof fn lemma_single_active_accreditation(store: GrantStore, employee_id: u128, t: int, i: int, j: int)
    requires
        store.wf(),
        0 <= i < store.accreditations@.len(),
        0 <= j < store.accreditations@.len(),
        store.accreditation_active(i, employee_id, t),
        store.accreditation_active(j, employee_id, t),
    ensures
        i == j,
{
    if i != j {
        let a = store.accreditations@[i];
        let b = store.accreditations@[j];
        lemma_intersects_iff_common_instant(a.window(), b.window());
        assert(a.window().covers(t) && b.window().covers(t));
        assert(!a.window().intersects(b.window()));
    }
}

/// The checks that `assign_accreditation` makes before the authority rule
/// all pass.
pub open spec fn assign_prechecks_pass(
    store: GrantStore,
    req: AssignAccreditationRequest,
    grantor: u128,
    now: int,
) -> bool {
    &&& start_in_grace(req.start_at as int, now)
    &&& (Window { start_at: req.start_at, end_at: req.end_at }).is_valid()
    &&& store.find_employee(req.employee_id) is Some
    &&& store.find_level(req.level_id) is Some
    &&& store.find_employee(grantor) is Some
    &&& store.current_ordinal(grantor, now) is Some
}

/// Assigning a level whose ordinal is not below the grantor's current
/// ordinal fails with the authority error, unless the grantor is at the
/// single most senior ordinal.
pub proof fn lemma_assign_not_below_grantor_forbidden(
    store: GrantStore,
    req: AssignAccreditationRequest,
    grantor: u128,
    now: int,
    new_id: u128,
)
    requires
        assign_prechecks_pass(store, req, grantor, now),
        store.find_level(req.level_id)->0.level_index >= store.current_ordinal(grantor, now)->0,
        store.most_senior_ordinal() != Some(store.current_ordinal(grantor, now)->0),
    ensures
        store.assign_failure(req, grantor, now, new_id) == Some(GrantError::ForbiddenAssignHigherLevel),
        store.assign_failure(req, grantor, now, new_id)->0.spec_kind() == crate::errors::ErrorKind::Forbidden,
{
}

/// A grantor at the single most senior ordinal passes the authority rule for
/// any level.
pub proof fn lemma_root_grantor_not_forbidden(
    store: GrantStore,
    req: AssignAccreditationRequest,
    grantor: u128,
    now: int,
    new_id: u128,
)
    requires
        assign_prechecks_pass(store, req, grantor, now),
        store.most_senior_ordinal() == Some(store.current_ordinal(grantor, now)->0),
    ensures
        store.assign_failure(req, grantor, now, new_id) != Some(GrantError::ForbiddenAssignHigherLevel),
{
}

/// Assigning a window that intersects an existing accreditation of the same
/// principal fails with the conflict error (once the earlier checks pass).
pub proof fn lemma_assign_overlap_conflict(
    store: GrantStore,
    req: AssignAccreditationRequest,
    grantor: u128,
    now: int,
    new_id: u128,
    i: int,
)
    requires
        assign_prechecks_pass(store, req, grantor, now),
        store.may_assign(
            store.find_level(req.level_id)->0.level_index as int,
            store.current_ordinal(grantor, now)->0,
        ),
        0 <= i < store.accreditations@.len(),
        store.accreditations@[i].fk_recipient_employee_id == req.employee_id,
        store.accreditations@[i].window().intersects(Window { start_at: req.start_at, end_at: req.end_at }),
    ensures
        store.assign_failure(req, grantor, now, new_id) == Some(GrantError::AccreditationAlreadyExists),
        store.assign_failure(req, grantor, now, new_id)->0.spec_kind() == crate::errors::ErrorKind::Conflict,
{
    assert(store.conflicting(i, req.employee_id, Window { start_at: req.start_at, end_at: req.end_at }, None));
}

/// A derogation of a permission that the principal already holds fails with
/// the conflict error (once its window is valid).
pub proof fn lemma_derogation_already_held_conflict(
    store: GrantStore,
    req: CreateEmployeeDerogationRequest,
    grantor: u128,
    now: int,
    new_id: i32,
)
    requires
        start_in_grace(req.start_at as int, now),
        req.start_at < req.end_at,
        store.holds_permission(req.recipient_employee_id, now, req.employee_authorization_type_id),
    ensures
        store.derogation_failure(req, grantor, now, new_id) == Some(GrantError::HasAlreadyAuthorization),
        store.derogation_failure(req, grantor, now, new_id)->0.spec_kind() == crate::errors::ErrorKind::Conflict,
{
}

/// A derogation of a permission that the grantor does not hold fails with
/// the authority error (once the earlier checks pass): delegation never
/// escalates.
pub proof fn lemma_derogation_unowned_forbidden(
    store: GrantStore,
    req: CreateEmployeeDerogationRequest,
    grantor: u128,
    now: int,
    new_id: i32,
)
    requires
        start_in_grace(req.start_at as int, now),
        req.start_at < req.end_at,
        !store.holds_permission(req.recipient_employee_id, now, req.employee_authorization_type_id),
        store.find_employee(req.recipient_employee_id) is Some,
        store.find_authorization(req.employee_authorization_type_id) is Some,
        store.find_employee(grantor) is Some,
        !store.holds_permission(grantor, now, req.employee_authorization_type_id),
    ensures
        store.derogation_failure(req, grantor, now, new_id) == Some(
            GrantError::ForbiddenAssignUnownedAuthorization,
        ),
        store.derogation_failure(req, grantor, now, new_id)->0.spec_kind() == crate::errors::ErrorKind::Forbidden,
{
}

} // verus!
