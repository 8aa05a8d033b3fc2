//! Delegation control for derogations: single-permission grants that a
//! grantor may hand on only when holding the permission, and only to a
//! principal who does not already hold it.
use vstd::prelude::*;
use crate::catalog::{clone_opt_string, EmployeeAuthorization, LightEmployee};
use crate::errors::GrantError;
use crate::store::{
    derogation_has_id, is_first, lemma_find_first_at, lemma_find_first_none, EmployeeDerogationRow, GrantStore,
};
use crate::window::{start_in_grace, start_is_in_grace};

verus! {

/// A request to grant one permission to a principal over `[start_at, end_at)`.
#[derive(Debug)]
pub struct CreateEmployeeDerogationRequest {
    pub recipient_employee_id: u128,
    pub employee_authorization_type_id: i32,
    pub derogation_reason: Option<String>,
    pub start_at: i64,
    pub end_at: i64,
}

/// A derogation with its principal, permission and grantor resolved.
#[derive(Debug)]
pub struct EmployeeDerogation {
    pub pk_derogation_id: i32,
    pub recipient_employee: LightEmployee,
    pub employee_authorization: EmployeeAuthorization,
    pub authorizing_employee: LightEmployee,
    pub derogation_reason: Option<String>,
    pub start_at: i64,
    pub end_at: i64,
    pub created_at: i64,
}

/// `v` holds `x`.
pub fn contains_id(v: &Vec<i32>, x: i32) -> (r: bool)
    ensures
        r == v@.contains(x),
{
    let mut i: usize = 0;
    while i < v.len()
        invariant
            i <= v@.len(),
            forall|j: int| 0 <= j < i ==> v@[j] != x,
        decreases v@.len() - i,
    {
        if v[i] == x {
            return true;
        }
        i = i + 1;
    }
    false
}

impl GrantStore {
    /// The derogation row with its references resolved, or the first
    /// reference that does not resolve.
    pub open spec fn materialize_derogation(self, row: EmployeeDerogationRow) -> Result<EmployeeDerogation, GrantError> {
        match self.find_employee(row.fk_recipient_employee_id) {
            None => Err(GrantError::EmployeeNotFound),
            Some(e) => match self.find_authorization(row.fk_employee_authorization_type_id) {
                None => Err(GrantError::AuthorizationNotFound),
                Some(a) => match self.find_employee(row.fk_authorizing_employee_id) {
                    None => Err(GrantError::EmployeeNotFound),
                    Some(g) => Ok(
                        EmployeeDerogation {
                            pk_derogation_id: row.pk_employee_authorization_derogation_id,
                            recipient_employee: e,
                            employee_authorization: a,
                            authorizing_employee: g,
                            derogation_reason: row.derogation_reason,
                            start_at: row.start_at,
                            end_at: row.end_at,
                            created_at: row.created_at,
                        },
                    ),
                },
            },
        }
    }

    pub fn materialize_derogation_row(&self, row: &EmployeeDerogationRow) -> (r: Result<EmployeeDerogation, GrantError>)
        ensures
            r == self.materialize_derogation(*row),
    {
        let recipient_employee = self.get_light_employee_by_id(row.fk_recipient_employee_id)?;
        let employee_authorization = self.get_employee_authorization_by_type_id(row.fk_employee_authorization_type_id)?;
        let authorizing_employee = self.get_light_employee_by_id(row.fk_authorizing_employee_id)?;
        Ok(EmployeeDerogation {
            pk_derogation_id: row.pk_employee_authorization_derogation_id,
            recipient_employee,
            employee_authorization,
            authorizing_employee,
            derogation_reason: clone_opt_string(&row.derogation_reason),
            start_at: row.start_at,
            end_at: row.end_at,
            created_at: row.created_at,
        })
    }

    /// Derogation `id` with its references resolved.
    pub fn get_employee_derogation_by_id(&self, id: i32) -> (r: Result<EmployeeDerogation, GrantError>)
        ensures
            r == match self.find_derogation(id) {
                None => Err(GrantError::DerogationNotFound),
                Some(row) => self.materialize_derogation(row),
            },
    {
        match self.derogation_position(id) {
            None => Err(GrantError::DerogationNotFound),
            Some(i) => {
                proof {
                    lemma_find_first_at(self.derogations@, i as int, derogation_has_id(id));
                }
                self.materialize_derogation_row(&self.derogations[i])
            },
        }
    }

    /// `employee_id` holds permission `perm` at `now`.
    pub fn employee_has_permission(&self, employee_id: u128, perm: i32, now: i64) -> (r: bool)
        ensures
            r == self.holds_permission(employee_id, now as int, perm),
    {
        let held = self.resolve_permissions(employee_id, now);
        contains_id(&held, perm)
    }

    /// The first check that `create_employee_derogation` fails, if any.
    pub open spec fn derogation_failure(
        self,
        req: CreateEmployeeDerogationRequest,
        grantor: u128,
        now: int,
        new_id: i32,
    ) -> Option<GrantError> {
        if !start_in_grace(req.start_at as int, now) {
            Some(GrantError::StartInPast)
        } else if req.end_at <= req.start_at {
            Some(GrantError::EndNotAfterStart)
        } else if self.holds_permission(req.recipient_employee_id, now, req.employee_authorization_type_id) {
            Some(GrantError::HasAlreadyAuthorization)
        } else if self.find_employee(req.recipient_employee_id) is None {
            Some(GrantError::EmployeeNotFound)
        } else if self.find_authorization(req.employee_authorization_type_id) is None {
            Some(GrantError::AuthorizationNotFound)
        } else if self.find_employee(grantor) is None {
            Some(GrantError::EmployeeNotFound)
        } else if !self.holds_permission(grantor, now, req.employee_authorization_type_id) {
            Some(GrantError::ForbiddenAssignUnownedAuthorization)
        } else if self.find_derogation(new_id) is Some {
            Some(GrantError::IdentifierInUse)
        } else {
            None
        }
    }

    /// The row that a successful derogation stores.
    pub open spec fn derogation_row(
        req: CreateEmployeeDerogationRequest,
        grantor: u128,
        now: int,
        new_id: i32,
    ) -> EmployeeDerogationRow {
        EmployeeDerogationRow {
            pk_employee_authorization_derogation_id: new_id,
            fk_recipient_employee_id: req.recipient_employee_id,
            fk_employee_authorization_type_id: req.employee_authorization_type_id,
            fk_authorizing_employee_id: grantor,
            derogation_reason: req.derogation_reason,
            start_at: req.start_at,
            end_at: req.end_at,
            created_at: now as i64,
        }
    }

    /// The same reference data and accreditations as `other`.
    pub open spec fn same_except_derogations(self, other: GrantStore) -> bool {
        &&& self.levels == other.levels
        &&& self.authorizations == other.authorizations
        &&& self.links == other.links
        &&& self.employees == other.employees
        &&& self.accreditations == other.accreditations
    }

    /// Grants one permission to a principal over a window, on behalf of
    /// `grantor`, at instant `now`; the new row gets identifier `new_id`.
    ///
    /// The checks run in order, the first failure wins, and a failure leaves
    /// the store as it was: the start lies within the grace period, the end
    /// lies after the start, the principal does not already hold the
    /// permission, principal, permission and grantor exist, the grantor holds
    /// the permission, and `new_id` is free.
    pub fn create_employee_derogation(
        &mut self,
        request: &CreateEmployeeDerogationRequest,
        grantor: u128,
        now: i64,
        new_id: i32,
    ) -> (r: Result<EmployeeDerogation, GrantError>)
        ensures
            old(self).wf() ==> final(self).wf(),
            match r {
                Ok(d) => {
                    &&& old(self).derogation_failure(*request, grantor, now as int, new_id) is None
                    &&& final(self).derogations@ == old(self).derogations@.push(
                        GrantStore::derogation_row(*request, grantor, now as int, new_id),
                    )
                    &&& final(self).same_except_derogations(*old(self))
                    &&& old(self).materialize_derogation(
                        GrantStore::derogation_row(*request, grantor, now as int, new_id),
                    ) == Ok::<EmployeeDerogation, GrantError>(d)
                },
                Err(e) => {
                    &&& old(self).derogation_failure(*request, grantor, now as int, new_id) == Some(e)
                    &&& *final(self) == *old(self)
                },
            },
    {
        if !start_is_in_grace(request.start_at, now) {
            return Err(GrantError::StartInPast);
        }
        if request.end_at <= request.start_at {
            return Err(GrantError::EndNotAfterStart);
        }
        let perm = request.employee_authorization_type_id;
        if self.employee_has_permission(request.recipient_employee_id, perm, now) {
            return Err(GrantError::HasAlreadyAuthorization);
        }
        let recipient_employee = self.get_light_employee_by_id(request.recipient_employee_id)?;
        let employee_authorization = self.get_employee_authorization_by_type_id(perm)?;
        let authorizing_employee = self.get_light_employee_by_id(grantor)?;
        if !self.employee_has_permission(grantor, perm, now) {
            return Err(GrantError::ForbiddenAssignUnownedAuthorization);
        }
        match self.derogation_position(new_id) {
            Some(i) => {
                proof {
                    lemma_find_first_at(self.derogations@, i as int, derogation_has_id(new_id));
                }
                return Err(GrantError::IdentifierInUse);
            },
            None => {
                proof {
                    lemma_find_first_none(self.derogations@, derogation_has_id(new_id));
                }
            },
        }
        let row = EmployeeDerogationRow {
            pk_employee_authorization_derogation_id: new_id,
            fk_recipient_employee_id: request.recipient_employee_id,
            fk_employee_authorization_type_id: perm,
            fk_authorizing_employee_id: grantor,
            derogation_reason: clone_opt_string(&request.derogation_reason),
            start_at: request.start_at,
            end_at: request.end_at,
            created_at: now,
        };
        let derogation_reason = clone_opt_string(&request.derogation_reason);
        let ghost before = *self;
        proof {
            assert forall|j: int| 0 <= j < before.derogations@.len() implies
                before.derogations@[j].pk_employee_authorization_derogation_id != new_id by {
                assert(!derogation_has_id(new_id)(before.derogations@[j]));
            }
        }
        self.derogations.push(row);
        proof {
            let s = self.derogations@;
            assert(s == before.derogations@.push(row));
            assert(forall|j: int| 0 <= j < before.derogations@.len() ==> s[j] == before.derogations@[j]);
            assert(s[s.len() - 1] == row);
        }
        Ok(EmployeeDerogation {
            pk_derogation_id: new_id,
            recipient_employee,
            employee_authorization,
            authorizing_employee,
            derogation_reason,
            start_at: request.start_at,
            end_at: request.end_at,
            created_at: now,
        })
    }

    /// The first check that `delete_employee_derogation_by_id` fails, if any.
    pub open spec fn derogation_delete_failure(self, id: i32, requester: u128, now: int) -> Option<GrantError> {
        match self.find_derogation(id) {
            None => Some(GrantError::DerogationNotFound),
            Some(row) => match self.materialize_derogation(row) {
                Err(e) => Some(e),
                Ok(d) => if !self.holds_permission(
                    requester,
                    now,
                    d.employee_authorization.pk_employee_authorization_id,
                ) {
                    Some(GrantError::ForbiddenDeleteUnownedAuthorization)
                } else {
                    None
                },
            },
        }
    }

    /// Removes derogation `id` on behalf of `requester`, at instant `now`: the
    /// requester must hold the derogated permission. A failure leaves the
    /// store as it was.
    pub fn delete_employee_derogation_by_id(&mut self, id: i32, requester: u128, now: i64) -> (r: Result<
        (),
        GrantError,
    >)
        ensures
            old(self).wf() ==> final(self).wf(),
            match r {
                Ok(_) => {
                    &&& old(self).derogation_delete_failure(id, requester, now as int) is None
                    &&& exists|i: int|
                        is_first(old(self).derogations@, i, derogation_has_id(id))
                            && final(self).derogations@ == old(self).derogations@.remove(i)
                    &&& final(self).same_except_derogations(*old(self))
                },
                Err(e) => {
                    &&& old(self).derogation_delete_failure(id, requester, now as int) == Some(e)
                    &&& *final(self) == *old(self)
                },
            },
    {
        let pos = match self.derogation_position(id) {
            Some(i) => i,
            None => {
                proof {
                    lemma_find_first_none(self.derogations@, derogation_has_id(id));
                }
                return Err(GrantError::DerogationNotFound);
            },
        };
        proof {
            lemma_find_first_at(self.derogations@, pos as int, derogation_has_id(id));
        }
        let derogation = self.materialize_derogation_row(&self.derogations[pos])?;
        if !self.employee_has_permission(requester, derogation.employee_authorization.pk_employee_authorization_id, now) {
            return Err(GrantError::ForbiddenDeleteUnownedAuthorization);
        }
        let ghost before = *self;
        self.derogations.remove(pos);
        proof {
            let s = self.derogations@;
            let b = before.derogations@;
            assert(s == b.remove(pos as int));
            b.remove_ensures(pos as int);
            if before.wf() {
                assert forall|i: int, j: int|
                    0 <= i < s.len() && 0 <= j < s.len() && i != j implies (#[trigger] s[i]).pk_employee_authorization_derogation_id
                    != (#[trigger] s[j]).pk_employee_authorization_derogation_id by {
                    let bi = if i < pos { i } else { i + 1 };
                    let bj = if j < pos { j } else { j + 1 };
                    assert(s[i] == b[bi] && s[j] == b[bj]);
                }
                assert forall|i: int| 0 <= i < s.len() implies (#[trigger] s[i]).window().is_valid() by {
                    let bi = if i < pos { i } else { i + 1 };
                    assert(s[i] == b[bi]);
                }
            }
        }
        Ok(())
    }
}

} // verus!
