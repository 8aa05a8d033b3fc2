//! Delegation control for accreditations: who may assign, update or delete
//! a level grant, and the one-accreditation-per-instant rule.
use vstd::prelude::*;
use crate::catalog::{EmployeeLevel, LightEmployee};
use crate::errors::GrantError;
use crate::store::{
    accreditation_has_id, is_first, lemma_find_first_at, lemma_find_first_none, level_has_id,
    EmployeeAccreditationRow, GrantStore,
};
use crate::window::{lemma_intersects_symmetric, start_in_grace, start_is_in_grace, Window};

verus! {

/// A request to grant `level_id` to principal `employee_id` over a window.
#[derive(Debug, Clone, Copy, PartialEq, Eq, Structural)]
pub struct AssignAccreditationRequest {
    pub employee_id: u128,
    pub level_id: i32,
    pub start_at: i64,
    pub end_at: Option<i64>,
}

/// A request to replace the level and window of an accreditation.
#[derive(Debug, Clone, Copy, PartialEq, Eq, Structural)]
pub struct UpdateAccreditationRequest {
    pub level_id: i32,
    pub start_at: i64,
    pub end_at: Option<i64>,
}

/// An accreditation with its principal, level and grantor resolved.
#[derive(Debug)]
pub struct EmployeeAccreditation {
    pub accreditation_id: u128,
    pub recipient_employee: LightEmployee,
    pub employee_level: EmployeeLevel,
    pub authorizing_employee: Option<LightEmployee>,
    pub start_at: i64,
    pub end_at: Option<i64>,
    pub created_at: i64,
}

impl GrantStore {
    /// The accreditation row with its references resolved, or the first
    /// reference that does not resolve.
    pub open spec fn materialize_accreditation(self, row: EmployeeAccreditationRow) -> Result<
        EmployeeAccreditation,
        GrantError,
    > {
        match self.find_employee(row.fk_recipient_employee_id) {
            None => Err(GrantError::EmployeeNotFound),
            Some(e) => match self.find_level(row.fk_employee_level_id) {
                None => Err(GrantError::LevelNotFound),
                Some(l) => match row.fk_authorizing_employee_id {
                    None => Ok(
                        EmployeeAccreditation {
                            accreditation_id: row.pk_employee_accreditation_authorization_id,
                            recipient_employee: e,
                            employee_level: l,
                            authorizing_employee: None,
                            start_at: row.start_at,
                            end_at: row.end_at,
                            created_at: row.created_at,
                        },
                    ),
                    Some(g) => match self.find_employee(g) {
                        None => Err(GrantError::EmployeeNotFound),
                        Some(ge) => Ok(
                            EmployeeAccreditation {
                                accreditation_id: row.pk_employee_accreditation_authorization_id,
                                recipient_employee: e,
                                employee_level: l,
                                authorizing_employee: Some(ge),
                                start_at: row.start_at,
                                end_at: row.end_at,
                                created_at: row.created_at,
                            },
                        ),
                    },
                },
            },
        }
    }

    pub fn materialize(&self, row: &EmployeeAccreditationRow) -> (r: Result<EmployeeAccreditation, GrantError>)
        ensures
            r == self.materialize_accreditation(*row),
    {
        let recipient_employee = self.get_light_employee_by_id(row.fk_recipient_employee_id)?;
        let employee_level = self.get_employee_level_by_id(row.fk_employee_level_id)?;
        let authorizing_employee = match row.fk_authorizing_employee_id {
            Some(g) => Some(self.get_light_employee_by_id(g)?),
            None => None,
        };
        Ok(EmployeeAccreditation {
            accreditation_id: row.pk_employee_accreditation_authorization_id,
            recipient_employee,
            employee_level,
            authorizing_employee,
            start_at: row.start_at,
            end_at: row.end_at,
            created_at: row.created_at,
        })
    }

    /// Accreditation `accreditation_id` with its references resolved.
    pub fn get_employee_accreditation_by_id(&self, accreditation_id: u128) -> (r: Result<
        EmployeeAccreditation,
        GrantError,
    >)
        ensures
            r == match self.find_accreditation(accreditation_id) {
                None => Err(GrantError::AccreditationNotFound),
                Some(row) => self.materialize_accreditation(row),
            },
    {
        match self.accreditation_position(accreditation_id) {
            None => Err(GrantError::AccreditationNotFound),
            Some(i) => {
                proof {
                    lemma_find_first_at(self.accreditations@, i as int, accreditation_has_id(accreditation_id));
                }
                self.materialize(&self.accreditations[i])
            },
        }
    }

    /// Accreditation `i` belongs to `employee_id`, intersects `w`, and is not
    /// the one `except` names.
    pub open spec fn conflicting(self, i: int, employee_id: u128, w: Window, except: Option<u128>) -> bool {
        &&& self.accreditations@[i].fk_recipient_employee_id == employee_id
        &&& self.accreditations@[i].window().intersects(w)
        &&& except != Some(self.accreditations@[i].pk_employee_accreditation_authorization_id)
    }

    /// Some accreditation of `employee_id` other than `except` intersects `w`.
    pub open spec fn overlaps_existing(self, employee_id: u128, w: Window, except: Option<u128>) -> bool {
        exists|i: int| 0 <= i < self.accreditations@.len() && #[trigger] self.conflicting(i, employee_id, w, except)
    }

    pub fn has_conflicting_accreditation(&self, employee_id: u128, w: &Window, except: Option<u128>) -> (r: bool)
        ensures
            r == self.overlaps_existing(employee_id, *w, except),
    {
        let mut i: usize = 0;
        while i < self.accreditations.len()
            invariant
                i <= self.accreditations@.len(),
                forall|j: int| 0 <= j < i ==> !#[trigger] self.conflicting(j, employee_id, *w, except),
            decreases self.accreditations@.len() - i,
        {
            let a = self.accreditations[i];
            let skip = match except {
                Some(x) => x == a.pk_employee_accreditation_authorization_id,
                None => false,
            };
            if a.fk_recipient_employee_id == employee_id && !skip && Window::new(a.start_at, a.end_at).intersects_window(w) {
                assert(self.conflicting(i as int, employee_id, *w, except));
                return true;
            }
            i = i + 1;
        }
        false
    }

    /// The authority rule: a grantor of ordinal `grantor_ordinal` may assign a
    /// level of ordinal `level_ordinal` when the latter is strictly lower, or
    /// when the grantor is at the single most senior ordinal.
    ///
    /// The comparison is taken literally as `level_ordinal < grantor_ordinal`
    /// (equal or higher ordinals are refused), not as "strictly more junior":
    /// since lower ordinals are more senior, a level more senior than the
    /// grantor's passes this rule.
    pub open spec fn may_assign(self, level_ordinal: int, grantor_ordinal: int) -> bool {
        level_ordinal < grantor_ordinal || self.most_senior_ordinal() == Some(grantor_ordinal)
    }

    /// The first check that `assign_accreditation` fails, if any.
    pub open spec fn assign_failure(
        self,
        req: AssignAccreditationRequest,
        grantor: u128,
        now: int,
        new_id: u128,
    ) -> Option<GrantError> {
        let w = Window { start_at: req.start_at, end_at: req.end_at };
        if !start_in_grace(req.start_at as int, now) {
            Some(GrantError::StartInPast)
        } else if !w.is_valid() {
            Some(GrantError::EndNotAfterStart)
        } else if self.find_employee(req.employee_id) is None {
            Some(GrantError::EmployeeNotFound)
        } else if self.find_level(req.level_id) is None {
            Some(GrantError::LevelNotFound)
        } else if self.find_employee(grantor) is None {
            Some(GrantError::EmployeeNotFound)
        } else if self.current_ordinal(grantor, now) is None {
            Some(GrantError::CurrentLevelNotFound)
        } else if !self.may_assign(
            self.find_level(req.level_id)->0.level_index as int,
            self.current_ordinal(grantor, now)->0,
        ) {
            Some(GrantError::ForbiddenAssignHigherLevel)
        } else if self.overlaps_existing(req.employee_id, w, None) {
            Some(GrantError::AccreditationAlreadyExists)
        } else if self.find_accreditation(new_id) is Some {
            Some(GrantError::IdentifierInUse)
        } else {
            None
        }
    }

    /// The row that a successful assignment stores.
    pub open spec fn assigned_row(
        req: AssignAccreditationRequest,
        grantor: u128,
        now: int,
        new_id: u128,
    ) -> EmployeeAccreditationRow {
        EmployeeAccreditationRow {
            pk_employee_accreditation_authorization_id: new_id,
            fk_recipient_employee_id: req.employee_id,
            fk_employee_level_id: req.level_id,
            fk_authorizing_employee_id: Some(grantor),
            start_at: req.start_at,
            end_at: req.end_at,
            created_at: now as i64,
        }
    }

    /// The same reference data and derogations as `other`.
    pub open spec fn same_except_accreditations(self, other: GrantStore) -> bool {
        &&& self.levels == other.levels
        &&& self.authorizations == other.authorizations
        &&& self.links == other.links
        &&& self.employees == other.employees
        &&& self.derogations == other.derogations
    }

    /// With no level held at `t`, there is no current ordinal.
    proof fn lemma_no_level_no_current(self, employee_id: u128, t: int)
        requires
            forall|l: EmployeeLevel| !#[trigger] self.level_held(employee_id, t, l),
        ensures
            self.current_ordinal(employee_id, t) is None,
    {
    }

    /// Checks the grantor's authority to give level `level` and returns the
    /// failure, if any, in the order the rules are checked.
    fn check_authority(&self, level: &EmployeeLevel, grantor: u128, now: i64) -> (r: Result<(), GrantError>)
        ensures
            r == if self.current_ordinal(grantor, now as int) is None {
                Err(GrantError::CurrentLevelNotFound)
            } else if !self.may_assign(level.level_index as int, self.current_ordinal(grantor, now as int)->0) {
                Err(GrantError::ForbiddenAssignHigherLevel)
            } else {
                Ok(())
            },
    {
        let grantor_level = match self.get_current_employee_level_by_employee_id(grantor, now) {
            Ok(l) => l,
            Err(e) => {
                proof {
                    self.lemma_no_level_no_current(grantor, now as int);
                }
                return Err(e);
            },
        };
        proof {
            self.lemma_current_ordinal_of(grantor, now as int, grantor_level);
            let w = choose|w: int|
                0 <= w < self.accreditations@.len() && #[trigger] self.accreditation_active(w, grantor, now as int)
                    && self.find_level(self.accreditations@[w].fk_employee_level_id) == Some(grantor_level);
            let p = level_has_id(self.accreditations@[w].fk_employee_level_id);
            // the grantor's level is in the catalog, so the catalog is not empty
            let k = choose|k: int| is_first(self.levels@, k, p);
            assert(self.levels@.len() > 0);
        }
        let root = self.most_senior_level_index();
        let allowed = level.level_index < grantor_level.level_index || match root {
            Some(o) => o == grantor_level.level_index,
            None => false,
        };
        if !allowed {
            return Err(GrantError::ForbiddenAssignHigherLevel);
        }
        Ok(())
    }

    /// Grants a level to a principal over a window, on behalf of `grantor`,
    /// at instant `now`; the new row gets identifier `new_id`.
    ///
    /// The checks run in order, the first failure wins, and a failure leaves
    /// the store as it was: the start lies within the grace period, the end
    /// lies after the start, principal, level and grantor exist, the grantor
    /// holds a current level, the authority rule allows the level, no
    /// accreditation of the principal intersects the window, and `new_id` is
    /// free.
    pub fn assign_accreditation(
        &mut self,
        assign_req: &AssignAccreditationRequest,
        grantor: u128,
        now: i64,
        new_id: u128,
    ) -> (r: Result<EmployeeAccreditation, GrantError>)
        ensures
            old(self).wf() ==> final(self).wf(),
            match r {
                Ok(acc) => {
                    &&& old(self).assign_failure(*assign_req, grantor, now as int, new_id) is None
                    &&& final(self).accreditations@ == old(self).accreditations@.push(
                        GrantStore::assigned_row(*assign_req, grantor, now as int, new_id),
                    )
                    &&& final(self).same_except_accreditations(*old(self))
                    &&& old(self).materialize_accreditation(
                        GrantStore::assigned_row(*assign_req, grantor, now as int, new_id),
                    ) == Ok::<EmployeeAccreditation, GrantError>(acc)
                },
                Err(e) => {
                    &&& old(self).assign_failure(*assign_req, grantor, now as int, new_id) == Some(e)
                    &&& *final(self) == *old(self)
                },
            },
    {
        let w = Window::new(assign_req.start_at, assign_req.end_at);
        if !start_is_in_grace(assign_req.start_at, now) {
            return Err(GrantError::StartInPast);
        }
        if !w.is_valid_window() {
            return Err(GrantError::EndNotAfterStart);
        }
        let recipient_employee = self.get_light_employee_by_id(assign_req.employee_id)?;
        let employee_level = self.get_employee_level_by_id(assign_req.level_id)?;
        let authorizing_employee = self.get_light_employee_by_id(grantor)?;
        self.check_authority(&employee_level, grantor, now)?;
        if self.has_conflicting_accreditation(assign_req.employee_id, &w, None) {
            return Err(GrantError::AccreditationAlreadyExists);
        }
        match self.accreditation_position(new_id) {
            Some(i) => {
                proof {
                    lemma_find_first_at(self.accreditations@, i as int, accreditation_has_id(new_id));
                }
                return Err(GrantError::IdentifierInUse);
            },
            None => {
                proof {
                    lemma_find_first_none(self.accreditations@, accreditation_has_id(new_id));
                }
            },
        }
        let row = EmployeeAccreditationRow {
            pk_employee_accreditation_authorization_id: new_id,
            fk_recipient_employee_id: assign_req.employee_id,
            fk_employee_level_id: assign_req.level_id,
            fk_authorizing_employee_id: Some(grantor),
            start_at: assign_req.start_at,
            end_at: assign_req.end_at,
            created_at: now,
        };
        let ghost before = *self;
        proof {
            assert forall|j: int| 0 <= j < before.accreditations@.len() implies
                before.accreditations@[j].pk_employee_accreditation_authorization_id != new_id by {
                assert(!accreditation_has_id(new_id)(before.accreditations@[j]));
            }
            assert forall|j: int|
                0 <= j < before.accreditations@.len() && before.accreditations@[j].fk_recipient_employee_id
                == row.fk_recipient_employee_id implies !before.accreditations@[j].window().intersects(row.window())
                && !row.window().intersects(before.accreditations@[j].window()) by {
                assert(!before.conflicting(j, assign_req.employee_id, w, None));
                lemma_intersects_symmetric(before.accreditations@[j].window(), row.window());
            }
        }
        self.accreditations.push(row);
        proof {
            let s = self.accreditations@;
            assert(s == before.accreditations@.push(row));
            assert(forall|j: int| 0 <= j < before.accreditations@.len() ==> s[j] == before.accreditations@[j]);
            assert(s[s.len() - 1] == row);
        }
        Ok(EmployeeAccreditation {
            accreditation_id: new_id,
            recipient_employee,
            employee_level,
            authorizing_employee: Some(authorizing_employee),
            start_at: assign_req.start_at,
            end_at: assign_req.end_at,
            created_at: now,
        })
    }

    /// The row an update leaves: the level and window replaced, the rest kept.
    pub open spec fn updated_row(row: EmployeeAccreditationRow, req: UpdateAccreditationRequest) -> EmployeeAccreditationRow {
        EmployeeAccreditationRow {
            fk_employee_level_id: req.level_id,
            start_at: req.start_at,
            end_at: req.end_at,
            ..row
        }
    }

    /// The first check that `update_accreditation` fails, if any.
    pub open spec fn update_failure(
        self,
        accreditation_id: u128,
        req: UpdateAccreditationRequest,
        grantor: u128,
        now: int,
    ) -> Option<GrantError> {
        let w = Window { start_at: req.start_at, end_at: req.end_at };
        if !start_in_grace(req.start_at as int, now) {
            Some(GrantError::StartInPast)
        } else if !w.is_valid() {
            Some(GrantError::EndNotAfterStart)
        } else if self.find_level(req.level_id) is None {
            Some(GrantError::LevelNotFound)
        } else if self.current_ordinal(grantor, now) is None {
            Some(GrantError::CurrentLevelNotFound)
        } else if !self.may_assign(
            self.find_level(req.level_id)->0.level_index as int,
            self.current_ordinal(grantor, now)->0,
        ) {
            Some(GrantError::ForbiddenAssignHigherLevel)
        } else if self.find_accreditation(accreditation_id) is None {
            Some(GrantError::AccreditationNotFound)
        } else if self.materialize_accreditation(self.find_accreditation(accreditation_id)->0) is Err {
            Some(self.materialize_accreditation(self.find_accreditation(accreditation_id)->0)->Err_0)
        } else if self.overlaps_existing(
            self.find_accreditation(accreditation_id)->0.fk_recipient_employee_id,
            w,
            Some(accreditation_id),
        ) {
            Some(GrantError::AccreditationAlreadyExists)
        } else {
            None
        }
    }

    /// Replaces the level and window of accreditation `accreditation_id`, on
    /// behalf of `grantor`, at instant `now`.
    ///
    /// Checks as `assign_accreditation` does, against the accreditation's own
    /// principal; the overlap check leaves the accreditation itself out. A
    /// failure leaves the store as it was.
    pub fn update_accreditation(
        &mut self,
        accreditation_id: u128,
        update_req: &UpdateAccreditationRequest,
        grantor: u128,
        now: i64,
    ) -> (r: Result<EmployeeAccreditation, GrantError>)
        ensures
            old(self).wf() ==> final(self).wf(),
            match r {
                Ok(acc) => {
                    &&& old(self).update_failure(accreditation_id, *update_req, grantor, now as int) is None
                    &&& exists|i: int|
                        is_first(old(self).accreditations@, i, accreditation_has_id(accreditation_id))
                            && final(self).accreditations@ == old(self).accreditations@.update(
                            i,
                            GrantStore::updated_row(old(self).accreditations@[i], *update_req),
                        )
                    &&& final(self).same_except_accreditations(*old(self))
                    &&& old(self).materialize_accreditation(
                        GrantStore::updated_row(old(self).find_accreditation(accreditation_id)->0, *update_req),
                    ) == Ok::<EmployeeAccreditation, GrantError>(acc)
                },
                Err(e) => {
                    &&& old(self).update_failure(accreditation_id, *update_req, grantor, now as int) == Some(e)
                    &&& *final(self) == *old(self)
                },
            },
    {
        let w = Window::new(update_req.start_at, update_req.end_at);
        if !start_is_in_grace(update_req.start_at, now) {
            return Err(GrantError::StartInPast);
        }
        if !w.is_valid_window() {
            return Err(GrantError::EndNotAfterStart);
        }
        let employee_level = self.get_employee_level_by_id(update_req.level_id)?;
        self.check_authority(&employee_level, grantor, now)?;
        let pos = match self.accreditation_position(accreditation_id) {
            Some(i) => i,
            None => {
                proof {
                    lemma_find_first_none(self.accreditations@, accreditation_has_id(accreditation_id));
                }
                return Err(GrantError::AccreditationNotFound);
            },
        };
        proof {
            lemma_find_first_at(self.accreditations@, pos as int, accreditation_has_id(accreditation_id));
        }
        let existing = self.accreditations[pos];
        let current = self.materialize(&existing)?;
        if self.has_conflicting_accreditation(existing.fk_recipient_employee_id, &w, Some(accreditation_id)) {
            return Err(GrantError::AccreditationAlreadyExists);
        }
        let row = EmployeeAccreditationRow {
            fk_employee_level_id: update_req.level_id,
            start_at: update_req.start_at,
            end_at: update_req.end_at,
            ..existing
        };
        let result = EmployeeAccreditation {
            accreditation_id: current.accreditation_id,
            recipient_employee: current.recipient_employee,
            employee_level,
            authorizing_employee: current.authorizing_employee,
            start_at: row.start_at,
            end_at: row.end_at,
            created_at: row.created_at,
        };
        let ghost before = *self;
        proof {
            if before.wf() {
                assert forall|j: int|
                    0 <= j < before.accreditations@.len() && j != pos && before.accreditations@[j].fk_recipient_employee_id
                    == row.fk_recipient_employee_id implies !before.accreditations@[j].window().intersects(row.window())
                    && !row.window().intersects(before.accreditations@[j].window()) by {
                    assert(!before.conflicting(j, existing.fk_recipient_employee_id, w, Some(accreditation_id)));
                    assert(before.accreditations@[j].pk_employee_accreditation_authorization_id != accreditation_id);
                    lemma_intersects_symmetric(before.accreditations@[j].window(), row.window());
                }
            }
        }
        self.accreditations.set(pos, row);
        proof {
            let s = self.accreditations@;
            assert(s == before.accreditations@.update(pos as int, row));
            assert(forall|j: int| 0 <= j < s.len() && j != pos ==> s[j] == before.accreditations@[j]);
        }
        Ok(result)
    }

    /// The first check that `delete_accreditation` fails, if any.
    pub open spec fn delete_failure(self, accreditation_id: u128, requester: u128, now: int) -> Option<GrantError> {
        match self.find_accreditation(accreditation_id) {
            None => Some(GrantError::AccreditationNotFound),
            Some(row) => match self.materialize_accreditation(row) {
                Err(e) => Some(e),
                Ok(acc) => if self.current_ordinal(requester, now) is None {
                    Some(GrantError::CurrentLevelNotFound)
                } else if !(self.current_ordinal(requester, now)->0 < acc.employee_level.level_index) {
                    Some(GrantError::ForbiddenDeleteHigherLevel)
                } else {
                    None
                },
            },
        }
    }

    /// Removes accreditation `accreditation_id` on behalf of `requester`, at
    /// instant `now`: the requester's current level must be strictly more
    /// senior (lower ordinal) than the accreditation's level. A failure leaves
    /// the store as it was.
    pub fn delete_accreditation(&mut self, accreditation_id: u128, requester: u128, now: i64) -> (r: Result<
        (),
        GrantError,
    >)
        ensures
            old(self).wf() ==> final(self).wf(),
            match r {
                Ok(_) => {
                    &&& old(self).delete_failure(accreditation_id, requester, now as int) is None
                    &&& exists|i: int|
                        is_first(old(self).accreditations@, i, accreditation_has_id(accreditation_id))
                            && final(self).accreditations@ == old(self).accreditations@.remove(i)
                    &&& final(self).same_except_accreditations(*old(self))
                },
                Err(e) => {
                    &&& old(self).delete_failure(accreditation_id, requester, now as int) == Some(e)
                    &&& *final(self) == *old(self)
                },
            },
    {
        let pos = match self.accreditation_position(accreditation_id) {
            Some(i) => i,
            None => {
                proof {
                    lemma_find_first_none(self.accreditations@, accreditation_has_id(accreditation_id));
                }
                return Err(GrantError::AccreditationNotFound);
            },
        };
        proof {
            lemma_find_first_at(self.accreditations@, pos as int, accreditation_has_id(accreditation_id));
        }
        let accreditation = self.materialize(&self.accreditations[pos])?;
        let requester_level = match self.get_current_employee_level_by_employee_id(requester, now) {
            Ok(l) => l,
            Err(e) => {
                proof {
                    self.lemma_no_level_no_current(requester, now as int);
                }
                return Err(e);
            },
        };
        proof {
            self.lemma_current_ordinal_of(requester, now as int, requester_level);
        }
        if requester_level.level_index >= accreditation.employee_level.level_index {
            return Err(GrantError::ForbiddenDeleteHigherLevel);
        }
        let ghost before = *self;
        self.accreditations.remove(pos);
        proof {
            let s = self.accreditations@;
            let b = before.accreditations@;
            assert(s == b.remove(pos as int));
            b.remove_ensures(pos as int);
            assert forall|j: int| 0 <= j < s.len() implies s[j] == b[if j < pos { j } else { j + 1 }] by {
            }
            if before.wf() {
                assert forall|i: int, j: int|
                    0 <= i < s.len() && 0 <= j < s.len() && i != j implies (#[trigger] s[i]).pk_employee_accreditation_authorization_id
                    != (#[trigger] s[j]).pk_employee_accreditation_authorization_id by {
                    let bi = if i < pos { i } else { i + 1 };
                    let bj = if j < pos { j } else { j + 1 };
                    assert(s[i] == b[bi] && s[j] == b[bj]);
                }
                assert forall|i: int, j: int|
                    0 <= i < s.len() && 0 <= j < s.len() && i != j && (#[trigger] s[i]).fk_recipient_employee_id
                    == (#[trigger] s[j]).fk_recipient_employee_id implies !s[i].window().intersects(s[j].window()) by {
                    let bi = if i < pos { i } else { i + 1 };
                    let bj = if j < pos { j } else { j + 1 };
                    assert(s[i] == b[bi] && s[j] == b[bj]);
                }
                assert forall|i: int| 0 <= i < s.len() implies (#[trigger] s[i]).window().is_valid() by {
                    let bi = if i < pos { i } else { i + 1 };
                    assert(s[i] == b[bi]);
                }
            }
        }
        Ok(())
    }
}

} // verus!
