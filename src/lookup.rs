//! Reads of reference data and principals: levels, permission definitions,
//! the permissions a level confers, and light principal records.
use vstd::prelude::*;
use crate::catalog::{EmployeeAuthorization, EmployeeLevel, EmployeeLevelWithAuthorizations, LightEmployee};
use crate::errors::GrantError;
use crate::store::{
    authorization_has_id, employee_has_id, is_first, lemma_find_first_at, level_has_id, GrantStore,
};

verus! {

impl GrantStore {
    /// The link table says that `level_id` confers permission `perm`.
    pub open spec fn level_confers(self, level_id: i32, perm: i32) -> bool {
        exists|k: int|
            0 <= k < self.links@.len() && (#[trigger] self.links@[k]).fk_employee_level_id == level_id
                && self.links@[k].fk_employee_authorization_type_id == perm
    }

    pub open spec fn confers_pred(self, level_id: i32) -> spec_fn(EmployeeAuthorization) -> bool {
        |a: EmployeeAuthorization| self.level_confers(level_id, a.pk_employee_authorization_id)
    }

    pub fn level_confers_permission(&self, level_id: i32, perm: i32) -> (r: bool)
        ensures
            r == self.level_confers(level_id, perm),
    {
        let mut k: usize = 0;
        while k < self.links.len()
            invariant
                k <= self.links@.len(),
                forall|j: int|
                    0 <= j < k ==> !((#[trigger] self.links@[j]).fk_employee_level_id == level_id
                        && self.links@[j].fk_employee_authorization_type_id == perm),
            decreases self.links@.len() - k,
        {
            let link = self.links[k];
            if link.fk_employee_level_id == level_id && link.fk_employee_authorization_type_id == perm {
                return true;
            }
            k = k + 1;
        }
        false
    }

    /// The light record of principal `employee_id`.
    pub fn get_light_employee_by_id(&self, employee_id: u128) -> (r: Result<LightEmployee, GrantError>)
        ensures
            r == match self.find_employee(employee_id) {
                Some(e) => Ok(e),
                None => Err(GrantError::EmployeeNotFound),
            },
    {
        match self.employee_position(employee_id) {
            Some(i) => {
                proof {
                    lemma_find_first_at(self.employees@, i as int, employee_has_id(employee_id));
                }
                Ok(self.employees[i].clone())
            },
            None => Err(GrantError::EmployeeNotFound),
        }
    }

    /// Level `level_id` of the catalog.
    pub fn get_employee_level_by_id(&self, level_id: i32) -> (r: Result<EmployeeLevel, GrantError>)
        ensures
            r == match self.find_level(level_id) {
                Some(l) => Ok(l),
                None => Err(GrantError::LevelNotFound),
            },
    {
        match self.level_position(level_id) {
            Some(i) => {
                proof {
                    lemma_find_first_at(self.levels@, i as int, level_has_id(level_id));
                }
                Ok(self.levels[i].clone())
            },
            None => Err(GrantError::LevelNotFound),
        }
    }

    /// Permission definition `type_id` of the catalog.
    pub fn get_employee_authorization_by_type_id(&self, type_id: i32) -> (r: Result<
        EmployeeAuthorization,
        GrantError,
    >)
        ensures
            r == match self.find_authorization(type_id) {
                Some(a) => Ok(a),
                None => Err(GrantError::AuthorizationNotFound),
            },
    {
        match self.authorization_position(type_id) {
            Some(i) => {
                proof {
                    lemma_find_first_at(self.authorizations@, i as int, authorization_has_id(type_id));
                }
                Ok(self.authorizations[i].clone())
            },
            None => Err(GrantError::AuthorizationNotFound),
        }
    }

    /// Every level of the catalog.
    pub fn get_all_employee_levels(&self) -> (r: Vec<EmployeeLevel>)
        ensures
            r@ == self.levels@,
    {
        let mut r: Vec<EmployeeLevel> = Vec::new();
        let mut i: usize = 0;
        while i < self.levels.len()
            invariant
                i <= self.levels@.len(),
                r@ == self.levels@.subrange(0, i as int),
            decreases self.levels@.len() - i,
        {
            r.push(self.levels[i].clone());
            i = i + 1;
            assert(r@ =~= self.levels@.subrange(0, i as int));
        }
        assert(r@ =~= self.levels@);
        r
    }

    /// Every permission definition of the catalog.
    pub fn get_all_employee_authorizations(&self) -> (r: Vec<EmployeeAuthorization>)
        ensures
            r@ == self.authorizations@,
    {
        let mut r: Vec<EmployeeAuthorization> = Vec::new();
        let mut i: usize = 0;
        while i < self.authorizations.len()
            invariant
                i <= self.authorizations@.len(),
                r@ == self.authorizations@.subrange(0, i as int),
            decreases self.authorizations@.len() - i,
        {
            r.push(self.authorizations[i].clone());
            i = i + 1;
            assert(r@ =~= self.authorizations@.subrange(0, i as int));
        }
        assert(r@ =~= self.authorizations@);
        r
    }

    /// The permission definitions that level `level_id` confers, in catalog order.
    pub fn get_all_employee_authorizations_by_level_id(&self, level_id: i32) -> (r: Vec<
        EmployeeAuthorization,
    >)
        ensures
            r@ == self.authorizations@.filter(self.confers_pred(level_id)),
    {
        let ghost pred = self.confers_pred(level_id);
        let mut r: Vec<EmployeeAuthorization> = Vec::new();
        let mut i: usize = 0;
        while i < self.authorizations.len()
            invariant
                i <= self.authorizations@.len(),
                pred == self.confers_pred(level_id),
                r@ == self.authorizations@.subrange(0, i as int).filter(pred),
            decreases self.authorizations@.len() - i,
        {
            let ghost before = self.authorizations@.subrange(0, i as int);
            let a = &self.authorizations[i];
            assert(self.authorizations@.subrange(0, i + 1) =~= before.push(*a));
            proof {
                before.lemma_filter_push(*a, pred);
            }
            if self.level_confers_permission(level_id, a.pk_employee_authorization_id) {
                r.push(a.clone());
            }
            i = i + 1;
        }
        assert(self.authorizations@.subrange(0, self.authorizations@.len() as int) =~= self.authorizations@);
        r
    }

    /// Level `level_id` with the permission definitions it confers.
    pub fn get_employee_level_with_authorizations_by_id(&self, level_id: i32) -> (r: Result<
        EmployeeLevelWithAuthorizations,
        GrantError,
    >)
        ensures
            match self.find_level(level_id) {
                Some(l) => r is Ok && r->Ok_0.pk_employee_level_id == l.pk_employee_level_id
                    && r->Ok_0.level_index == l.level_index && r->Ok_0.level_label == l.level_label
                    && r->Ok_0.authorizations@ == self.authorizations@.filter(self.confers_pred(level_id)),
                None => r == Err::<EmployeeLevelWithAuthorizations, GrantError>(GrantError::LevelNotFound),
            },
    {
        let level = self.get_employee_level_by_id(level_id)?;
        let authorizations = self.get_all_employee_authorizations_by_level_id(level_id);
        Ok(EmployeeLevelWithAuthorizations {
            pk_employee_level_id: level.pk_employee_level_id,
            level_index: level.level_index,
            level_label: level.level_label,
            authorizations,
        })
    }
}

} // verus!
