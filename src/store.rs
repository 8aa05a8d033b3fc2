//! A snapshot of the relational store: reference data and grant rows, with
//! lookups by identifier and the store's invariant.
use vstd::prelude::*;
use crate::catalog::{
    clone_opt_string, EmployeeAuthorization, EmployeeLevel, LevelAuthorizationLink, LightEmployee,
};
use crate::window::Window;

verus! {

/// `i` is the first position of `s` whose element satisfies `p`.
pub open spec fn is_first<T>(s: Seq<T>, i: int, p: spec_fn(T) -> bool) -> bool {
    &&& 0 <= i < s.len()
    &&& p(s[i])
    &&& forall|j: int| 0 <= j < i ==> !p(#[trigger] s[j])
}

/// The first element of `s` that satisfies `p`, if any.
pub open spec fn find_first<T>(s: Seq<T>, p: spec_fn(T) -> bool) -> Option<T> {
    if exists|i: int| is_first(s, i, p) {
        Some(s[choose|i: int| is_first(s, i, p)])
    } else {
        None
    }
}

/// Only one position is the first to satisfy `p`.
pub proof fn lemma_first_unique<T>(s: Seq<T>, i: int, k: int, p: spec_fn(T) -> bool)
    requires
        is_first(s, i, p),
        is_first(s, k, p),
    ensures
        i == k,
{
    if i < k {
        assert(!p(s[i]));
    } else if k < i {
        assert(!p(s[k]));
    }
}

/// `find_first` picks the element at the first matching position.
pub proof fn lemma_find_first_at<T>(s: Seq<T>, i: int, p: spec_fn(T) -> bool)
    requires
        is_first(s, i, p),
    ensures
        find_first(s, p) == Some(s[i]),
{
    let k = choose|k: int| is_first(s, k, p);
    lemma_first_unique(s, i, k, p);
}

/// `find_first` finds nothing when no element matches.
pub proof fn lemma_find_first_none<T>(s: Seq<T>, p: spec_fn(T) -> bool)
    requires
        forall|j: int| 0 <= j < s.len() ==> !p(#[trigger] s[j]),
    ensures
        find_first(s, p) is None,
{
}

/// A grant of a level to a principal, as stored.
#[derive(Debug, Clone, Copy, PartialEq, Eq, Structural)]
pub struct EmployeeAccreditationRow {
    /// The 128 bits of the accreditation's UUID.
    pub pk_employee_accreditation_authorization_id: u128,
    pub fk_recipient_employee_id: u128,
    pub fk_employee_level_id: i32,
    pub fk_authorizing_employee_id: Option<u128>,
    pub start_at: i64,
    pub end_at: Option<i64>,
    pub created_at: i64,
}

impl EmployeeAccreditationRow {
    pub open spec fn window(self) -> Window {
        Window { start_at: self.start_at, end_at: self.end_at }
    }
}

/// A grant of one permission to a principal, as stored.
#[derive(Debug)]
pub struct EmployeeDerogationRow {
    pub pk_employee_authorization_derogation_id: i32,
    pub fk_recipient_employee_id: u128,
    pub fk_employee_authorization_type_id: i32,
    pub fk_authorizing_employee_id: u128,
    pub derogation_reason: Option<String>,
    pub start_at: i64,
    pub end_at: i64,
    pub created_at: i64,
}

impl EmployeeDerogationRow {
    pub open spec fn window(self) -> Window {
        Window { start_at: self.start_at, end_at: Some(self.end_at) }
    }
}

impl Clone for EmployeeDerogationRow {
    fn clone(&self) -> (r: Self)
        ensures
            r == *self,
    {
        EmployeeDerogationRow {
            pk_employee_authorization_derogation_id: self.pk_employee_authorization_derogation_id,
            fk_recipient_employee_id: self.fk_recipient_employee_id,
            fk_employee_authorization_type_id: self.fk_employee_authorization_type_id,
            fk_authorizing_employee_id: self.fk_authorizing_employee_id,
            derogation_reason: clone_opt_string(&self.derogation_reason),
            start_at: self.start_at,
            end_at: self.end_at,
            created_at: self.created_at,
        }
    }
}

pub open spec fn employee_has_id(id: u128) -> spec_fn(LightEmployee) -> bool {
    |e: LightEmployee| e.pk_employee_id == id
}

pub open spec fn level_has_id(id: i32) -> spec_fn(EmployeeLevel) -> bool {
    |l: EmployeeLevel| l.pk_employee_level_id == id
}

pub open spec fn authorization_has_id(id: i32) -> spec_fn(EmployeeAuthorization) -> bool {
    |a: EmployeeAuthorization| a.pk_employee_authorization_id == id
}

pub open spec fn accreditation_has_id(id: u128) -> spec_fn(EmployeeAccreditationRow) -> bool {
    |a: EmployeeAccreditationRow| a.pk_employee_accreditation_authorization_id == id
}

pub open spec fn derogation_has_id(id: i32) -> spec_fn(EmployeeDerogationRow) -> bool {
    |d: EmployeeDerogationRow| d.pk_employee_authorization_derogation_id == id
}

/// What the engine reads of the store: reference data and grant rows.
#[derive(Debug)]
pub struct GrantStore {
    pub levels: Vec<EmployeeLevel>,
    pub authorizations: Vec<EmployeeAuthorization>,
    pub links: Vec<LevelAuthorizationLink>,
    pub employees: Vec<LightEmployee>,
    pub accreditations: Vec<EmployeeAccreditationRow>,
    pub derogations: Vec<EmployeeDerogationRow>,
}

impl GrantStore {
    pub open spec fn find_employee(self, id: u128) -> Option<LightEmployee> {
        find_first(self.employees@, employee_has_id(id))
    }

    pub open spec fn find_level(self, id: i32) -> Option<EmployeeLevel> {
        find_first(self.levels@, level_has_id(id))
    }

    pub open spec fn find_authorization(self, id: i32) -> Option<EmployeeAuthorization> {
        find_first(self.authorizations@, authorization_has_id(id))
    }

    pub open spec fn find_accreditation(self, id: u128) -> Option<EmployeeAccreditationRow> {
        find_first(self.accreditations@, accreditation_has_id(id))
    }

    pub open spec fn find_derogation(self, id: i32) -> Option<EmployeeDerogationRow> {
        find_first(self.derogations@, derogation_has_id(id))
    }

    /// The store's invariant: every window is valid, row identifiers are
    /// unique, and no two accreditations of one principal intersect.
    pub open spec fn wf(self) -> bool {
        &&& forall|i: int|
            0 <= i < self.accreditations@.len() ==> (#[trigger] self.accreditations@[i]).window().is_valid()
        &&& forall|i: int|
            0 <= i < self.derogations@.len() ==> (#[trigger] self.derogations@[i]).window().is_valid()
        &&& forall|i: int, j: int|
            0 <= i < self.accreditations@.len() && 0 <= j < self.accreditations@.len() && i != j
                ==> (#[trigger] self.accreditations@[i]).pk_employee_accreditation_authorization_id
                != (#[trigger] self.accreditations@[j]).pk_employee_accreditation_authorization_id
        &&& forall|i: int, j: int|
            0 <= i < self.derogations@.len() && 0 <= j < self.derogations@.len() && i != j
                ==> (#[trigger] self.derogations@[i]).pk_employee_authorization_derogation_id
                != (#[trigger] self.derogations@[j]).pk_employee_authorization_derogation_id
        &&& self.accreditations_disjoint()
        &&& self.references_resolve()
    }

    /// Every principal, level, permission and grantor that a grant row names
    /// is in the store.
    pub open spec fn references_resolve(self) -> bool {
        &&& forall|i: int|
            0 <= i < self.accreditations@.len() ==> self.materialize_accreditation(
                #[trigger] self.accreditations@[i],
            ) is Ok
        &&& forall|j: int|
            0 <= j < self.derogations@.len() ==> self.materialize_derogation(#[trigger] self.derogations@[j]) is Ok
    }

    /// No two accreditations of the same principal have intersecting windows.
    pub open spec fn accreditations_disjoint(self) -> bool {
        forall|i: int, j: int|
            0 <= i < self.accreditations@.len() && 0 <= j < self.accreditations@.len() && i != j
                && (#[trigger] self.accreditations@[i]).fk_recipient_employee_id
                == (#[trigger] self.accreditations@[j]).fk_recipient_employee_id
                ==> !self.accreditations@[i].window().intersects(self.accreditations@[j].window())
    }

    /// A store with no rows.
    pub fn new() -> (r: GrantStore)
        ensures
            r.levels@.len() == 0,
            r.authorizations@.len() == 0,
            r.links@.len() == 0,
            r.employees@.len() == 0,
            r.accreditations@.len() == 0,
            r.derogations@.len() == 0,
            r.wf(),
    {
        GrantStore {
            levels: Vec::new(),
            authorizations: Vec::new(),
            links: Vec::new(),
            employees: Vec::new(),
            accreditations: Vec::new(),
            derogations: Vec::new(),
        }
    }

    pub(crate) fn employee_position(&self, id: u128) -> (r: Option<usize>)
        ensures
            match r {
                Some(i) => is_first(self.employees@, i as int, employee_has_id(id)),
                None => forall|j: int| 0 <= j < self.employees@.len()
                    ==> !(#[trigger] employee_has_id(id)(self.employees@[j])),
            },
    {
        let mut i: usize = 0;
        while i < self.employees.len()
            invariant
                i <= self.employees@.len(),
                forall|j: int| 0 <= j < i ==> !(#[trigger] employee_has_id(id)(self.employees@[j])),
            decreases self.employees@.len() - i,
        {
            if self.employees[i].pk_employee_id == id {
                return Some(i);
            }
            i = i + 1;
        }
        None
    }

    pub(crate) fn level_position(&self, id: i32) -> (r: Option<usize>)
        ensures
            match r {
                Some(i) => is_first(self.levels@, i as int, level_has_id(id)),
                None => forall|j: int| 0 <= j < self.levels@.len()
                    ==> !(#[trigger] level_has_id(id)(self.levels@[j])),
            },
    {
        let mut i: usize = 0;
        while i < self.levels.len()
            invariant
                i <= self.levels@.len(),
                forall|j: int| 0 <= j < i ==> !(#[trigger] level_has_id(id)(self.levels@[j])),
            decreases self.levels@.len() - i,
        {
            if self.levels[i].pk_employee_level_id == id {
                return Some(i);
            }
            i = i + 1;
        }
        None
    }

    pub(crate) fn authorization_position(&self, id: i32) -> (r: Option<usize>)
        ensures
            match r {
                Some(i) => is_first(self.authorizations@, i as int, authorization_has_id(id)),
                None => forall|j: int| 0 <= j < self.authorizations@.len()
                    ==> !(#[trigger] authorization_has_id(id)(self.authorizations@[j])),
            },
    {
        let mut i: usize = 0;
        while i < self.authorizations.len()
            invariant
                i <= self.authorizations@.len(),
                forall|j: int| 0 <= j < i ==> !(#[trigger] authorization_has_id(id)(self.authorizations@[j])),
            decreases self.authorizations@.len() - i,
        {
            if self.authorizations[i].pk_employee_authorization_id == id {
                return Some(i);
            }
            i = i + 1;
        }
        None
    }

    pub(crate) fn accreditation_position(&self, id: u128) -> (r: Option<usize>)
        ensures
            match r {
                Some(i) => is_first(self.accreditations@, i as int, accreditation_has_id(id)),
                None => forall|j: int| 0 <= j < self.accreditations@.len()
                    ==> !(#[trigger] accreditation_has_id(id)(self.accreditations@[j])),
            },
    {
        let mut i: usize = 0;
        while i < self.accreditations.len()
            invariant
                i <= self.accreditations@.len(),
                forall|j: int| 0 <= j < i ==> !(#[trigger] accreditation_has_id(id)(self.accreditations@[j])),
            decreases self.accreditations@.len() - i,
        {
            if self.accreditations[i].pk_employee_accreditation_authorization_id == id {
                return Some(i);
            }
            i = i + 1;
        }
        None
    }

    pub(crate) fn derogation_position(&self, id: i32) -> (r: Option<usize>)
        ensures
            match r {
                Some(i) => is_first(self.derogations@, i as int, derogation_has_id(id)),
                None => forall|j: int| 0 <= j < self.derogations@.len()
                    ==> !(#[trigger] derogation_has_id(id)(self.derogations@[j])),
            },
    {
        let mut i: usize = 0;
        while i < self.derogations.len()
            invariant
                i <= self.derogations@.len(),
                forall|j: int| 0 <= j < i ==> !(#[trigger] derogation_has_id(id)(self.derogations@[j])),
            decreases self.derogations@.len() - i,
        {
            if self.derogations[i].pk_employee_authorization_derogation_id == id {
                return Some(i);
            }
            i = i + 1;
        }
        None
    }

    /// Checks the store's invariant, as a snapshot read from outside must be
    /// checked before the engine works on it.
    pub fn is_well_formed(&self) -> (r: bool)
        ensures
            r == self.wf(),
    {
        let n = self.accreditations.len();
        let mut i: usize = 0;
        while i < n
            invariant
                n == self.accreditations@.len(),
                i <= n,
                forall|a: int| 0 <= a < i ==> (#[trigger] self.accreditations@[a]).window().is_valid(),
                forall|a: int, b: int|
                    0 <= a < i && 0 <= b < n && a != b
                        ==> (#[trigger] self.accreditations@[a]).pk_employee_accreditation_authorization_id
                        != (#[trigger] self.accreditations@[b]).pk_employee_accreditation_authorization_id,
                forall|a: int, b: int|
                    0 <= a < i && 0 <= b < n && a != b
                        && (#[trigger] self.accreditations@[a]).fk_recipient_employee_id
                        == (#[trigger] self.accreditations@[b]).fk_recipient_employee_id
                        ==> !self.accreditations@[a].window().intersects(self.accreditations@[b].window()),
            decreases n - i,
        {
            let a = self.accreditations[i];
            if !Window::new(a.start_at, a.end_at).is_valid_window() {
                assert(!self.accreditations@[i as int].window().is_valid());
                return false;
            }
            let mut j: usize = 0;
            while j < n
                invariant
                    n == self.accreditations@.len(),
                    i < n,
                    j <= n,
                    a == self.accreditations@[i as int],
                    forall|b: int|
                        0 <= b < j && b != i ==> a.pk_employee_accreditation_authorization_id
                            != (#[trigger] self.accreditations@[b]).pk_employee_accreditation_authorization_id,
                    forall|b: int|
                        0 <= b < j && b != i && a.fk_recipient_employee_id
                            == (#[trigger] self.accreditations@[b]).fk_recipient_employee_id
                            ==> !a.window().intersects(self.accreditations@[b].window()),
                decreases n - j,
            {
                if j != i {
                    let b = self.accreditations[j];
                    if a.pk_employee_accreditation_authorization_id == b.pk_employee_accreditation_authorization_id {
                        assert(self.accreditations@[j as int] == b);
                        return false;
                    }
                    if a.fk_recipient_employee_id == b.fk_recipient_employee_id
                        && Window::new(a.start_at, a.end_at).intersects_window(&Window::new(b.start_at, b.end_at)) {
                        assert(self.accreditations@[j as int] == b);
                        assert(!self.accreditations_disjoint());
                        return false;
                    }
                }
                j = j + 1;
            }
            i = i + 1;
        }
        let m = self.derogations.len();
        let mut i: usize = 0;
        while i < m
            invariant
                m == self.derogations@.len(),
                i <= m,
                forall|a: int| 0 <= a < i ==> (#[trigger] self.derogations@[a]).window().is_valid(),
                forall|a: int, b: int|
                    0 <= a < i && 0 <= b < m && a != b
                        ==> (#[trigger] self.derogations@[a]).pk_employee_authorization_derogation_id
                        != (#[trigger] self.derogations@[b]).pk_employee_authorization_derogation_id,
            decreases m - i,
        {
            let id = self.derogations[i].pk_employee_authorization_derogation_id;
            if self.derogations[i].end_at <= self.derogations[i].start_at {
                assert(!self.derogations@[i as int].window().is_valid());
                return false;
            }
            let mut j: usize = 0;
            while j < m
                invariant
                    m == self.derogations@.len(),
                    i < m,
                    j <= m,
                    id == self.derogations@[i as int].pk_employee_authorization_derogation_id,
                    forall|b: int|
                        0 <= b < j && b != i ==> id
                            != (#[trigger] self.derogations@[b]).pk_employee_authorization_derogation_id,
                decreases m - j,
            {
                if j != i && self.derogations[j].pk_employee_authorization_derogation_id == id {
                    return false;
                }
                j = j + 1;
            }
            i = i + 1;
        }
        let mut i: usize = 0;
        while i < n
            invariant
                n == self.accreditations@.len(),
                i <= n,
                forall|a: int| 0 <= a < i ==> self.materialize_accreditation(#[trigger] self.accreditations@[a]) is Ok,
            decreases n - i,
        {
            if self.materialize(&self.accreditations[i]).is_err() {
                return false;
            }
            i = i + 1;
        }
        let mut j: usize = 0;
        while j < m
            invariant
                m == self.derogations@.len(),
                j <= m,
                forall|b: int| 0 <= b < j ==> self.materialize_derogation(#[trigger] self.derogations@[b]) is Ok,
            decreases m - j,
        {
            if self.materialize_derogation_row(&self.derogations[j]).is_err() {
                return false;
            }
            j = j + 1;
        }
        true
    }
}

} // verus!
