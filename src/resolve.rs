//! Permission resolution: the permission ids in force for a principal at an
//! instant, the principal's current level, and the most senior ordinal.
use vstd::prelude::*;
use crate::catalog::EmployeeLevel;
use crate::errors::GrantError;
use crate::store::GrantStore;
use crate::window::Window;

verus! {

/// Each element is strictly smaller than the next: sorted, without repeats.
pub open spec fn strictly_sorted(s: Seq<i32>) -> bool {
    forall|i: int, j: int| 0 <= i < j < s.len() ==> s[i] < s[j]
}

/// Two strictly sorted sequences with the same elements are equal.
pub proof fn lemma_sorted_same_elements_equal(a: Seq<i32>, b: Seq<i32>)
    requires
        strictly_sorted(a),
        strictly_sorted(b),
        forall|x: i32| a.contains(x) <==> b.contains(x),
    ensures
        a == b,
    decreases a.len(),
{
    if a.len() == 0 {
        if b.len() > 0 {
            assert(b.contains(b[0]));
        }
        assert(a =~= b);
    } else if b.len() == 0 {
        assert(a.contains(a[0]));
    } else {
        let la = a.last();
        let lb = b.last();
        assert(a.contains(la));
        assert(b.contains(lb));
        let ia = choose|i: int| 0 <= i < a.len() && a[i] == lb;
        let ib = choose|i: int| 0 <= i < b.len() && b[i] == la;
        assert(la <= lb) by {
            if ib < b.len() - 1 {
                assert(b[ib] < b[b.len() - 1]);
            }
        }
        assert(lb <= la) by {
            if ia < a.len() - 1 {
                assert(a[ia] < a[a.len() - 1]);
            }
        }
        let a2 = a.drop_last();
        let b2 = b.drop_last();
        assert forall|x: i32| a2.contains(x) <==> b2.contains(x) by {
            if a2.contains(x) {
                let i = choose|i: int| 0 <= i < a2.len() && a2[i] == x;
                assert(a[i] < la);
                assert(b.contains(x));
                let j = choose|j: int| 0 <= j < b.len() && b[j] == x;
                assert(j != b.len() - 1);
                assert(b2[j] == x);
            }
            if b2.contains(x) {
                let i = choose|i: int| 0 <= i < b2.len() && b2[i] == x;
                assert(b[i] < lb);
                assert(a.contains(x));
                let j = choose|j: int| 0 <= j < a.len() && a[j] == x;
                assert(j != a.len() - 1);
                assert(a2[j] == x);
            }
        }
        lemma_sorted_same_elements_equal(a2, b2);
        assert(a =~= a2.push(la));
        assert(b =~= b2.push(lb));
    }
}

/// Adds `x` to a strictly sorted vector, keeping it strictly sorted.
pub fn insert_sorted(v: &mut Vec<i32>, x: i32)
    requires
        strictly_sorted(old(v)@),
    ensures
        strictly_sorted(final(v)@),
        forall|y: i32| final(v)@.contains(y) <==> (old(v)@.contains(y) || y == x),
{
    let ghost before = v@;
    let mut i: usize = 0;
    while i < v.len() && v[i] < x
        invariant
            v@ == before,
            i <= v@.len(),
            forall|j: int| 0 <= j < i ==> v@[j] < x,
        decreases v@.len() - i,
    {
        i = i + 1;
    }
    if i < v.len() && v[i] == x {
        assert(v@.contains(x) && v@[i as int] == x);
        return;
    }
    v.insert(i, x);
    proof {
        before.insert_ensures(i as int, x);
        let after = v@;
        assert forall|a: int, b: int| 0 <= a < b < after.len() implies after[a] < after[b] by {
            if b < i {
            } else if b == i {
            } else if a < i {
                assert(before[b - 1] > x) by {
                    assert(before[i as int] > x);
                    if b - 1 > i {
                        assert(before[i as int] < before[b - 1]);
                    }
                }
            } else if a == i {
                assert(before[i as int] > x);
                if b - 1 > i {
                    assert(before[i as int] < before[b - 1]);
                }
            } else {
                assert(before[a - 1] < before[b - 1]);
            }
        }
        assert forall|y: i32| after.contains(y) <==> (before.contains(y) || y == x) by {
            if after.contains(y) {
                let k = choose|k: int| 0 <= k < after.len() && after[k] == y;
                if k < i {
                    assert(before[k] == y);
                } else if k > i {
                    assert(before[k - 1] == y);
                }
            }
            if before.contains(y) {
                let k = choose|k: int| 0 <= k < before.len() && before[k] == y;
                if k < i {
                    assert(after[k] == y);
                } else {
                    assert(after[k + 1] == y);
                }
            }
            if y == x {
                assert(after[i as int] == x);
            }
        }
    }
}

impl GrantStore {
    /// Accreditation `i` belongs to `employee_id` and its window covers `t`.
    pub open spec fn accreditation_active(self, i: int, employee_id: u128, t: int) -> bool {
        &&& self.accreditations@[i].fk_recipient_employee_id == employee_id
        &&& self.accreditations@[i].window().covers(t)
    }

    /// Derogation `j` belongs to `employee_id` and its window covers `t`.
    pub open spec fn derogation_active(self, j: int, employee_id: u128, t: int) -> bool {
        &&& self.derogations@[j].fk_recipient_employee_id == employee_id
        &&& self.derogations@[j].window().covers(t)
    }

    /// Among the first `n` accreditations, one active for the principal at
    /// `t` has a level that confers `perm`.
    pub open spec fn granted_by_level_among(self, employee_id: u128, t: int, perm: i32, n: int) -> bool {
        exists|i: int|
            0 <= i < n && #[trigger] self.accreditation_active(i, employee_id, t)
                && self.level_confers(self.accreditations@[i].fk_employee_level_id, perm)
    }

    /// Among the first `n` derogations, one active for the principal at `t`
    /// grants `perm`.
    pub open spec fn granted_by_derogation_among(self, employee_id: u128, t: int, perm: i32, n: int) -> bool {
        exists|j: int|
            0 <= j < n && #[trigger] self.derogation_active(j, employee_id, t)
                && self.derogations@[j].fk_employee_authorization_type_id == perm
    }

    /// The principal holds `perm` at `t`: through the level of an
    /// accreditation covering `t`, or through a derogation covering `t`.
    pub open spec fn holds_permission(self, employee_id: u128, t: int, perm: i32) -> bool {
        ||| self.granted_by_level_among(employee_id, t, perm, self.accreditations@.len() as int)
        ||| self.granted_by_derogation_among(employee_id, t, perm, self.derogations@.len() as int)
    }

    /// The effective permission set of the principal at `t`.
    pub open spec fn effective_permissions(self, employee_id: u128, t: int) -> Set<i32> {
        Set::new(|perm: i32| self.holds_permission(employee_id, t, perm))
    }

    /// The permission ids in force for `employee_id` at `now`, ascending and
    /// without repeats.
    pub fn resolve_permissions(&self, employee_id: u128, now: i64) -> (r: Vec<i32>)
        ensures
            strictly_sorted(r@),
            forall|perm: i32| r@.contains(perm) <==> self.holds_permission(employee_id, now as int, perm),
    {
        let mut r: Vec<i32> = Vec::new();
        let mut i: usize = 0;
        while i < self.accreditations.len()
            invariant
                i <= self.accreditations@.len(),
                strictly_sorted(r@),
                forall|perm: i32|
                    r@.contains(perm) <==> self.granted_by_level_among(employee_id, now as int, perm, i as int),
            decreases self.accreditations@.len() - i,
        {
            let a = self.accreditations[i];
            let active = a.fk_recipient_employee_id == employee_id
                && Window::new(a.start_at, a.end_at).covers_instant(now);
            if active {
                let mut k: usize = 0;
                while k < self.links.len()
                    invariant
                        i < self.accreditations@.len(),
                        a == self.accreditations@[i as int],
                        self.accreditation_active(i as int, employee_id, now as int),
                        k <= self.links@.len(),
                        strictly_sorted(r@),
                        forall|perm: i32|
                            r@.contains(perm) <==> (self.granted_by_level_among(employee_id, now as int, perm, i as int)
                                || exists|k2: int|
                                0 <= k2 < k && (#[trigger] self.links@[k2]).fk_employee_level_id
                                    == a.fk_employee_level_id
                                    && self.links@[k2].fk_employee_authorization_type_id == perm),
                    decreases self.links@.len() - k,
                {
                    let link = self.links[k];
                    if link.fk_employee_level_id == a.fk_employee_level_id {
                        insert_sorted(&mut r, link.fk_employee_authorization_type_id);
                    }
                    k = k + 1;
                }
            }
            proof {
                assert forall|perm: i32|
                    self.granted_by_level_among(employee_id, now as int, perm, i + 1) <==> (
                    self.granted_by_level_among(employee_id, now as int, perm, i as int) || (
                    self.accreditation_active(i as int, employee_id, now as int) && self.level_confers(
                        a.fk_employee_level_id,
                        perm,
                    ))) by {
                    if self.granted_by_level_among(employee_id, now as int, perm, i + 1) {
                        let w = choose|w: int|
                            0 <= w < i + 1 && #[trigger] self.accreditation_active(w, employee_id, now as int)
                                && self.level_confers(self.accreditations@[w].fk_employee_level_id, perm);
                        if w < i {
                            assert(self.granted_by_level_among(employee_id, now as int, perm, i as int));
                        }
                    }
                    if self.granted_by_level_among(employee_id, now as int, perm, i as int) {
                        let w = choose|w: int|
                            0 <= w < i && #[trigger] self.accreditation_active(w, employee_id, now as int)
                                && self.level_confers(self.accreditations@[w].fk_employee_level_id, perm);
                        assert(0 <= w < i + 1);
                    }
                    if self.accreditation_active(i as int, employee_id, now as int) && self.level_confers(
                        a.fk_employee_level_id,
                        perm,
                    ) {
                        assert(0 <= i < i + 1 && self.accreditation_active(i as int, employee_id, now as int));
                    }
                }
            }
            i = i + 1;
        }
        let mut j: usize = 0;
        while j < self.derogations.len()
            invariant
                j <= self.derogations@.len(),
                strictly_sorted(r@),
                forall|perm: i32|
                    r@.contains(perm) <==> (self.granted_by_level_among(
                        employee_id,
                        now as int,
                        perm,
                        self.accreditations@.len() as int,
                    ) || self.granted_by_derogation_among(employee_id, now as int, perm, j as int)),
            decreases self.derogations@.len() - j,
        {
            let d = &self.derogations[j];
            let active = d.fk_recipient_employee_id == employee_id
                && Window::new(d.start_at, Some(d.end_at)).covers_instant(now);
            assert(*d == self.derogations@[j as int]);
            assert(active == self.derogation_active(j as int, employee_id, now as int));
            if active {
                insert_sorted(&mut r, d.fk_employee_authorization_type_id);
            }
            proof {
                assert forall|perm: i32|
                    self.granted_by_derogation_among(employee_id, now as int, perm, j + 1) <==> (
                    self.granted_by_derogation_among(employee_id, now as int, perm, j as int) || (
                    self.derogation_active(j as int, employee_id, now as int)
                        && d.fk_employee_authorization_type_id == perm)) by {
                    if self.granted_by_derogation_among(employee_id, now as int, perm, j + 1) {
                        let w = choose|w: int|
                            0 <= w < j + 1 && #[trigger] self.derogation_active(w, employee_id, now as int)
                                && self.derogations@[w].fk_employee_authorization_type_id == perm;
                        if w < j {
                            assert(self.granted_by_derogation_among(employee_id, now as int, perm, j as int));
                        }
                    }
                    if self.granted_by_derogation_among(employee_id, now as int, perm, j as int) {
                        let w = choose|w: int|
                            0 <= w < j && #[trigger] self.derogation_active(w, employee_id, now as int)
                                && self.derogations@[w].fk_employee_authorization_type_id == perm;
                        assert(0 <= w < j + 1);
                    }
                    if self.derogation_active(j as int, employee_id, now as int)
                        && d.fk_employee_authorization_type_id == perm {
                        assert(0 <= j < j + 1 && self.derogation_active(j as int, employee_id, now as int));
                    }
                }
            }
            j = j + 1;
        }
        r
    }
}

impl GrantStore {
    /// Among the first `n` accreditations, one active for the principal at
    /// `t` is of level `l` (as the catalog holds it).
    pub open spec fn level_held_among(self, employee_id: u128, t: int, l: EmployeeLevel, n: int) -> bool {
        exists|i: int|
            0 <= i < n && #[trigger] self.accreditation_active(i, employee_id, t)
                && self.find_level(self.accreditations@[i].fk_employee_level_id) == Some(l)
    }

    /// The principal holds level `l` at `t` through some accreditation.
    pub open spec fn level_held(self, employee_id: u128, t: int, l: EmployeeLevel) -> bool {
        self.level_held_among(employee_id, t, l, self.accreditations@.len() as int)
    }

    /// `l` is a level the principal holds at `t`, and none it holds then is
    /// more senior.
    pub open spec fn is_current_level(self, employee_id: u128, t: int, l: EmployeeLevel) -> bool {
        &&& self.level_held(employee_id, t, l)
        &&& forall|l2: EmployeeLevel| #[trigger]
            self.level_held(employee_id, t, l2) ==> l.level_index <= l2.level_index
    }

    /// The ordinal of the principal's current level at `t`, if any.
    pub open spec fn current_ordinal(self, employee_id: u128, t: int) -> Option<int> {
        if exists|l: EmployeeLevel| self.is_current_level(employee_id, t, l) {
            Some((choose|l: EmployeeLevel| self.is_current_level(employee_id, t, l)).level_index as int)
        } else {
            None
        }
    }

    /// The current level fixes the current ordinal.
    pub proof fn lemma_current_ordinal_of(self, employee_id: u128, t: int, l: EmployeeLevel)
        requires
            self.is_current_level(employee_id, t, l),
        ensures
            self.current_ordinal(employee_id, t) == Some(l.level_index as int),
    {
        let c = choose|c: EmployeeLevel| self.is_current_level(employee_id, t, c);
        assert(self.level_held(employee_id, t, c));
        assert(self.level_held(employee_id, t, l));
    }

    /// The current level of `employee_id` at `now`: of the levels held through
    /// accreditations active then, the most senior (lowest ordinal).
    pub fn get_current_employee_level_by_employee_id(&self, employee_id: u128, now: i64) -> (r: Result<
        EmployeeLevel,
        GrantError,
    >)
        ensures
            match r {
                Ok(l) => self.is_current_level(employee_id, now as int, l),
                Err(e) => e == GrantError::CurrentLevelNotFound && forall|l: EmployeeLevel|
                    !#[trigger] self.level_held(employee_id, now as int, l),
            },
    {
        let ghost t = now as int;
        let mut best: Option<EmployeeLevel> = None;
        let mut i: usize = 0;
        while i < self.accreditations.len()
            invariant
                i <= self.accreditations@.len(),
                t == now as int,
                match best {
                    Some(b) => self.level_held_among(employee_id, t, b, i as int) && forall|l2: EmployeeLevel|
                        #[trigger] self.level_held_among(employee_id, t, l2, i as int) ==> b.level_index
                            <= l2.level_index,
                    None => forall|l2: EmployeeLevel| !#[trigger] self.level_held_among(employee_id, t, l2, i as int),
                },
            decreases self.accreditations@.len() - i,
        {
            let a = self.accreditations[i];
            let active = a.fk_recipient_employee_id == employee_id
                && Window::new(a.start_at, a.end_at).covers_instant(now);
            let found = if active {
                match self.get_employee_level_by_id(a.fk_employee_level_id) {
                    Ok(l) => Some(l),
                    Err(_) => None,
                }
            } else {
                None
            };
            assert(a == self.accreditations@[i as int]);
            assert(active == self.accreditation_active(i as int, employee_id, t));
            assert(active ==> found == self.find_level(a.fk_employee_level_id));
            assert(!active ==> found is None);
            proof {
                assert forall|l2: EmployeeLevel|
                    self.level_held_among(employee_id, t, l2, i + 1) <==> (self.level_held_among(
                        employee_id,
                        t,
                        l2,
                        i as int,
                    ) || found == Some(l2)) by {
                    if self.level_held_among(employee_id, t, l2, i + 1) {
                        let w = choose|w: int|
                            0 <= w < i + 1 && #[trigger] self.accreditation_active(w, employee_id, t)
                                && self.find_level(self.accreditations@[w].fk_employee_level_id) == Some(l2);
                        if w < i {
                            assert(self.level_held_among(employee_id, t, l2, i as int));
                        }
                    }
                    if self.level_held_among(employee_id, t, l2, i as int) {
                        let w = choose|w: int|
                            0 <= w < i && #[trigger] self.accreditation_active(w, employee_id, t)
                                && self.find_level(self.accreditations@[w].fk_employee_level_id) == Some(l2);
                        assert(0 <= w < i + 1);
                    }
                    if found == Some(l2) {
                        assert(self.accreditation_active(i as int, employee_id, t));
                    }
                }
            }
            let ghost prev = best;
            match found {
                Some(l) => {
                    let replace = match &best {
                        Some(b) => l.level_index < b.level_index,
                        None => true,
                    };
                    if replace {
                        best = Some(l);
                    }
                },
                None => {},
            }
            proof {
                if best is Some {
                    let b = best->0;
                    assert(self.level_held_among(employee_id, t, b, i + 1));
                    assert forall|l2: EmployeeLevel|
                        #[trigger] self.level_held_among(employee_id, t, l2, i + 1) implies b.level_index
                        <= l2.level_index by {
                        if self.level_held_among(employee_id, t, l2, i as int) {
                            assert(prev is Some);
                        }
                    }
                } else {
                    assert forall|l2: EmployeeLevel|
                        !#[trigger] self.level_held_among(employee_id, t, l2, i + 1) by {
                        assert(!self.level_held_among(employee_id, t, l2, i as int));
                    }
                }
            }
            i = i + 1;
        }
        match best {
            Some(b) => Ok(b),
            None => Err(GrantError::CurrentLevelNotFound),
        }
    }

    /// `o` is the lowest ordinal of the level catalog.
    pub open spec fn is_most_senior_ordinal(self, o: int) -> bool {
        &&& exists|j: int| 0 <= j < self.levels@.len() && (#[trigger] self.levels@[j]).level_index == o
        &&& forall|j: int| 0 <= j < self.levels@.len() ==> o <= (#[trigger] self.levels@[j]).level_index
    }

    /// The single most senior ordinal of the catalog (none when it is empty).
    pub open spec fn most_senior_ordinal(self) -> Option<int> {
        if exists|o: int| self.is_most_senior_ordinal(o) {
            Some(choose|o: int| self.is_most_senior_ordinal(o))
        } else {
            None
        }
    }

    /// The lowest ordinal is unique.
    pub proof fn lemma_most_senior_ordinal_of(self, o: int)
        requires
            self.is_most_senior_ordinal(o),
        ensures
            self.most_senior_ordinal() == Some(o),
    {
        let c = choose|c: int| self.is_most_senior_ordinal(c);
        let jc = choose|j: int| 0 <= j < self.levels@.len() && (#[trigger] self.levels@[j]).level_index == c;
        let jo = choose|j: int| 0 <= j < self.levels@.len() && (#[trigger] self.levels@[j]).level_index == o;
        assert(o <= self.levels@[jc].level_index);
        assert(c <= self.levels@[jo].level_index);
    }

    /// The lowest ordinal of the level catalog, which marks the root tier.
    pub fn most_senior_level_index(&self) -> (r: Option<i32>)
        ensures
            r matches Some(o) ==> self.is_most_senior_ordinal(o as int),
            r is None ==> self.levels@.len() == 0,
            r is Some ==> self.most_senior_ordinal() == Some(r->0 as int),
    {
        if self.levels.len() == 0 {
            return None;
        }
        let mut best: i32 = self.levels[0].level_index;
        let mut i: usize = 1;
        while i < self.levels.len()
            invariant
                1 <= i <= self.levels@.len(),
                exists|j: int| 0 <= j < i && (#[trigger] self.levels@[j]).level_index == best,
                forall|j: int| 0 <= j < i ==> best <= (#[trigger] self.levels@[j]).level_index,
            decreases self.levels@.len() - i,
        {
            if self.levels[i].level_index < best {
                best = self.levels[i].level_index;
            }
            i = i + 1;
        }
        proof {
            self.lemma_most_senior_ordinal_of(best as int);
        }
        Some(best)
    }
}

} // verus!
