//! List reads of grants: rows in ascending order of a timestamp (ties kept
//! in store order), one page at a time, with their references resolved.
use vstd::prelude::*;
use crate::accreditation::EmployeeAccreditation;
use crate::derogation::EmployeeDerogation;
use crate::paginate::{page_bounds, page_range, PaginateQuery};
use crate::store::{EmployeeAccreditationRow, EmployeeDerogationRow, GrantStore};
use crate::window::Window;

verus! {

/// Row `a` comes before row `b` when ordering by `keys`: a smaller key, or
/// the same key and an earlier position.
pub open spec fn precedes(keys: Seq<i64>, a: usize, b: usize) -> bool {
    keys[a as int] < keys[b as int] || (keys[a as int] == keys[b as int] && a < b)
}

/// `idx` lists every position of `keys` once, in ascending key order, ties
/// in position order.
pub open spec fn is_stable_order(keys: Seq<i64>, idx: Seq<usize>) -> bool {
    &&& idx.len() == keys.len()
    &&& forall|a: int| 0 <= a < idx.len() ==> (#[trigger] idx[a]) < keys.len()
    &&& forall|a: int, b: int| 0 <= a < b < idx.len() ==> precedes(keys, #[trigger] idx[a], #[trigger] idx[b])
    &&& forall|k: int| 0 <= k < keys.len() ==> #[trigger] lists(idx, k)
}

/// Position `k` occurs in `idx`.
pub open spec fn lists(idx: Seq<usize>, k: int) -> bool {
    exists|a: int| 0 <= a < idx.len() && idx[a] == k
}

/// The positions of `keys` in ascending key order, ties in position order.
pub fn stable_order(keys: &Vec<i64>) -> (idx: Vec<usize>)
    ensures
        is_stable_order(keys@, idx@),
{
    let n = keys.len();
    let mut idx: Vec<usize> = Vec::new();
    let mut k: usize = 0;
    while k < n
        invariant
            n == keys@.len(),
            k <= n,
            idx@.len() == k,
            forall|a: int| 0 <= a < idx@.len() ==> (#[trigger] idx@[a]) < k,
            forall|a: int, b: int| 0 <= a < b < idx@.len() ==> precedes(keys@, #[trigger] idx@[a], #[trigger] idx@[b]),
            forall|c: int| 0 <= c < k ==> #[trigger] lists(idx@, c),
        decreases n - k,
    {
        let key = keys[k];
        let mut p: usize = 0;
        while p < idx.len() && keys[idx[p]] <= key
            invariant
                p <= idx@.len(),
                n == keys@.len(),
                k < n,
                key == keys@[k as int],
                forall|a: int| 0 <= a < idx@.len() ==> (#[trigger] idx@[a]) < k,
                forall|a: int| 0 <= a < p ==> keys@[(#[trigger] idx@[a]) as int] <= key,
            decreases idx@.len() - p,
        {
            p = p + 1;
        }
        let ghost before = idx@;
        idx.insert(p, k);
        proof {
            before.insert_ensures(p as int, k);
            let after = idx@;
            assert forall|a: int| 0 <= a < after.len() implies (#[trigger] after[a]) < k + 1 by {
                if a < p {
                } else if a > p {
                    assert(after[a] == before[a - 1]);
                }
            }
            assert forall|a: int, b: int| 0 <= a < b < after.len() implies precedes(
                keys@,
                #[trigger] after[a],
                #[trigger] after[b],
            ) by {
                if b < p {
                } else if b == p {
                    assert(keys@[before[a] as int] <= key);
                } else if a < p {
                    assert(after[b] == before[b - 1]);
                    assert(keys@[before[p as int] as int] > key);
                    if b - 1 > p {
                        assert(precedes(keys@, before[p as int], before[b - 1]));
                    }
                } else if a == p {
                    assert(after[b] == before[b - 1]);
                    assert(keys@[before[p as int] as int] > key);
                    if b - 1 > p {
                        assert(precedes(keys@, before[p as int], before[b - 1]));
                    }
                } else {
                    assert(after[a] == before[a - 1]);
                    assert(after[b] == before[b - 1]);
                    assert(precedes(keys@, before[a - 1], before[b - 1]));
                }
            }
            assert forall|c: int| 0 <= c < k + 1 implies #[trigger] lists(after, c) by {
                if c == k {
                    assert(after[p as int] == k);
                } else {
                    assert(lists(before, c));
                    let a0 = choose|a: int| 0 <= a < before.len() && before[a] == c;
                    if a0 < p {
                        assert(after[a0] == c);
                    } else {
                        assert(after[a0 + 1] == c);
                    }
                }
            }
        }
        k = k + 1;
    }
    idx
}

/// The rows at the positions `idx` lists.
pub open spec fn rows_at<T>(rows: Seq<T>, idx: Seq<usize>) -> Seq<T> {
    idx.map_values(|i: usize| rows[i as int])
}

pub open spec fn start_keys(rows: Seq<EmployeeAccreditationRow>) -> Seq<i64> {
    rows.map_values(|r: EmployeeAccreditationRow| r.start_at)
}

pub open spec fn derogation_start_keys(rows: Seq<EmployeeDerogationRow>) -> Seq<i64> {
    rows.map_values(|r: EmployeeDerogationRow| r.start_at)
}

fn accreditation_keys(rows: &Vec<EmployeeAccreditationRow>) -> (r: Vec<i64>)
    ensures
        r@ == start_keys(rows@),
{
    let mut r: Vec<i64> = Vec::new();
    let mut i: usize = 0;
    while i < rows.len()
        invariant
            i <= rows@.len(),
            r@.len() == i,
            forall|j: int| 0 <= j < i ==> r@[j] == rows@[j].start_at,
        decreases rows@.len() - i,
    {
        r.push(rows[i].start_at);
        i = i + 1;
    }
    assert(r@ =~= start_keys(rows@));
    r
}

/// The values of a partial function known to give one everywhere it is used.
pub open spec fn values_of<A, B>(f: spec_fn(A) -> Option<B>) -> spec_fn(A) -> B {
    |x: A| f(x)->0
}

/// When `f` gives a value for every element, `filter_map` keeps them all.
pub proof fn lemma_filter_map_total<A, B>(s: Seq<A>, f: spec_fn(A) -> Option<B>)
    requires
        forall|i: int| 0 <= i < s.len() ==> (#[trigger] f(s[i])) is Some,
    ensures
        s.filter_map(f) == s.map_values(values_of(f)),
    decreases s.len(),
{
    if s.len() == 0 {
        assert(s.filter_map(f) =~= s.map_values(values_of(f)));
    } else {
        let t = s.drop_last();
        assert forall|i: int| 0 <= i < t.len() implies (#[trigger] f(t[i])) is Some by {
            assert(t[i] == s[i]);
        }
        lemma_filter_map_total(t, f);
        assert(f(s[s.len() - 1]) is Some);
        assert(s.filter_map(f) =~= s.map_values(values_of(f)));
    }
}

/// The row belongs to `employee_id` and its window intersects `w`.
pub open spec fn meets(employee_id: u128, w: Window) -> spec_fn(EmployeeAccreditationRow) -> bool {
    |a: EmployeeAccreditationRow| a.fk_recipient_employee_id == employee_id && a.window().intersects(w)
}

impl GrantStore {
    pub open spec fn accreditation_if_resolved(self) -> spec_fn(EmployeeAccreditationRow) -> Option<EmployeeAccreditation> {
        |row: EmployeeAccreditationRow| match self.materialize_accreditation(row) {
            Ok(a) => Some(a),
            Err(_) => None,
        }
    }

    pub open spec fn derogation_if_resolved(self) -> spec_fn(EmployeeDerogationRow) -> Option<EmployeeDerogation> {
        |row: EmployeeDerogationRow| match self.materialize_derogation(row) {
            Ok(d) => Some(d),
            Err(_) => None,
        }
    }

    /// The rows with their references resolved, every one of them.
    pub open spec fn materialized_accreditations(self, rows: Seq<EmployeeAccreditationRow>) -> Seq<EmployeeAccreditation> {
        rows.map_values(values_of(self.accreditation_if_resolved()))
    }

    /// The rows with their references resolved, every one of them.
    pub open spec fn materialized_derogations(self, rows: Seq<EmployeeDerogationRow>) -> Seq<EmployeeDerogation> {
        rows.map_values(values_of(self.derogation_if_resolved()))
    }

    /// Resolves the rows at positions `idx[lo..hi]`, dropping those whose
    /// references do not resolve (none, when every row's do).
    fn resolve_accreditations(
        &self,
        rows: &Vec<EmployeeAccreditationRow>,
        idx: &Vec<usize>,
        lo: usize,
        hi: usize,
    ) -> (r: Vec<EmployeeAccreditation>)
        requires
            lo <= hi <= idx@.len(),
            forall|a: int| 0 <= a < idx@.len() ==> (#[trigger] idx@[a]) < rows@.len(),
        ensures
            r@ == rows_at(rows@, idx@.subrange(lo as int, hi as int)).filter_map(self.accreditation_if_resolved()),
            (forall|k: int| 0 <= k < rows@.len() ==> self.materialize_accreditation(#[trigger] rows@[k]) is Ok)
                ==> r@ == self.materialized_accreditations(rows_at(rows@, idx@.subrange(lo as int, hi as int))),
    {
        let ghost s = rows_at(rows@, idx@.subrange(lo as int, hi as int));
        let ghost f = self.accreditation_if_resolved();
        let mut r: Vec<EmployeeAccreditation> = Vec::new();
        let mut a: usize = lo;
        while a < hi
            invariant
                lo <= a <= hi,
                hi <= idx@.len(),
                forall|b: int| 0 <= b < idx@.len() ==> (#[trigger] idx@[b]) < rows@.len(),
                s == rows_at(rows@, idx@.subrange(lo as int, hi as int)),
                f == self.accreditation_if_resolved(),
                r@ == s.take(a - lo).filter_map(f),
            decreases hi - a,
        {
            let row = rows[idx[a]];
            proof {
                s.lemma_filter_map_take_succ(f, a - lo);
                assert(s[a - lo] == row);
            }
            match self.materialize(&row) {
                Ok(acc) => {
                    r.push(acc);
                },
                Err(_) => {},
            }
            a = a + 1;
        }
        assert(s.take(hi - lo) =~= s);
        proof {
            if forall|k: int| 0 <= k < rows@.len() ==> self.materialize_accreditation(#[trigger] rows@[k]) is Ok {
                assert forall|i: int| 0 <= i < s.len() implies (#[trigger] f(s[i])) is Some by {
                    assert(s[i] == rows@[idx@[lo + i] as int]);
                    assert(self.materialize_accreditation(rows@[idx@[lo + i] as int]) is Ok);
                }
                lemma_filter_map_total(s, f);
            }
        }
        r
    }

    /// One page of all accreditations in ascending order of start, ties in
    /// store order, with references resolved, and the number of
    /// accreditations. In a well-formed store the page holds every row at its
    /// positions; otherwise rows whose references do not resolve are left out.
    pub fn get_all_employee_accreditations(&self, filters: &PaginateQuery) -> (r: (Vec<EmployeeAccreditation>, u64))
        requires
            filters.page >= 1,
        ensures
            r.1 == self.accreditations@.len(),
            exists|idx: Seq<usize>|
                is_stable_order(start_keys(self.accreditations@), idx) && r.0@ == rows_at(
                    self.accreditations@,
                    idx.subrange(
                        page_bounds(idx.len() as int, filters.spec_offset(), filters.limit as int).0,
                        page_bounds(idx.len() as int, filters.spec_offset(), filters.limit as int).1,
                    ),
                ).filter_map(self.accreditation_if_resolved()) && (self.wf() ==> r.0@
                    == self.materialized_accreditations(rows_at(self.accreditations@, idx.subrange(
                        page_bounds(idx.len() as int, filters.spec_offset(), filters.limit as int).0,
                        page_bounds(idx.len() as int, filters.spec_offset(), filters.limit as int).1,
                    )))),
    {
        let keys = accreditation_keys(&self.accreditations);
        let idx = stable_order(&keys);
        let (lo, hi) = page_range(idx.len(), filters);
        let page = self.resolve_accreditations(&self.accreditations, &idx, lo, hi);
        (page, self.accreditations.len() as u64)
    }

    /// The accreditations of `employee_id`, in store order.
    pub open spec fn accreditations_of(self, employee_id: u128) -> Seq<EmployeeAccreditationRow> {
        self.accreditations@.filter(|a: EmployeeAccreditationRow| a.fk_recipient_employee_id == employee_id)
    }

    fn rows_of(&self, employee_id: u128) -> (r: Vec<EmployeeAccreditationRow>)
        ensures
            r@ == self.accreditations_of(employee_id),
            forall|k: int| 0 <= k < r@.len() ==> self.accreditations@.contains(#[trigger] r@[k]),
    {
        let ghost pred = |a: EmployeeAccreditationRow| a.fk_recipient_employee_id == employee_id;
        let mut r: Vec<EmployeeAccreditationRow> = Vec::new();
        let mut i: usize = 0;
        while i < self.accreditations.len()
            invariant
                i <= self.accreditations@.len(),
                pred == (|a: EmployeeAccreditationRow| a.fk_recipient_employee_id == employee_id),
                r@ == self.accreditations@.subrange(0, i as int).filter(pred),
                forall|k: int| 0 <= k < r@.len() ==> self.accreditations@.contains(#[trigger] r@[k]),
            decreases self.accreditations@.len() - i,
        {
            let ghost before = self.accreditations@.subrange(0, i as int);
            let a = self.accreditations[i];
            assert(self.accreditations@.subrange(0, i + 1) =~= before.push(a));
            proof {
                before.lemma_filter_push(a, pred);
            }
            if a.fk_recipient_employee_id == employee_id {
                assert(self.accreditations@[i as int] == a);
                r.push(a);
            }
            i = i + 1;
        }
        assert(self.accreditations@.subrange(0, self.accreditations@.len() as int) =~= self.accreditations@);
        r
    }

    /// One page of the accreditations of `employee_id` in ascending order of
    /// start, ties in store order, with references resolved, and the number
    /// of accreditations of the principal. In a well-formed store the page
    /// holds every row at its positions; otherwise rows whose references do
    /// not resolve are left out.
    pub fn get_employee_accreditations_by_employee_id(
        &self,
        employee_id: u128,
        filters: &PaginateQuery,
    ) -> (r: (Vec<EmployeeAccreditation>, u64))
        requires
            filters.page >= 1,
        ensures
            r.1 == self.accreditations_of(employee_id).len(),
            exists|idx: Seq<usize>|
                is_stable_order(start_keys(self.accreditations_of(employee_id)), idx) && r.0@ == rows_at(
                    self.accreditations_of(employee_id),
                    idx.subrange(
                        page_bounds(idx.len() as int, filters.spec_offset(), filters.limit as int).0,
                        page_bounds(idx.len() as int, filters.spec_offset(), filters.limit as int).1,
                    ),
                ).filter_map(self.accreditation_if_resolved()) && (self.wf() ==> r.0@
                    == self.materialized_accreditations(rows_at(self.accreditations_of(employee_id), idx.subrange(
                        page_bounds(idx.len() as int, filters.spec_offset(), filters.limit as int).0,
                        page_bounds(idx.len() as int, filters.spec_offset(), filters.limit as int).1,
                    )))),
    {
        let rows = self.rows_of(employee_id);
        proof {
            self.lemma_contained_rows_resolve(rows@);
        }
        let keys = accreditation_keys(&rows);
        let idx = stable_order(&keys);
        let (lo, hi) = page_range(idx.len(), filters);
        let page = self.resolve_accreditations(&rows, &idx, lo, hi);
        (page, rows.len() as u64)
    }

    /// In a well-formed store, rows taken from its accreditations resolve.
    proof fn lemma_contained_rows_resolve(self, rows: Seq<EmployeeAccreditationRow>)
        requires
            forall|k: int| 0 <= k < rows.len() ==> self.accreditations@.contains(#[trigger] rows[k]),
        ensures
            self.wf() ==> forall|k: int|
                0 <= k < rows.len() ==> self.materialize_accreditation(#[trigger] rows[k]) is Ok,
    {
        if self.wf() {
            assert forall|k: int| 0 <= k < rows.len() implies self.materialize_accreditation(#[trigger] rows[k]) is Ok by {
                assert(self.accreditations@.contains(rows[k]));
                let j = choose|j: int| 0 <= j < self.accreditations@.len() && self.accreditations@[j] == rows[k];
                assert(self.materialize_accreditation(self.accreditations@[j]) is Ok);
            }
        }
    }

    /// The accreditations of `employee_id` whose windows intersect `w`, in
    /// store order.
    pub open spec fn accreditations_meeting(self, employee_id: u128, w: Window) -> Seq<EmployeeAccreditationRow> {
        self.accreditations@.filter(meets(employee_id, w))
    }

    /// The accreditations of `employee_id` whose windows intersect `w`, in
    /// ascending order of start, ties in store order, with references
    /// resolved. In a well-formed store every such row is there; otherwise
    /// rows whose references do not resolve are left out.
    pub fn get_all_employee_accreditations_from(&self, employee_id: u128, w: &Window) -> (r: Vec<EmployeeAccreditation>)
        ensures
            exists|idx: Seq<usize>|
                is_stable_order(start_keys(self.accreditations_meeting(employee_id, *w)), idx) && r@ == rows_at(
                    self.accreditations_meeting(employee_id, *w),
                    idx,
                ).filter_map(self.accreditation_if_resolved()) && (self.wf() ==> r@
                    == self.materialized_accreditations(rows_at(self.accreditations_meeting(employee_id, *w), idx))),
    {
        let ghost pred = meets(employee_id, *w);
        let mut rows: Vec<EmployeeAccreditationRow> = Vec::new();
        let mut i: usize = 0;
        while i < self.accreditations.len()
            invariant
                i <= self.accreditations@.len(),
                pred == meets(employee_id, *w),
                rows@ == self.accreditations@.subrange(0, i as int).filter(pred),
                forall|k: int| 0 <= k < rows@.len() ==> self.accreditations@.contains(#[trigger] rows@[k]),
            decreases self.accreditations@.len() - i,
        {
            let ghost before = self.accreditations@.subrange(0, i as int);
            let a = self.accreditations[i];
            assert(self.accreditations@.subrange(0, i + 1) =~= before.push(a));
            proof {
                before.lemma_filter_push(a, pred);
            }
            if a.fk_recipient_employee_id == employee_id && Window::new(a.start_at, a.end_at).intersects_window(w) {
                assert(self.accreditations@[i as int] == a);
                rows.push(a);
            }
            i = i + 1;
        }
        assert(self.accreditations@.subrange(0, self.accreditations@.len() as int) =~= self.accreditations@);
        proof {
            self.lemma_contained_rows_resolve(rows@);
        }
        let keys = accreditation_keys(&rows);
        let idx = stable_order(&keys);
        let r = self.resolve_accreditations(&rows, &idx, 0, idx.len());
        assert(idx@.subrange(0, idx@.len() as int) =~= idx@);
        assert(rows@ == self.accreditations_meeting(employee_id, *w));
        assert(is_stable_order(start_keys(self.accreditations_meeting(employee_id, *w)), idx@));
        r
    }

    /// One page of all derogations in ascending order of start, ties in store
    /// order, with references resolved, and the number of derogations. In a
    /// well-formed store the page holds every row at its positions; otherwise
    /// rows whose references do not resolve are left out.
    pub fn get_all_employee_derogations(&self, filters: &PaginateQuery) -> (r: (Vec<EmployeeDerogation>, u64))
        requires
            filters.page >= 1,
        ensures
            r.1 == self.derogations@.len(),
            exists|idx: Seq<usize>|
                is_stable_order(derogation_start_keys(self.derogations@), idx) && r.0@ == rows_at(
                    self.derogations@,
                    idx.subrange(
                        page_bounds(idx.len() as int, filters.spec_offset(), filters.limit as int).0,
                        page_bounds(idx.len() as int, filters.spec_offset(), filters.limit as int).1,
                    ),
                ).filter_map(self.derogation_if_resolved()) && (self.wf() ==> r.0@
                    == self.materialized_derogations(rows_at(self.derogations@, idx.subrange(
                        page_bounds(idx.len() as int, filters.spec_offset(), filters.limit as int).0,
                        page_bounds(idx.len() as int, filters.spec_offset(), filters.limit as int).1,
                    )))),
    {
        let mut keys: Vec<i64> = Vec::new();
        let mut i: usize = 0;
        while i < self.derogations.len()
            invariant
                i <= self.derogations@.len(),
                keys@.len() == i,
                forall|j: int| 0 <= j < i ==> keys@[j] == self.derogations@[j].start_at,
            decreases self.derogations@.len() - i,
        {
            keys.push(self.derogations[i].start_at);
            i = i + 1;
        }
        assert(keys@ =~= derogation_start_keys(self.derogations@));
        let idx = stable_order(&keys);
        let (lo, hi) = page_range(idx.len(), filters);
        let ghost s = rows_at(self.derogations@, idx@.subrange(lo as int, hi as int));
        let ghost f = self.derogation_if_resolved();
        let mut r: Vec<EmployeeDerogation> = Vec::new();
        let mut a: usize = lo;
        while a < hi
            invariant
                lo <= a <= hi,
                hi <= idx@.len(),
                is_stable_order(derogation_start_keys(self.derogations@), idx@),
                keys@.len() == self.derogations@.len(),
                s == rows_at(self.derogations@, idx@.subrange(lo as int, hi as int)),
                f == self.derogation_if_resolved(),
                r@ == s.take(a - lo).filter_map(f),
            decreases hi - a,
        {
            let row = &self.derogations[idx[a]];
            proof {
                s.lemma_filter_map_take_succ(f, a - lo);
                assert(s[a - lo] == *row);
            }
            match self.materialize_derogation_row(row) {
                Ok(d) => {
                    r.push(d);
                },
                Err(_) => {},
            }
            a = a + 1;
        }
        assert(s.take(hi - lo) =~= s);
        proof {
            if self.wf() {
                assert forall|i: int| 0 <= i < s.len() implies (#[trigger] f(s[i])) is Some by {
                    assert(s[i] == self.derogations@[idx@[lo + i] as int]);
                    assert(self.materialize_derogation(self.derogations@[idx@[lo + i] as int]) is Ok);
                }
                lemma_filter_map_total(s, f);
            }
        }
        (r, self.derogations.len() as u64)
    }
}

} // verus!
