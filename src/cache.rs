//! The read-through cache of resolved permission sets.
//!
//! The cache holds, per principal, the permission ids as a JSON array, kept
//! for a fixed time to live. It is never invalidated when grants change: a
//! cached set may lag behind the store for up to that time.
use vstd::prelude::*;
use crate::resolve::{lemma_sorted_same_elements_equal, strictly_sorted};
use crate::store::GrantStore;

verus! {

/// How long a cached permission set is kept, in seconds (24 hours).
pub const PERMISSIONS_CACHE_TTL_SECONDS: u64 = 86_400;

/// The character of a decimal digit `d` (0 to 9).
pub open spec fn digit_char(d: int) -> char {
    if d == 0 {
        '0'
    } else if d == 1 {
        '1'
    } else if d == 2 {
        '2'
    } else if d == 3 {
        '3'
    } else if d == 4 {
        '4'
    } else if d == 5 {
        '5'
    } else if d == 6 {
        '6'
    } else if d == 7 {
        '7'
    } else if d == 8 {
        '8'
    } else {
        '9'
    }
}

/// The decimal digits of `n`, most significant first, without leading zeros.
pub open spec fn digits_of(n: nat) -> Seq<char>
    decreases n,
{
    if n < 10 {
        seq![digit_char(n as int)]
    } else {
        digits_of(n / 10) + seq![digit_char((n % 10) as int)]
    }
}

/// An integer in decimal, with a minus sign when negative.
pub open spec fn decimal_of(i: int) -> Seq<char> {
    if i < 0 {
        seq!['-'] + digits_of((-i) as nat)
    } else {
        digits_of(i as nat)
    }
}

/// The ids in decimal, separated by commas.
pub open spec fn joined_decimals(ids: Seq<i32>) -> Seq<char>
    decreases ids.len(),
{
    if ids.len() == 0 {
        Seq::empty()
    } else if ids.len() == 1 {
        decimal_of(ids[0] as int)
    } else {
        joined_decimals(ids.drop_last()) + seq![','] + decimal_of(ids.last() as int)
    }
}

/// The JSON array of the ids, as serde_json writes it: `[1,2,3]`.
pub open spec fn json_of_ids(ids: Seq<i32>) -> Seq<char> {
    seq!['['] + joined_decimals(ids) + seq![']']
}

/// The list of permission ids that serde_json reads from a text, if it reads one.
pub uninterp spec fn ids_of_json(text: Seq<char>) -> Option<Seq<i32>>;

/// Relies on `serde_json::to_string::<Vec<i32>>`: the JSON array of the ids,
/// each written as its decimal digits (through itoa), with no spaces; writing
/// into memory cannot fail. `serde_json::from_str::<Vec<i32>>` reads that
/// text back as the same ids.
#[verifier::external_body]
fn encode_ids(ids: &Vec<i32>) -> (r: String)
    ensures
        r@ == json_of_ids(ids@),
        ids_of_json(r@) == Some(ids@),
{
    serde_json::to_string(ids).unwrap_or_default()
}

/// Relies on `serde_json::from_str::<Vec<i32>>`: the ids of a JSON array of
/// integers, or nothing when the text is not one; the result depends on the
/// text alone.
#[verifier::external_body]
fn decode_ids(text: &str) -> (r: Option<Vec<i32>>)
    ensures
        match r {
            Some(v) => ids_of_json(text@) == Some(v@),
            None => ids_of_json(text@) is None,
        },
{
    serde_json::from_str::<Vec<i32>>(text).ok()
}

pub open spec fn opt_view(o: Option<String>) -> Option<Seq<char>> {
    match o {
        Some(s) => Some(s@),
        None => None,
    }
}

/// The outcome of a read through the cache: the permission ids returned,
/// and the entry to store in the cache, if the set was recomputed.
#[derive(Debug)]
pub struct PermissionRead {
    pub permissions: Vec<i32>,
    pub cache_write: Option<String>,
}

impl GrantStore {
    /// `s` is the resolved permission set of the principal at `t`, ascending.
    pub open spec fn is_resolution(self, employee_id: u128, t: int, s: Seq<i32>) -> bool {
        &&& strictly_sorted(s)
        &&& forall|perm: i32| s.contains(perm) <==> self.holds_permission(employee_id, t, perm)
    }

    /// A read through the cache that found `cached` returns `ids` and leaves
    /// `write` to be stored: a readable entry is returned as it is and nothing
    /// is written; otherwise the set is recomputed from the store and its JSON
    /// text is to be stored.
    pub open spec fn read_through(
        self,
        employee_id: u128,
        t: int,
        cached: Option<Seq<char>>,
        ids: Seq<i32>,
        write: Option<Seq<char>>,
    ) -> bool {
        if cached is Some && ids_of_json(cached->0) is Some {
            ids == ids_of_json(cached->0)->0 && write is None
        } else {
            &&& self.is_resolution(employee_id, t, ids)
            &&& write == Some(json_of_ids(ids))
            &&& ids_of_json(json_of_ids(ids)) == Some(ids)
        }
    }

    /// Settles a read once the cached entry has been decoded: the decoded ids
    /// when there are some, else the set recomputed from the store. The flag
    /// says whether the set was recomputed (and so is to be cached).
    pub fn settle_permissions(&self, employee_id: u128, now: i64, decoded: Option<Vec<i32>>) -> (r: (Vec<i32>, bool))
        ensures
            match decoded {
                Some(v) => r.0@ == v@ && !r.1,
                None => self.is_resolution(employee_id, now as int, r.0@) && r.1,
            },
    {
        match decoded {
            Some(v) => (v, false),
            None => (self.resolve_permissions(employee_id, now), true),
        }
    }

    /// The permission ids of `employee_id` at `now`, read through the cache
    /// entry `cached` (what the cache held for the principal, if anything).
    pub fn get_employee_permissions(&self, employee_id: u128, now: i64, cached: &Option<String>) -> (r: PermissionRead)
        ensures
            self.read_through(employee_id, now as int, opt_view(*cached), r.permissions@, opt_view(r.cache_write)),
    {
        let decoded = match cached {
            Some(c) => decode_ids(c.as_str()),
            None => None,
        };
        let (permissions, recomputed) = self.settle_permissions(employee_id, now, decoded);
        let cache_write = if recomputed {
            Some(encode_ids(&permissions))
        } else {
            None
        };
        PermissionRead { permissions, cache_write }
    }
}

/// Only one ascending sequence is the resolved set of a principal at an instant.
pub proof fn lemma_resolution_unique(store: GrantStore, employee_id: u128, t: int, a: Seq<i32>, b: Seq<i32>)
    requires
        store.is_resolution(employee_id, t, a),
        store.is_resolution(employee_id, t, b),
    ensures
        a == b,
{
    lemma_sorted_same_elements_equal(a, b);
}

/// Two reads of one principal's permissions within the cache's time to live,
/// with no change in between, return the same ids: the second read finds the
/// entry that the first one found or stored, whatever the instants of the
/// two reads.
pub proof fn lemma_repeated_read_stable(
    store: GrantStore,
    employee_id: u128,
    t1: int,
    t2: int,
    cached: Option<Seq<char>>,
    ids1: Seq<i32>,
    write1: Option<Seq<char>>,
    ids2: Seq<i32>,
    write2: Option<Seq<char>>,
)
    requires
        store.read_through(employee_id, t1, cached, ids1, write1),
        ({
            let held = if write1 is Some { write1 } else { cached };
            &&& held is Some
            &&& ids_of_json(held->0) is Some
            &&& store.read_through(employee_id, t2, held, ids2, write2)
        }),
    ensures
        ids2 == ids1,
        write2 is None,
{
}

/// Two reads at the same instant that both miss the cache return the same ids.
pub proof fn lemma_recomputation_deterministic(
    store: GrantStore,
    employee_id: u128,
    t: int,
    ids1: Seq<i32>,
    write1: Option<Seq<char>>,
    ids2: Seq<i32>,
    write2: Option<Seq<char>>,
)
    requires
        store.read_through(employee_id, t, None, ids1, write1),
        store.read_through(employee_id, t, None, ids2, write2),
    ensures
        ids1 == ids2,
{
    lemma_resolution_unique(store, employee_id, t, ids1, ids2);
}

} // verus!
