//! Validity windows of grants, as half-open intervals of instants.
//!
//! An instant is a count of microseconds since the Unix epoch (the precision
//! of the relational store's timestamps).
use vstd::prelude::*;

verus! {

/// Five minutes, in microseconds: how far in the past a grant may start.
pub const START_GRACE_MICROS: i64 = 300_000_000;

/// The interval `[start_at, end_at)`; no `end_at` means open-ended.
#[derive(Debug, Clone, Copy, PartialEq, Eq, Structural)]
pub struct Window {
    pub start_at: i64,
    pub end_at: Option<i64>,
}

impl Window {
    /// An end, where there is one, lies strictly after the start.
    pub open spec fn is_valid(self) -> bool {
        match self.end_at {
            Some(e) => self.start_at < e,
            None => true,
        }
    }

    /// The instant `t` lies in the window.
    pub open spec fn covers(self, t: int) -> bool {
        &&& self.start_at <= t
        &&& match self.end_at {
            Some(e) => t < e,
            None => true,
        }
    }

    /// `t` lies before the end of the window (always, when open-ended).
    pub open spec fn ends_after(self, t: int) -> bool {
        match self.end_at {
            Some(e) => t < e,
            None => true,
        }
    }

    /// Some instant lies in both windows.
    pub open spec fn intersects(self, other: Window) -> bool {
        self.ends_after(other.start_at as int) && other.ends_after(self.start_at as int)
    }

    pub fn new(start_at: i64, end_at: Option<i64>) -> (r: Window)
        ensures
            r.start_at == start_at,
            r.end_at == end_at,
    {
        Window { start_at, end_at }
    }

    pub fn is_valid_window(&self) -> (r: bool)
        ensures
            r == self.is_valid(),
    {
        match self.end_at {
            Some(e) => self.start_at < e,
            None => true,
        }
    }

    pub fn covers_instant(&self, t: i64) -> (r: bool)
        ensures
            r == self.covers(t as int),
    {
        self.start_at <= t && match self.end_at {
            Some(e) => t < e,
            None => true,
        }
    }

    pub fn intersects_window(&self, other: &Window) -> (r: bool)
        ensures
            r == self.intersects(*other),
    {
        let a = match self.end_at {
            Some(e) => other.start_at < e,
            None => true,
        };
        let b = match other.end_at {
            Some(e) => self.start_at < e,
            None => true,
        };
        a && b
    }
}

/// A start is acceptable when it lies no more than the grace period before
/// `now`: `start_at >= now - 5 minutes`.
pub open spec fn start_in_grace(start_at: int, now: int) -> bool {
    start_at >= now - START_GRACE_MICROS
}

pub fn start_is_in_grace(start_at: i64, now: i64) -> (r: bool)
    ensures
        r == start_in_grace(start_at as int, now as int),
{
    (start_at as i128) + (START_GRACE_MICROS as i128) >= now as i128
}

/// Two valid windows intersect exactly when some instant lies in both.
pub proof fn lemma_intersects_iff_common_instant(a: Window, b: Window)
    requires
        a.is_valid(),
        b.is_valid(),
    ensures
        a.intersects(b) <==> exists|t: int| a.covers(t) && b.covers(t),
{
    if a.intersects(b) {
        let t = if a.start_at >= b.start_at { a.start_at as int } else { b.start_at as int };
        assert(a.covers(t) && b.covers(t));
    }
}

/// Intersection does not depend on the order of the two windows.
pub proof fn lemma_intersects_symmetric(a: Window, b: Window)
    ensures
        a.intersects(b) == b.intersects(a),
{
}

} // verus!
