//! What is current on an account: the agreement that governs a meter point
//! now, and the properties that the customer still occupies.

use crate::time::Timestamp;
use vstd::prelude::*;

verus! {

/// A tariff agreed for a meter point over a window of time.
#[derive(Debug, PartialEq, Eq)]
pub struct Agreement {
    pub tariff_code: String,
    pub valid_from: Timestamp,
    pub valid_to: Timestamp,
}

/// A meter, known by its serial number.
#[derive(Debug, PartialEq, Eq)]
pub struct Meter {
    pub serial_number: String,
}

/// A point at which electricity is metered: its MPAN, the agreements made for
/// it, whether it exports energy rather than imports it, and its meters.
#[derive(Debug, PartialEq, Eq)]
pub struct ElectricityMeterPoint {
    pub mpan: String,
    pub agreements: Vec<Agreement>,
    pub is_export: bool,
    pub meters: Vec<Meter>,
}

impl Agreement {
    /// The agreement is in force at `now`, the first and last instants of
    /// its window included.
    pub open spec fn in_force(self, now: int) -> bool {
        self.valid_from@ <= now <= self.valid_to@
    }

    /// The agreement is in force at `now`, and `now` is neither the first
    /// nor the last instant of its window.
    pub open spec fn strictly_in_force(self, now: int) -> bool {
        self.valid_from@ < now < self.valid_to@
    }

    /// The agreement is in force at `now`; with `strict`, strictly so.
    pub open spec fn current(self, now: int, strict: bool) -> bool {
        if strict {
            self.strictly_in_force(now)
        } else {
            self.in_force(now)
        }
    }

    /// Whether the agreement is in force at `now`, bounds included.
    pub fn is_in_force(&self, now: Timestamp) -> (b: bool)
        ensures
            b == self.in_force(now@),
    {
        self.valid_from.secs() <= now.secs() && now.secs() <= self.valid_to.secs()
    }

    /// Whether the agreement is in force at `now`, bounds excluded.
    pub fn is_strictly_in_force(&self, now: Timestamp) -> (b: bool)
        ensures
            b == self.strictly_in_force(now@),
    {
        self.valid_from.secs() < now.secs() && now.secs() < self.valid_to.secs()
    }
}

/// `position` is that of the first agreement, in the order given, that is
/// current at `now`; or there is none and `position` is `None`.
pub open spec fn is_first_current(
    agreements: Seq<Agreement>,
    now: int,
    strict: bool,
    position: Option<usize>,
) -> bool {
    match position {
        Some(i) => {
            &&& i < agreements.len()
            &&& agreements[i as int].current(now, strict)
            &&& forall|j: int| 0 <= j < i ==> !(#[trigger] agreements[j]).current(now, strict)
        },
        None => forall|j: int|
            0 <= j < agreements.len() ==> !(#[trigger] agreements[j]).current(now, strict),
    }
}

fn first_current(agreements: &[Agreement], now: Timestamp, strict: bool) -> (r: Option<usize>)
    ensures
        is_first_current(agreements@, now@, strict, r),
{
    let mut i: usize = 0;
    while i < agreements.len()
        invariant
            i <= agreements.len(),
            forall|j: int| 0 <= j < i ==> !(#[trigger] agreements@[j]).current(now@, strict),
        decreases agreements.len() - i,
    {
        let found: bool = if strict {
            agreements[i].is_strictly_in_force(now)
        } else {
            agreements[i].is_in_force(now)
        };
        if found {
            return Some(i);
        }
        i = i + 1;
    }
    None
}

/// The position of the first agreement in force at `now`, bounds included:
/// the agreement under which consumption is billed.
pub fn first_in_force(agreements: &[Agreement], now: Timestamp) -> (r: Option<usize>)
    ensures
        is_first_current(agreements@, now@, false, r),
{
    first_current(agreements, now, false)
}

/// The position of the first agreement in force at `now`, bounds excluded:
/// the agreement shown for a meter point.
pub fn first_strictly_in_force(agreements: &[Agreement], now: Timestamp) -> (r: Option<usize>)
    ensures
        is_first_current(agreements@, now@, true, r),
{
    first_current(agreements, now, true)
}

/// Whether a property that the customer moved into at `moved_in_at`, and out
/// of at `moved_out_at` if at all, is one they occupy at `now`: they moved in
/// before `now` and have no date of moving out.
pub fn is_active(moved_in_at: Timestamp, moved_out_at: Option<Timestamp>, now: Timestamp) -> (b:
    bool)
    ensures
        b == (moved_in_at@ < now@ && moved_out_at is None),
{
    moved_in_at.secs() < now.secs() && moved_out_at.is_none()
}

} // verus!
