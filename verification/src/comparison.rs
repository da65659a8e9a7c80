//! The course of a tariff comparison: which meter point's consumption is
//! asked for next, and which agreement's prices it is billed at.

use crate::account::{first_in_force, is_first_current, ElectricityMeterPoint};
use crate::api::MeterInfo;
use crate::time::Timestamp;
use vstd::prelude::*;

verus! {

/// How far a comparison has come.
#[derive(Clone, Copy, Debug, PartialEq, Eq)]
pub enum Progress {
    /// Nothing has been asked for yet.
    Start,
    /// The consumption recorded at meter point `point` has arrived.
    ConsumptionReceived { point: usize },
}

/// What a comparison does next.
#[derive(Clone, Copy, Debug, PartialEq, Eq)]
pub enum Action {
    /// Ask for the consumption recorded at meter point `point`.
    FetchConsumption { point: usize },
    /// Ask for the prices of agreement `agreement` of meter point `point`,
    /// and bill the consumption at them.
    FetchPricing { point: usize, agreement: usize },
    /// No meter point is left to look at: there is nothing to bill.
    ReportNothingFound,
}

/// Some agreement of the meter point is in force at `now`.
pub open spec fn has_agreement_in_force(point: ElectricityMeterPoint, now: int) -> bool {
    exists|a: int| 0 <= a < point.agreements@.len() && (#[trigger] point.agreements@[a]).in_force(now)
}

/// `action` turns to the first meter point at or after `from` that imports
/// energy, or reports that there is none.
pub open spec fn turns_to_next_import(
    points: Seq<ElectricityMeterPoint>,
    from: int,
    action: Action,
) -> bool {
    match action {
        Action::FetchConsumption { point } => {
            &&& from <= point < points.len()
            &&& !points[point as int].is_export
            &&& forall|q: int| from <= q < point ==> (#[trigger] points[q]).is_export
        },
        Action::FetchPricing { .. } => false,
        Action::ReportNothingFound => forall|q: int|
            from <= q < points.len() ==> (#[trigger] points[q]).is_export,
    }
}

/// `action` is what a comparison over `points` does next when it has come as
/// far as `progress`.
///
/// Meter points that export energy are passed over. Once the consumption of
/// a meter point has arrived, it is billed under the first of its agreements
/// in force at `now`; without one, the comparison turns to the next meter
/// point.
pub open spec fn is_due(
    points: Seq<ElectricityMeterPoint>,
    progress: Progress,
    now: int,
    action: Action,
) -> bool {
    match progress {
        Progress::Start => turns_to_next_import(points, 0, action),
        Progress::ConsumptionReceived { point } => {
            if point < points.len() && has_agreement_in_force(points[point as int], now) {
                &&& action matches Action::FetchPricing { point: billed, agreement }
                &&& billed == point
                &&& is_first_current(points[point as int].agreements@, now, false, Some(agreement))
            } else {
                turns_to_next_import(points, point + 1, action)
            }
        },
    }
}

fn next_import(points: &[ElectricityMeterPoint], from: usize) -> (action: Action)
    ensures
        turns_to_next_import(points@, from as int, action),
{
    let mut q: usize = from;
    while q < points.len()
        invariant
            from <= q,
            forall|k: int| from <= k < q && k < points@.len() ==> (#[trigger] points@[k]).is_export,
        decreases points.len() - q,
    {
        if !points[q].is_export {
            return Action::FetchConsumption { point: q };
        }
        q = q + 1;
    }
    Action::ReportNothingFound
}

/// What a comparison over `points` does next when it has come as far as
/// `progress`.
pub fn next_action(points: &[ElectricityMeterPoint], progress: Progress, now: Timestamp) -> (action:
    Action)
    ensures
        is_due(points@, progress, now@, action),
{
    match progress {
        Progress::Start => next_import(points, 0),
        Progress::ConsumptionReceived { point } => {
            if point < points.len() {
                match first_in_force(points[point].agreements.as_slice(), now) {
                    Some(agreement) => Action::FetchPricing { point, agreement },
                    None => next_import(points, point + 1),
                }
            } else {
                Action::ReportNothingFound
            }
        },
    }
}

/// The meter whose consumption stands for a meter point: its first one, or
/// `None` when the meter point has no meter.
pub fn electricity_meter(point: &ElectricityMeterPoint) -> (r: Option<MeterInfo>)
    ensures
        match r {
            Some(MeterInfo::Electricity(serial_number, mpan)) => {
                &&& point.meters@.len() > 0
                &&& serial_number@ == point.meters@[0].serial_number@
                &&& mpan@ == point.mpan@
            },
            Some(MeterInfo::Gas(_, _)) => false,
            None => point.meters@.len() == 0,
        },
{
    if point.meters.len() == 0 {
        None
    } else {
        Some(MeterInfo::Electricity(point.meters[0].serial_number.clone(), point.mpan.clone()))
    }
}

} // verus!
