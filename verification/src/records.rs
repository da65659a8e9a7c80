//! The provider's records as they arrive: newest first, and not yet
//! validated. From them come the readings and indexes that billing works on.

use crate::billing::{aggregate, summary_of, BillingSummary};
use crate::order::reversed;
use crate::rate::{
    index_well_formed, is_first_conflict, period_views, IndexError, PeriodError, PeriodView,
    RatePeriod, RatePeriodIndex,
};
use crate::reading::{reading_views, ConsumptionReading, ReadingError, ReadingView};
use crate::time::{instant_view, Timestamp};
use vstd::prelude::*;

verus! {

/// The consumption recorded over one metering interval.
#[derive(Clone, Copy, Debug, PartialEq, Eq)]
pub struct ConsumptionDatum {
    /// The quantity consumed, in quantity units.
    pub consumption: u32,
    pub interval_start: Timestamp,
    pub interval_end: Timestamp,
}

/// One answer of the provider to a request for consumption: the records,
/// newest first, and how many the provider holds in all.
#[derive(Debug, PartialEq, Eq)]
pub struct ConsumptionResponse {
    pub results: Vec<ConsumptionDatum>,
    pub count: i64,
}

/// A price, without and with VAT, and the window over which it applies.
#[derive(Clone, Copy, Debug, PartialEq, Eq)]
pub struct PricingDatum {
    /// The price without VAT, in price units.
    pub value_exc_vat: i32,
    /// The price with VAT, in price units: the price that is billed.
    pub value_inc_vat: i32,
    pub valid_from: Timestamp,
    /// The last instant at which the price applies; `None` while it is
    /// still in effect.
    pub valid_to: Option<Timestamp>,
}

/// The prices of one tariff: its standing charges and its unit rates, each
/// newest first.
#[derive(Debug, PartialEq, Eq)]
pub struct TariffPricing {
    pub tariff_code: String,
    pub product_code: String,
    pub standing_charges: Vec<PricingDatum>,
    pub unit_charges: Vec<PricingDatum>,
}

impl ConsumptionDatum {
    /// The reading that the record stands for.
    pub open spec fn reading_view(self) -> ReadingView {
        ReadingView {
            quantity: self.consumption as int,
            interval_start: self.interval_start@,
            interval_end: self.interval_end@,
        }
    }

    /// The reading that the record stands for, refused when its interval is
    /// empty.
    pub fn reading(&self) -> (r: Result<ConsumptionReading, ReadingError>)
        ensures
            match r {
                Ok(reading) => reading@ == self.reading_view() && self.reading_view().well_formed(),
                Err(e) => e == ReadingError::EmptyInterval && !self.reading_view().well_formed(),
            },
    {
        ConsumptionReading::new(self.consumption, self.interval_start, self.interval_end)
    }
}

impl PricingDatum {
    /// The rate period that the record stands for: its price with VAT over
    /// its window.
    pub open spec fn period_view(self) -> PeriodView {
        PeriodView {
            value: self.value_inc_vat as int,
            valid_from: self.valid_from@,
            valid_to: instant_view(self.valid_to),
        }
    }

    /// The rate period that the record stands for, refused when its window
    /// closes before it opens.
    pub fn rate_period(&self) -> (r: Result<RatePeriod, PeriodError>)
        ensures
            match r {
                Ok(period) => period@ == self.period_view() && self.period_view().well_formed(),
                Err(e) => e == PeriodError::ClosesBeforeOpening
                    && !self.period_view().well_formed(),
            },
    {
        RatePeriod::new(self.value_inc_vat, self.valid_from, self.valid_to)
    }
}

/// The readings that consumption records stand for, oldest first.
pub open spec fn readings_oldest_first(records: Seq<ConsumptionDatum>) -> Seq<ReadingView> {
    records.map_values(|d: ConsumptionDatum| d.reading_view()).reverse()
}

/// The rate periods that price records stand for, oldest first.
pub open spec fn periods_oldest_first(records: Seq<PricingDatum>) -> Seq<PeriodView> {
    records.map_values(|d: PricingDatum| d.period_view()).reverse()
}

/// Every consumption record spans some time.
pub open spec fn readings_well_formed(records: Seq<ConsumptionDatum>) -> bool {
    forall|j: int| 0 <= j < records.len() ==> (#[trigger] records[j]).reading_view().well_formed()
}

/// The record at `position` is the first, in the order given, that spans
/// no time.
pub open spec fn first_malformed_reading(records: Seq<ConsumptionDatum>, position: int) -> bool {
    &&& 0 <= position < records.len()
    &&& !records[position].reading_view().well_formed()
    &&& forall|j: int| 0 <= j < position ==> (#[trigger] records[j]).reading_view().well_formed()
}

/// Every price record has a window that does not close before it opens.
pub open spec fn periods_well_formed(records: Seq<PricingDatum>) -> bool {
    forall|j: int| 0 <= j < records.len() ==> (#[trigger] records[j]).period_view().well_formed()
}

/// The record at `position` is the first, in the order given, whose window
/// closes before it opens.
pub open spec fn first_malformed_period(records: Seq<PricingDatum>, position: int) -> bool {
    &&& 0 <= position < records.len()
    &&& !records[position].period_view().well_formed()
    &&& forall|j: int| 0 <= j < position ==> (#[trigger] records[j]).period_view().well_formed()
}

/// Why price records were refused.
#[derive(Clone, Copy, Debug, PartialEq, Eq)]
pub enum PricingError {
    /// The record at `position`, in the order given, has a window that
    /// closes before it opens.
    Period { position: usize },
    /// Taken oldest first, the periods are not in order.
    Order(IndexError),
}

/// `error` is why `records` are refused: the first malformed record, or, when
/// every record is well formed, the first conflict between neighbours once
/// the periods are put oldest first.
pub open spec fn pricing_fails_with(records: Seq<PricingDatum>, error: PricingError) -> bool {
    match error {
        PricingError::Period { position } => first_malformed_period(records, position as int),
        PricingError::Order(conflict) => {
            &&& periods_well_formed(records)
            &&& is_first_conflict(periods_oldest_first(records), conflict)
        },
    }
}

/// Put oldest first, the records make a well-formed index.
pub open spec fn pricing_in_order(records: Seq<PricingDatum>) -> bool {
    index_well_formed(periods_oldest_first(records))
}

/// The readings that `records`, newest first, stand for, put oldest first;
/// or the position of the first record that spans no time.
pub fn readings_from(records: &[ConsumptionDatum]) -> (r: Result<Vec<ConsumptionReading>, usize>)
    ensures
        match r {
            Ok(readings) => {
                &&& readings_well_formed(records@)
                &&& reading_views(readings@) == readings_oldest_first(records@)
            },
            Err(position) => first_malformed_reading(records@, position as int),
        },
{
    let n: usize = records.len();
    let mut newest_first: Vec<ConsumptionReading> = Vec::new();
    let mut i: usize = 0;
    while i < n
        invariant
            n == records@.len(),
            i <= n,
            newest_first@.len() == i,
            forall|k: int|
                0 <= k < i ==> {
                    &&& (#[trigger] records@[k]).reading_view().well_formed()
                    &&& newest_first@[k]@ == records@[k].reading_view()
                },
        decreases n - i,
    {
        match records[i].reading() {
            Ok(reading) => {
                newest_first.push(reading);
            },
            Err(_) => {
                return Err(i);
            },
        }
        i = i + 1;
    }
    let readings: Vec<ConsumptionReading> = reversed(newest_first.as_slice());
    assert(reading_views(readings@) =~= readings_oldest_first(records@));
    Ok(readings)
}

/// The index over the rate periods that `records`, newest first, stand for;
/// or why they make none.
pub fn index_from(records: &[PricingDatum]) -> (r: Result<RatePeriodIndex, PricingError>)
    ensures
        match r {
            Ok(index) => index@ == periods_oldest_first(records@) && index_well_formed(index@),
            Err(error) => pricing_fails_with(records@, error),
        },
{
    let n: usize = records.len();
    let mut newest_first: Vec<RatePeriod> = Vec::new();
    let mut i: usize = 0;
    while i < n
        invariant
            n == records@.len(),
            i <= n,
            newest_first@.len() == i,
            forall|k: int|
                0 <= k < i ==> {
                    &&& (#[trigger] records@[k]).period_view().well_formed()
                    &&& newest_first@[k]@ == records@[k].period_view()
                },
        decreases n - i,
    {
        match records[i].rate_period() {
            Ok(period) => {
                newest_first.push(period);
            },
            Err(_) => {
                return Err(PricingError::Period { position: i });
            },
        }
        i = i + 1;
    }
    let periods: Vec<RatePeriod> = reversed(newest_first.as_slice());
    assert(period_views(periods@) =~= periods_oldest_first(records@));
    match RatePeriodIndex::new(periods) {
        Ok(index) => Ok(index),
        Err(conflict) => Err(PricingError::Order(conflict)),
    }
}

/// Why consumption could not be billed.
#[derive(Clone, Copy, Debug, PartialEq, Eq)]
pub enum BillError {
    /// The unit rates make no index.
    UnitRates(PricingError),
    /// The standing charges make no index.
    StandingCharges(PricingError),
    /// The consumption record at `position`, in the order given, spans no
    /// time.
    Consumption { position: usize },
}

/// What the consumption in `consumption` cost at the prices in `pricing`.
///
/// Both arrive newest first and are put oldest first. The unit rates are
/// examined first, then the standing charges, then the consumption; the
/// first of them that is malformed is reported, and nothing is billed.
pub fn bill(consumption: &ConsumptionResponse, pricing: &TariffPricing) -> (r: Result<
    BillingSummary,
    BillError,
>)
    ensures
        match r {
            Ok(summary) => {
                &&& pricing_in_order(pricing.unit_charges@)
                &&& pricing_in_order(pricing.standing_charges@)
                &&& readings_well_formed(consumption.results@)
                &&& summary@ == summary_of(
                    readings_oldest_first(consumption.results@),
                    periods_oldest_first(pricing.unit_charges@),
                    periods_oldest_first(pricing.standing_charges@),
                )
            },
            Err(BillError::UnitRates(error)) => pricing_fails_with(pricing.unit_charges@, error),
            Err(BillError::StandingCharges(error)) => {
                &&& pricing_in_order(pricing.unit_charges@)
                &&& pricing_fails_with(pricing.standing_charges@, error)
            },
            Err(BillError::Consumption { position }) => {
                &&& pricing_in_order(pricing.unit_charges@)
                &&& pricing_in_order(pricing.standing_charges@)
                &&& first_malformed_reading(consumption.results@, position as int)
            },
        },
{
    let unit_index: RatePeriodIndex = match index_from(pricing.unit_charges.as_slice()) {
        Ok(index) => index,
        Err(error) => {
            return Err(BillError::UnitRates(error));
        },
    };
    let standing_index: RatePeriodIndex = match index_from(pricing.standing_charges.as_slice()) {
        Ok(index) => index,
        Err(error) => {
            return Err(BillError::StandingCharges(error));
        },
    };
    let readings: Vec<ConsumptionReading> = match readings_from(consumption.results.as_slice()) {
        Ok(readings) => readings,
        Err(position) => {
            return Err(BillError::Consumption { position });
        },
    };
    Ok(aggregate(readings.as_slice(), &unit_index, &standing_index))
}

} // verus!
