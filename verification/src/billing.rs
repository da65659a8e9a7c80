//! The cost of a run of consumption readings under a tariff: unit rates
//! priced per reading, standing charges priced per calendar day.

use crate::rate::{lemma_last_covering, lookup, lookup_interval, PeriodView, RatePeriodIndex};
use crate::reading::{reading_views, ConsumptionReading, ReadingView};
use crate::time::{day_of, in_calendar, instant_view, Timestamp, SECONDS_PER_DAY};
use vstd::prelude::*;

verus! {

/// Mathematical view of a billing summary.
pub struct SummaryView {
    pub total_unit_cost: int,
    pub total_standing_cost: int,
    pub earliest_matched: Option<int>,
    pub latest_reading_end: Option<int>,
    pub had_unmatched_readings: bool,
}

/// A unit rate is in force over the whole interval of `reading`.
pub open spec fn is_matched(reading: ReadingView, unit: Seq<PeriodView>) -> bool {
    lookup_interval(unit, reading.interval_start, reading.interval_end) is Some
}

/// What one reading costs: its quantity at the unit rate in force over its
/// whole interval, or nothing when no rate is.
pub open spec fn reading_cost(reading: ReadingView, unit: Seq<PeriodView>) -> int {
    match lookup_interval(unit, reading.interval_start, reading.interval_end) {
        Some(i) => unit[i].value * reading.quantity,
        None => 0,
    }
}

/// The sum of what each reading costs.
pub open spec fn unit_cost(readings: Seq<ReadingView>, unit: Seq<PeriodView>) -> int
    decreases readings.len(),
{
    if readings.len() == 0 {
        0
    } else {
        unit_cost(readings.drop_last(), unit) + reading_cost(readings.last(), unit)
    }
}

/// The start of the first reading, in the order given, that a unit rate
/// matches.
pub open spec fn earliest_matched(readings: Seq<ReadingView>, unit: Seq<PeriodView>) -> Option<
    int,
>
    decreases readings.len(),
{
    if readings.len() == 0 {
        None
    } else {
        match earliest_matched(readings.drop_last(), unit) {
            Some(start) => Some(start),
            None => if is_matched(readings.last(), unit) {
                Some(readings.last().interval_start)
            } else {
                None
            },
        }
    }
}

/// The end of the last reading, in the order given.
pub open spec fn latest_reading_end(readings: Seq<ReadingView>) -> Option<int> {
    if readings.len() == 0 {
        None
    } else {
        Some(readings.last().interval_end)
    }
}

/// Some reading has no unit rate in force over its whole interval.
pub open spec fn had_unmatched(readings: Seq<ReadingView>, unit: Seq<PeriodView>) -> bool {
    exists|j: int| 0 <= j < readings.len() && !is_matched(#[trigger] readings[j], unit)
}

/// The positions, in ascending order, of the readings that have no unit rate
/// in force over their whole interval.
pub open spec fn unmatched_positions(readings: Seq<ReadingView>, unit: Seq<PeriodView>) -> Seq<
    usize,
>
    decreases readings.len(),
{
    if readings.len() == 0 {
        Seq::empty()
    } else if is_matched(readings.last(), unit) {
        unmatched_positions(readings.drop_last(), unit)
    } else {
        unmatched_positions(readings.drop_last(), unit).push((readings.len() - 1) as usize)
    }
}

/// How many calendar days lie between the day of `earliest` and the day of
/// `latest`, both included; none when `latest` falls on an earlier day.
pub open spec fn days_walked(earliest: int, latest: int) -> nat {
    if day_of(earliest) <= day_of(latest) {
        (day_of(latest) - day_of(earliest) + 1) as nat
    } else {
        0
    }
}

/// The standing charge in force at `instant`, or nothing when none is.
pub open spec fn standing_charge_at(standing: Seq<PeriodView>, instant: int) -> int {
    match lookup(standing, instant) {
        Some(i) => standing[i].value,
        None => 0,
    }
}

/// The standing charges of `days` consecutive calendar days, each looked up
/// at the time of day of `first`, starting on the day of `first`.
pub open spec fn standing_over(standing: Seq<PeriodView>, first: int, days: nat) -> int
    decreases days,
{
    if days == 0 {
        0
    } else {
        standing_over(standing, first, (days - 1) as nat) + standing_charge_at(
            standing,
            first + (days - 1) * SECONDS_PER_DAY,
        )
    }
}

/// The standing charges of every calendar day from the day of `earliest` to
/// the day of `latest`; nothing when no reading was matched.
pub open spec fn standing_cost(
    earliest: Option<int>,
    latest: Option<int>,
    standing: Seq<PeriodView>,
) -> int {
    match (earliest, latest) {
        (Some(e), Some(l)) => standing_over(standing, e, days_walked(e, l)),
        _ => 0,
    }
}

/// The summary that `readings` yield under the unit rates `unit` and the
/// standing charges `standing`.
pub open spec fn summary_of(
    readings: Seq<ReadingView>,
    unit: Seq<PeriodView>,
    standing: Seq<PeriodView>,
) -> SummaryView {
    SummaryView {
        total_unit_cost: unit_cost(readings, unit),
        total_standing_cost: standing_cost(
            earliest_matched(readings, unit),
            latest_reading_end(readings),
            standing,
        ),
        earliest_matched: earliest_matched(readings, unit),
        latest_reading_end: latest_reading_end(readings),
        had_unmatched_readings: had_unmatched(readings, unit),
    }
}

/// What a run of readings cost, and whether the tariff covered all of them.
///
/// Costs are in the units of the rate periods: `total_standing_cost` in price
/// units, `total_unit_cost` in price units times quantity units.
#[derive(Clone, Copy, Debug, PartialEq, Eq)]
pub struct BillingSummary {
    pub total_unit_cost: i128,
    pub total_standing_cost: i128,
    pub earliest_matched: Option<Timestamp>,
    pub latest_reading_end: Option<Timestamp>,
    pub had_unmatched_readings: bool,
}

impl View for BillingSummary {
    type V = SummaryView;

    open spec fn view(&self) -> SummaryView {
        SummaryView {
            total_unit_cost: self.total_unit_cost as int,
            total_standing_cost: self.total_standing_cost as int,
            earliest_matched: instant_view(self.earliest_matched),
            latest_reading_end: instant_view(self.latest_reading_end),
            had_unmatched_readings: self.had_unmatched_readings,
        }
    }
}

/// The largest magnitude that one reading's cost can have.
spec fn reading_cost_bound() -> int {
    0x8000_0000_0000_0000
}

/// The largest magnitude that one day's standing charge can have.
spec fn charge_bound() -> int {
    0x8000_0000
}

proof fn lemma_product_bound(value: int, quantity: int)
    requires
        -0x8000_0000 <= value < 0x8000_0000,
        0 <= quantity < 0x1_0000_0000,
    ensures
        -reading_cost_bound() <= value * quantity <= reading_cost_bound(),
{
    assert(value * quantity <= 0x8000_0000 * quantity) by (nonlinear_arith)
        requires
            value < 0x8000_0000,
            0 <= quantity,
    ;
    assert(-0x8000_0000 * quantity <= value * quantity) by (nonlinear_arith)
        requires
            -0x8000_0000 <= value,
            0 <= quantity,
    ;
}

/// Appending one reading adds its cost, leaves an earlier first match in
/// place, and raises the flag if it is unmatched.
pub proof fn lemma_push_reading(
    readings: Seq<ReadingView>,
    reading: ReadingView,
    unit: Seq<PeriodView>,
)
    ensures
        unit_cost(readings.push(reading), unit) == unit_cost(readings, unit) + reading_cost(
            reading,
            unit,
        ),
        earliest_matched(readings.push(reading), unit) == match earliest_matched(readings, unit) {
            Some(start) => Some(start),
            None => if is_matched(reading, unit) {
                Some(reading.interval_start)
            } else {
                None
            },
        },
        latest_reading_end(readings.push(reading)) == Some(reading.interval_end),
        had_unmatched(readings.push(reading), unit) == (had_unmatched(readings, unit)
            || !is_matched(reading, unit)),
{
    let longer = readings.push(reading);
    assert(longer.drop_last() == readings);
    assert(longer.last() == reading);
    if had_unmatched(readings, unit) {
        let j = choose|j: int| 0 <= j < readings.len() && !is_matched(#[trigger] readings[j], unit);
        assert(longer[j] == readings[j]);
    }
    if !is_matched(reading, unit) {
        assert(longer[readings.len() as int] == reading);
    }
    if had_unmatched(longer, unit) {
        let j = choose|j: int| 0 <= j < longer.len() && !is_matched(#[trigger] longer[j], unit);
        if j < readings.len() {
            assert(longer[j] == readings[j]);
        }
    }
}

/// The total cost of `readings` under the unit rates of `unit_index` and the
/// standing charges of `standing_index`.
///
/// Each reading is priced at the one unit rate in force over its whole
/// interval; a reading that no single rate covers costs nothing and raises
/// `had_unmatched_readings`. One standing charge is added for every calendar
/// day from the day on which the first matched reading starts to the day on
/// which the last reading ends; a day without a standing charge in force adds
/// nothing and raises no flag.
///
/// The readings are taken in the order given, which is expected to be
/// ascending by `interval_start`: they are not sorted here, and "first" and
/// "last" mean first and last in that order.
pub fn aggregate(
    readings: &[ConsumptionReading],
    unit_index: &RatePeriodIndex,
    standing_index: &RatePeriodIndex,
) -> (summary: BillingSummary)
    ensures
        summary@ == summary_of(reading_views(readings@), unit_index@, standing_index@),
{
    let ghost views = reading_views(readings@);
    let ghost unit = unit_index@;
    let n: usize = readings.len();
    let mut total_unit_cost: i128 = 0;
    let mut earliest: Option<Timestamp> = None;
    let mut latest: Option<Timestamp> = None;
    let mut unmatched: bool = false;
    let mut i: usize = 0;
    while i < n
        invariant
            views == reading_views(readings@),
            unit == unit_index@,
            n == readings.len(),
            i <= n,
            total_unit_cost == unit_cost(views.take(i as int), unit),
            -(i * reading_cost_bound()) <= total_unit_cost <= i * reading_cost_bound(),
            instant_view(earliest) == earliest_matched(views.take(i as int), unit),
            instant_view(latest) == latest_reading_end(views.take(i as int)),
            unmatched == had_unmatched(views.take(i as int), unit),
        decreases n - i,
    {
        let reading: &ConsumptionReading = &readings[i];
        let start: Timestamp = reading.interval_start();
        let end: Timestamp = reading.interval_end();
        proof {
            assert(views[i as int] == reading@);
            assert(views.take(i + 1) == views.take(i as int).push(views[i as int]));
            lemma_push_reading(views.take(i as int), views[i as int], unit);
            lemma_last_covering(unit, start@, unit.len());
        }
        match unit_index.find_interval(start, end) {
            Some(rate) => {
                let value: i32 = rate.value();
                let quantity: u32 = reading.quantity();
                proof {
                    lemma_product_bound(value as int, quantity as int);
                    assert((i + 1) * reading_cost_bound() == i * reading_cost_bound()
                        + reading_cost_bound()) by (nonlinear_arith);
                    assert(i * reading_cost_bound() <= 0xffff_ffff_ffff_ffff * reading_cost_bound())
                        by (nonlinear_arith)
                        requires
                            i <= 0xffff_ffff_ffff_ffff,
                    ;
                }
                total_unit_cost = total_unit_cost + (value as i128) * (quantity as i128);
                if earliest.is_none() {
                    earliest = Some(start);
                }
            },
            None => {
                proof {
                    assert((i + 1) * reading_cost_bound() == i * reading_cost_bound()
                        + reading_cost_bound()) by (nonlinear_arith);
                }
                unmatched = true;
            },
        }
        latest = Some(end);
        i = i + 1;
    }
    assert(views.take(n as int) == views);
    let total_standing_cost: i128 = match (earliest, latest) {
        (Some(first), Some(last)) => standing_total(standing_index, first, last),
        _ => 0,
    };
    BillingSummary {
        total_unit_cost,
        total_standing_cost,
        earliest_matched: earliest,
        latest_reading_end: latest,
        had_unmatched_readings: unmatched,
    }
}

/// The positions of the readings that no single unit rate covers, in
/// ascending order: the readings behind `had_unmatched_readings`.
pub fn unmatched_readings(readings: &[ConsumptionReading], unit_index: &RatePeriodIndex) -> (r:
    Vec<usize>)
    ensures
        r@ == unmatched_positions(reading_views(readings@), unit_index@),
{
    let ghost views = reading_views(readings@);
    let ghost unit = unit_index@;
    let n: usize = readings.len();
    let mut r: Vec<usize> = Vec::new();
    let mut i: usize = 0;
    while i < n
        invariant
            views == reading_views(readings@),
            unit == unit_index@,
            n == readings.len(),
            i <= n,
            r@ == unmatched_positions(views.take(i as int), unit),
        decreases n - i,
    {
        let reading: &ConsumptionReading = &readings[i];
        let start: Timestamp = reading.interval_start();
        let end: Timestamp = reading.interval_end();
        proof {
            assert(views[i as int] == reading@);
            assert(views.take(i + 1).drop_last() == views.take(i as int));
            assert(views.take(i + 1).last() == views[i as int]);
        }
        if unit_index.position_of_interval(start, end).is_none() {
            r.push(i);
        }
        i = i + 1;
    }
    assert(views.take(n as int) == views);
    r
}

/// The standing charges of every calendar day from the day of `first` to the
/// day of `last`, each looked up at the time of day of `first`.
pub fn standing_total(standing_index: &RatePeriodIndex, first: Timestamp, last: Timestamp) -> (total:
    i128)
    ensures
        total == standing_over(standing_index@, first@, days_walked(first@, last@)),
{
    let ghost standing = standing_index@;
    let first_day: i64 = first.day();
    let last_day: i64 = last.day();
    let mut total: i128 = 0;
    if last_day < first_day {
        return total;
    }
    let ghost start = first@;
    let ghost mut walked: nat = 0;
    let mut working: Timestamp = first;
    let mut day: i64 = first_day;
    loop
        invariant_except_break
            day == first_day + walked,
            working@ == start + walked * SECONDS_PER_DAY,
            total == standing_over(standing, start, walked),
        invariant
            standing == standing_index@,
            start == first@,
            first_day == day_of(start),
            last_day == day_of(last@),
            in_calendar(last@),
            in_calendar(start),
            first_day <= day <= last_day,
            walked <= last_day - first_day + 1,
            -(walked * charge_bound()) <= total <= walked * charge_bound(),
        ensures
            total == standing_over(standing, start, days_walked(start, last@)),
        decreases last_day - day,
    {
        proof {
            lemma_last_covering(standing, working@, standing.len());
            assert((walked + 1) * charge_bound() == walked * charge_bound() + charge_bound())
                by (nonlinear_arith);
        }
        match standing_index.find(working) {
            Some(charge) => {
                total = total + (charge.value() as i128);
            },
            None => {},
        }
        proof {
            walked = walked + 1;
        }
        if day == last_day {
            break;
        }
        match working.next_day() {
            Some(next) => {
                working = next;
                day = day + 1;
            },
            None => {
                // Not reached: a day before that of `last` has a next day.
                break;
            },
        }
    }
    total
}

} // verus!
