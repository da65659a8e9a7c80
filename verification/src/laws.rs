//! What holds of every index, every run of readings and every summary.

use crate::billing::{
    days_walked, earliest_matched, had_unmatched, is_matched, latest_reading_end,
    lemma_push_reading, reading_cost, standing_over, summary_of, unit_cost, unmatched_positions,
    BillingSummary, SummaryView,
};
use crate::rate::{
    index_well_formed, lemma_last_covering, lemma_lookup_unique, lookup, lookup_interval,
    PeriodView,
};
use crate::reading::ReadingView;
use crate::time::{instant_view, lemma_same_view_same_instant, Timestamp, SECONDS_PER_DAY};
use vstd::prelude::*;

verus! {

/// The periods of a well-formed index are in ascending order of the instant
/// at which they open, and of the instant at which they close.
pub proof fn law_index_is_ascending(periods: Seq<PeriodView>, i: int, j: int)
    requires
        index_well_formed(periods),
        0 <= i <= j < periods.len(),
    ensures
        periods[i].valid_from <= periods[j].valid_from,
        periods[j].valid_to matches Some(later) ==> (periods[i].valid_to matches Some(earlier)
            && earlier <= later),
{
    if i < j {
        assert(periods[i].well_formed());
        assert(periods[j].well_formed());
        assert(periods[i].valid_to matches Some(end) && end <= periods[j].valid_from);
    }
}

/// The search by instant finds a period only if it is in force at that
/// instant, and then no period after it is; it finds none only if no period
/// is in force. No neighbouring period stands in for a missing one.
pub proof fn law_found_period_is_in_force(periods: Seq<PeriodView>, instant: int)
    ensures
        match lookup(periods, instant) {
            Some(i) => {
                &&& 0 <= i < periods.len()
                &&& periods[i].covers(instant)
                &&& forall|j: int| i < j < periods.len() ==> !(#[trigger] periods[j]).covers(instant)
            },
            None => forall|j: int|
                0 <= j < periods.len() ==> !(#[trigger] periods[j]).covers(instant),
        },
{
    lemma_last_covering(periods, instant, periods.len());
}

/// In a well-formed index, a period in force over the whole of a non-empty
/// interval is the one that the search by interval finds: no other period
/// can stand in for it, and it is never missed.
pub proof fn law_covering_period_is_found(
    periods: Seq<PeriodView>,
    i: int,
    start: int,
    end: int,
)
    requires
        index_well_formed(periods),
        0 <= i < periods.len(),
        start < end,
        periods[i].covers_interval(start, end),
    ensures
        lookup_interval(periods, start, end) == Some(i),
{
    assert forall|j: int| i < j < periods.len() implies !(#[trigger] periods[j]).covers(start) by {
        assert(periods[i].valid_to matches Some(limit) && limit <= periods[j].valid_from);
    }
    lemma_lookup_unique(periods, start, i);
}

/// The search by interval finds a period only if that period is in force
/// over the whole interval, and then no period after it is.
pub proof fn law_found_period_covers(periods: Seq<PeriodView>, start: int, end: int)
    ensures
        match lookup_interval(periods, start, end) {
            Some(i) => {
                &&& 0 <= i < periods.len()
                &&& periods[i].covers_interval(start, end)
                &&& forall|j: int|
                    i < j < periods.len() ==> !(#[trigger] periods[j]).covers_interval(start, end)
            },
            None => index_well_formed(periods) ==> forall|j: int|
                0 <= j < periods.len() ==> !(#[trigger] periods[j]).covers_interval(start, end),
        },
{
    lemma_last_covering(periods, start, periods.len());
    if lookup_interval(periods, start, end) is None && index_well_formed(periods) {
        assert forall|j: int| 0 <= j < periods.len() implies !(
        #[trigger] periods[j]).covers_interval(start, end) by {
            if periods[j].covers_interval(start, end) {
                let i = lookup(periods, start)->Some_0;
                assert(j < i);
                assert(periods[j].valid_to matches Some(limit) && limit <= periods[i].valid_from);
                assert(periods[i].well_formed());
            }
        }
    }
}

/// Exact coverage: a single reading that lies within one unit-rate period
/// costs that period's price times the reading's quantity, is the earliest
/// match, and leaves the flag for unmatched readings down.
pub proof fn law_exact_coverage(
    reading: ReadingView,
    unit: Seq<PeriodView>,
    standing: Seq<PeriodView>,
    i: int,
)
    requires
        index_well_formed(unit),
        reading.well_formed(),
        0 <= i < unit.len(),
        unit[i].covers_interval(reading.interval_start, reading.interval_end),
    ensures
        summary_of(seq![reading], unit, standing).total_unit_cost == unit[i].value
            * reading.quantity,
        summary_of(seq![reading], unit, standing).earliest_matched == Some(reading.interval_start),
        summary_of(seq![reading], unit, standing).latest_reading_end == Some(reading.interval_end),
        !summary_of(seq![reading], unit, standing).had_unmatched_readings,
{
    law_covering_period_is_found(unit, i, reading.interval_start, reading.interval_end);
    let none = Seq::<ReadingView>::empty();
    assert(seq![reading] == none.push(reading));
    lemma_push_reading(none, reading, unit);
}

/// Each reading is counted once: a reading that lies within one unit-rate
/// period, added after any run of readings, adds that period's price times
/// its quantity to the unit cost, and nothing else.
pub proof fn law_covered_reading_adds_its_cost(
    readings: Seq<ReadingView>,
    reading: ReadingView,
    unit: Seq<PeriodView>,
    i: int,
)
    requires
        index_well_formed(unit),
        reading.well_formed(),
        0 <= i < unit.len(),
        unit[i].covers_interval(reading.interval_start, reading.interval_end),
    ensures
        unit_cost(readings.push(reading), unit) == unit_cost(readings, unit) + unit[i].value
            * reading.quantity,
{
    law_covering_period_is_found(unit, i, reading.interval_start, reading.interval_end);
    lemma_push_reading(readings, reading, unit);
}

/// An interval that runs across the instant at which some period closes is
/// matched by no period.
pub proof fn law_interval_across_a_close(
    periods: Seq<PeriodView>,
    k: int,
    start: int,
    end: int,
)
    requires
        index_well_formed(periods),
        0 <= k < periods.len(),
        periods[k].valid_to matches Some(close) && start < close < end,
    ensures
        lookup_interval(periods, start, end) is None,
{
    law_found_period_covers(periods, start, end);
    if let Some(i) = lookup_interval(periods, start, end) {
        if i < k {
            assert(periods[i].valid_to matches Some(limit) && limit <= periods[k].valid_from);
            assert(periods[k].well_formed());
        } else if k < i {
            assert(periods[k].valid_to matches Some(limit) && limit <= periods[i].valid_from);
        }
    }
}

/// Boundary rejection: where one period closes at the instant the next
/// opens, a reading that starts in the first and ends in the second is
/// matched by neither.
pub proof fn law_boundary_rejection(periods: Seq<PeriodView>, i: int, start: int, end: int)
    requires
        index_well_formed(periods),
        0 <= i,
        i + 1 < periods.len(),
        periods[i].valid_to == Some(periods[i + 1].valid_from),
        periods[i].covers(start),
        periods[i + 1].covers(end),
        start < periods[i + 1].valid_from < end,
    ensures
        lookup_interval(periods, start, end) is None,
{
    law_interval_across_a_close(periods, i, start, end);
}

/// Gap detection: a reading that lies wholly in the gap between one period
/// and the next is matched by no period.
pub proof fn law_gap_detection(periods: Seq<PeriodView>, i: int, start: int, end: int)
    requires
        index_well_formed(periods),
        0 <= i,
        i + 1 < periods.len(),
        periods[i].valid_to matches Some(close) && close < start,
        start <= end,
        end < periods[i + 1].valid_from,
    ensures
        lookup_interval(periods, start, end) is None,
{
    law_found_period_covers(periods, start, end);
    if let Some(j) = lookup_interval(periods, start, end) {
        if j <= i {
            if j < i {
                assert(periods[j].valid_to matches Some(limit) && limit <= periods[i].valid_from);
                assert(periods[i].well_formed());
            }
        } else if i + 1 < j {
            assert(periods[i + 1].valid_to matches Some(limit) && limit <= periods[j].valid_from);
            assert(periods[i + 1].well_formed());
        }
    }
}

/// An unmatched reading raises the flag and adds nothing: the unit cost is
/// what it would be without that reading.
pub proof fn law_unmatched_reading_is_excluded(
    readings: Seq<ReadingView>,
    j: int,
    unit: Seq<PeriodView>,
)
    requires
        0 <= j < readings.len(),
        !is_matched(readings[j], unit),
    ensures
        had_unmatched(readings, unit),
        reading_cost(readings[j], unit) == 0,
        unit_cost(readings, unit) == unit_cost(readings.remove(j), unit),
    decreases readings.len(),
{
    if j == readings.len() - 1 {
        assert(readings.remove(j) == readings.drop_last());
    } else {
        let shorter = readings.drop_last();
        assert(shorter[j] == readings[j]);
        law_unmatched_reading_is_excluded(shorter, j, unit);
        assert(readings.remove(j).drop_last() == shorter.remove(j));
        assert(readings.remove(j).last() == readings.last());
    }
}

/// A reading that starts in one period and ends in the next, where the first
/// closes as the second opens, is priced against neither: it costs nothing,
/// raises the flag, and leaves the unit cost what it is without it.
pub proof fn law_boundary_reading_is_unpriced(
    readings: Seq<ReadingView>,
    j: int,
    unit: Seq<PeriodView>,
    i: int,
)
    requires
        index_well_formed(unit),
        0 <= j < readings.len(),
        0 <= i,
        i + 1 < unit.len(),
        unit[i].valid_to == Some(unit[i + 1].valid_from),
        unit[i].covers(readings[j].interval_start),
        unit[i + 1].covers(readings[j].interval_end),
        readings[j].interval_start < unit[i + 1].valid_from < readings[j].interval_end,
    ensures
        reading_cost(readings[j], unit) == 0,
        had_unmatched(readings, unit),
        unit_cost(readings, unit) == unit_cost(readings.remove(j), unit),
{
    law_boundary_rejection(unit, i, readings[j].interval_start, readings[j].interval_end);
    law_unmatched_reading_is_excluded(readings, j, unit);
}

/// A reading that lies wholly in the gap between one period and the next
/// raises the flag, and the unit cost is what it is without that reading.
pub proof fn law_gap_reading_is_flagged_and_excluded(
    readings: Seq<ReadingView>,
    j: int,
    unit: Seq<PeriodView>,
    standing: Seq<PeriodView>,
    i: int,
)
    requires
        index_well_formed(unit),
        0 <= j < readings.len(),
        0 <= i,
        i + 1 < unit.len(),
        unit[i].valid_to matches Some(close) && close < readings[j].interval_start,
        readings[j].interval_start <= readings[j].interval_end,
        readings[j].interval_end < unit[i + 1].valid_from,
    ensures
        summary_of(readings, unit, standing).had_unmatched_readings,
        summary_of(readings, unit, standing).total_unit_cost == summary_of(
            readings.remove(j),
            unit,
            standing,
        ).total_unit_cost,
{
    law_gap_detection(unit, i, readings[j].interval_start, readings[j].interval_end);
    law_unmatched_reading_is_excluded(readings, j, unit);
}

/// The unmatched positions are exactly the positions of the readings that no
/// unit rate matches, each listed once and in ascending order; there are some
/// exactly when the flag for unmatched readings is up.
pub proof fn law_unmatched_positions(readings: Seq<ReadingView>, unit: Seq<PeriodView>)
    requires
        readings.len() <= usize::MAX,
    ensures
        forall|k: int|
            0 <= k < unmatched_positions(readings, unit).len() ==> {
                &&& (#[trigger] unmatched_positions(readings, unit)[k]) < readings.len()
                &&& !is_matched(readings[unmatched_positions(readings, unit)[k] as int], unit)
            },
        forall|k: int, l: int|
            0 <= k < l < unmatched_positions(readings, unit).len() ==> (
            #[trigger] unmatched_positions(readings, unit)[k]) < (#[trigger] unmatched_positions(
                readings,
                unit,
            )[l]),
        forall|j: int|
            0 <= j < readings.len() && !is_matched(#[trigger] readings[j], unit)
                ==> unmatched_positions(readings, unit).contains(j as usize),
        had_unmatched(readings, unit) == (unmatched_positions(readings, unit).len() > 0),
    decreases readings.len(),
{
    let positions = unmatched_positions(readings, unit);
    if readings.len() > 0 {
        let shorter = readings.drop_last();
        let fewer = unmatched_positions(shorter, unit);
        let last = (readings.len() - 1) as usize;
        law_unmatched_positions(shorter, unit);
        assert forall|j: int|
            0 <= j < readings.len() && !is_matched(
                #[trigger] readings[j],
                unit,
            ) implies positions.contains(j as usize) by {
            if j < shorter.len() {
                assert(shorter[j] == readings[j]);
                let k = choose|k: int| 0 <= k < fewer.len() && fewer[k] == j as usize;
                assert(positions[k] == j as usize);
            } else {
                assert(positions[fewer.len() as int] == last);
            }
        }
        assert forall|k: int| 0 <= k < positions.len() implies {
            &&& (#[trigger] positions[k]) < readings.len()
            &&& !is_matched(readings[positions[k] as int], unit)
        } by {
            if k < fewer.len() {
                assert(positions[k] == fewer[k]);
                assert(shorter[fewer[k] as int] == readings[fewer[k] as int]);
            }
        }
        if had_unmatched(readings, unit) {
            let j = choose|j: int| 0 <= j < readings.len() && !is_matched(
                #[trigger] readings[j],
                unit,
            );
            assert(positions.contains(j as usize));
        }
        if positions.len() > 0 {
            assert(!is_matched(readings[positions[0] as int], unit));
        }
    }
}

/// The unit cost of two runs of readings, one after the other, is the sum of
/// their unit costs: the cost can be added up in parts.
pub proof fn law_unit_cost_of_parts(
    first: Seq<ReadingView>,
    second: Seq<ReadingView>,
    unit: Seq<PeriodView>,
)
    ensures
        unit_cost(first + second, unit) == unit_cost(first, unit) + unit_cost(second, unit),
    decreases second.len(),
{
    if second.len() == 0 {
        assert(first + second == first);
    } else {
        law_unit_cost_of_parts(first, second.drop_last(), unit);
        assert((first + second).drop_last() == first + second.drop_last());
        assert((first + second).last() == second.last());
    }
}

/// The earliest match of two runs of readings, one after the other, is that
/// of the first run if it has one, and else that of the second.
pub proof fn law_earliest_matched_of_parts(
    first: Seq<ReadingView>,
    second: Seq<ReadingView>,
    unit: Seq<PeriodView>,
)
    ensures
        earliest_matched(first + second, unit) == match earliest_matched(first, unit) {
            Some(start) => Some(start),
            None => earliest_matched(second, unit),
        },
    decreases second.len(),
{
    if second.len() == 0 {
        assert(first + second == first);
    } else {
        law_earliest_matched_of_parts(first, second.drop_last(), unit);
        assert((first + second).drop_last() == first + second.drop_last());
        assert((first + second).last() == second.last());
    }
}

/// Among readings in ascending order of their start, the earliest match is
/// the least start of any matched reading.
pub proof fn law_earliest_matched_is_least(
    readings: Seq<ReadingView>,
    unit: Seq<PeriodView>,
    j: int,
)
    requires
        forall|a: int, b: int|
            0 <= a <= b < readings.len() ==> (#[trigger] readings[a]).interval_start <= (
            #[trigger] readings[b]).interval_start,
        0 <= j < readings.len(),
        is_matched(readings[j], unit),
    ensures
        earliest_matched(readings, unit) matches Some(start) && start <= readings[j].interval_start,
        exists|k: int|
            0 <= k <= j && is_matched(#[trigger] readings[k], unit) && earliest_matched(
                readings,
                unit,
            ) == Some(readings[k].interval_start),
    decreases readings.len(),
{
    let shorter = readings.drop_last();
    if j < shorter.len() {
        assert(shorter[j] == readings[j]);
        assert forall|a: int, b: int| 0 <= a <= b < shorter.len() implies (
        #[trigger] shorter[a]).interval_start <= (#[trigger] shorter[b]).interval_start by {
            assert(shorter[a] == readings[a]);
            assert(shorter[b] == readings[b]);
        }
        law_earliest_matched_is_least(shorter, unit, j);
        let k = choose|k: int|
            0 <= k <= j && is_matched(#[trigger] shorter[k], unit) && earliest_matched(
                shorter,
                unit,
            ) == Some(shorter[k].interval_start);
        assert(readings[k] == shorter[k]);
    } else {
        match earliest_matched(shorter, unit) {
            Some(start) => {
                lemma_earliest_matched_witness(shorter, unit);
                let k = choose|k: int|
                    0 <= k < shorter.len() && is_matched(#[trigger] shorter[k], unit)
                        && earliest_matched(shorter, unit) == Some(shorter[k].interval_start);
                assert(readings[k] == shorter[k]);
            },
            None => {
                assert(is_matched(readings[j], unit));
            },
        }
    }
}

proof fn lemma_earliest_matched_witness(readings: Seq<ReadingView>, unit: Seq<PeriodView>)
    requires
        earliest_matched(readings, unit) is Some,
    ensures
        exists|k: int|
            0 <= k < readings.len() && is_matched(#[trigger] readings[k], unit)
                && earliest_matched(readings, unit) == Some(readings[k].interval_start),
    decreases readings.len(),
{
    let shorter = readings.drop_last();
    if readings.len() > 0 {
        if earliest_matched(shorter, unit) is Some {
            lemma_earliest_matched_witness(shorter, unit);
            let k = choose|k: int|
                0 <= k < shorter.len() && is_matched(#[trigger] shorter[k], unit)
                    && earliest_matched(shorter, unit) == Some(shorter[k].interval_start);
            assert(readings[k] == shorter[k]);
        } else {
            assert(is_matched(readings[readings.len() - 1], unit));
        }
    }
}

/// The period found at two instants is the period found at every instant
/// between them.
pub proof fn law_same_period_between(
    periods: Seq<PeriodView>,
    i: int,
    from: int,
    at: int,
    to: int,
)
    requires
        index_well_formed(periods),
        from <= at <= to,
        lookup(periods, from) == Some(i),
        lookup(periods, to) == Some(i),
    ensures
        lookup(periods, at) == Some(i),
{
    lemma_last_covering(periods, from, periods.len());
    lemma_last_covering(periods, to, periods.len());
    assert forall|j: int| i < j < periods.len() implies !(#[trigger] periods[j]).covers(at) by {
        assert(periods[i].valid_to matches Some(limit) && limit <= periods[j].valid_from);
        assert(periods[j].well_formed());
        assert(!periods[j].covers(to));
    }
    lemma_lookup_unique(periods, at, i);
}

/// Standing-charge accrual: when one period is the standing charge in force
/// on the first and on the last of `days` consecutive calendar days, the
/// standing charges of those days come to `days` times its price.
pub proof fn law_standing_accrual(standing: Seq<PeriodView>, i: int, first: int, days: nat)
    requires
        index_well_formed(standing),
        days > 0,
        lookup(standing, first) == Some(i),
        lookup(standing, first + (days - 1) * SECONDS_PER_DAY) == Some(i),
    ensures
        standing_over(standing, first, days) == days * standing[i].value,
    decreases days,
{
    let last = first + (days - 1) * SECONDS_PER_DAY;
    if days == 1 {
        assert(standing_over(standing, first, 0) == 0);
    } else {
        let before = first + (days - 2) * SECONDS_PER_DAY;
        law_same_period_between(standing, i, first, before, last);
        law_standing_accrual(standing, i, first, (days - 1) as nat);
        assert(days * standing[i].value == (days - 1) * standing[i].value + standing[i].value)
            by (nonlinear_arith);
    }
}

/// The standing cost of a summary is that of the calendar days from its
/// earliest match to its latest reading end: `days` times the price of the
/// one standing charge in force on the first and on the last of them,
/// however many readings fall on each day.
pub proof fn law_standing_cost_of_span(
    readings: Seq<ReadingView>,
    unit: Seq<PeriodView>,
    standing: Seq<PeriodView>,
    i: int,
    earliest: int,
    latest: int,
)
    requires
        index_well_formed(standing),
        earliest_matched(readings, unit) == Some(earliest),
        latest_reading_end(readings) == Some(latest),
        days_walked(earliest, latest) > 0,
        lookup(standing, earliest) == Some(i),
        lookup(standing, earliest + (days_walked(earliest, latest) - 1) * SECONDS_PER_DAY) == Some(
            i,
        ),
    ensures
        summary_of(readings, unit, standing).total_standing_cost == days_walked(earliest, latest)
            * standing[i].value,
{
    law_standing_accrual(standing, i, earliest, days_walked(earliest, latest));
}

/// Two runs of readings whose first match starts at the same instant and
/// whose last reading ends at the same instant incur the same standing
/// charges, whatever lies between.
pub proof fn law_standing_cost_ignores_reading_count(
    sparse: Seq<ReadingView>,
    dense: Seq<ReadingView>,
    unit: Seq<PeriodView>,
    standing: Seq<PeriodView>,
)
    requires
        earliest_matched(sparse, unit) == earliest_matched(dense, unit),
        latest_reading_end(sparse) == latest_reading_end(dense),
    ensures
        summary_of(sparse, unit, standing).total_standing_cost == summary_of(
            dense,
            unit,
            standing,
        ).total_standing_cost,
{
}

/// Without a matched reading there is no standing charge and no unit cost.
pub proof fn law_nothing_matched(
    readings: Seq<ReadingView>,
    unit: Seq<PeriodView>,
    standing: Seq<PeriodView>,
)
    requires
        forall|j: int| 0 <= j < readings.len() ==> !is_matched(#[trigger] readings[j], unit),
    ensures
        summary_of(readings, unit, standing).total_unit_cost == 0,
        summary_of(readings, unit, standing).total_standing_cost == 0,
        summary_of(readings, unit, standing).earliest_matched is None,
        summary_of(readings, unit, standing).had_unmatched_readings == (readings.len() > 0),
    decreases readings.len(),
{
    if readings.len() > 0 {
        let shorter = readings.drop_last();
        assert forall|j: int| 0 <= j < shorter.len() implies !is_matched(
            #[trigger] shorter[j],
            unit,
        ) by {
            assert(shorter[j] == readings[j]);
        }
        law_nothing_matched(shorter, unit, standing);
        assert(!is_matched(readings[readings.len() - 1], unit));
    }
}

/// Empty input: no readings cost nothing, give no timestamps and leave the
/// flag down.
pub proof fn law_empty_input(unit: Seq<PeriodView>, standing: Seq<PeriodView>)
    ensures
        summary_of(Seq::<ReadingView>::empty(), unit, standing) == (SummaryView {
            total_unit_cost: 0,
            total_standing_cost: 0,
            earliest_matched: None,
            latest_reading_end: None,
            had_unmatched_readings: false,
        }),
{
}

/// Idempotence: two summaries computed from the same readings and indexes
/// are equal field for field.
pub proof fn law_same_inputs_same_summary(
    first: BillingSummary,
    second: BillingSummary,
    readings: Seq<ReadingView>,
    unit: Seq<PeriodView>,
    standing: Seq<PeriodView>,
)
    requires
        first@ == summary_of(readings, unit, standing),
        second@ == summary_of(readings, unit, standing),
    ensures
        first == second,
{
    lemma_instants_equal(first.earliest_matched, second.earliest_matched);
    lemma_instants_equal(first.latest_reading_end, second.latest_reading_end);
}

proof fn lemma_instants_equal(a: Option<Timestamp>, b: Option<Timestamp>)
    requires
        instant_view(a) == instant_view(b),
    ensures
        a == b,
{
    if let (Some(x), Some(y)) = (a, b) {
        lemma_same_view_same_instant(x, y);
    }
}

} // verus!
