use octocompare::billing::aggregate;
use octocompare::rate::{IndexError, PeriodError, RatePeriodIndex};
use octocompare::reading::ReadingError;
use octocompare::records::{
    bill, index_from, readings_from, BillError, ConsumptionDatum, ConsumptionResponse,
    PricingDatum, PricingError, TariffPricing,
};
use octocompare::time::Timestamp;

const HALF_HOUR: i64 = 1_800;
const DAY: i64 = 86_400;
/// Midnight that begins 1 January 2024.
const NEW_YEAR: i64 = 1_704_067_200;

fn ts(secs: i64) -> Timestamp {
    Timestamp::from_secs(secs).unwrap()
}

fn consumption(quantity: u32, start: i64, end: i64) -> ConsumptionDatum {
    ConsumptionDatum { consumption: quantity, interval_start: ts(start), interval_end: ts(end) }
}

fn price(exc: i32, inc: i32, from: i64, to: Option<i64>) -> PricingDatum {
    PricingDatum {
        value_exc_vat: exc,
        value_inc_vat: inc,
        valid_from: ts(from),
        valid_to: to.map(ts),
    }
}

fn response(results: Vec<ConsumptionDatum>) -> ConsumptionResponse {
    let count = results.len() as i64;
    ConsumptionResponse { results, count }
}

fn tariff(unit: Vec<PricingDatum>, standing: Vec<PricingDatum>) -> TariffPricing {
    TariffPricing {
        tariff_code: "E-1R-VAR-22-11-01-C".to_string(),
        product_code: "VAR-22-11-01".to_string(),
        standing_charges: standing,
        unit_charges: unit,
    }
}

/// Four half hours from midnight of new year's day, newest first.
fn four_half_hours() -> Vec<ConsumptionDatum> {
    (0..4_i64)
        .rev()
        .map(|k| consumption(100 + k as u32, NEW_YEAR + k * HALF_HOUR, NEW_YEAR + (k + 1) * HALF_HOUR))
        .collect()
}

/// A rate for December and a rate from new year on, newest first.
fn two_rates(december: i32, january: i32) -> Vec<PricingDatum> {
    vec![
        price(january - 1, january, NEW_YEAR, None),
        price(december - 1, december, NEW_YEAR - 31 * DAY, Some(NEW_YEAR)),
    ]
}

#[test]
fn record_stands_for_a_reading() {
    let reading = consumption(250, NEW_YEAR, NEW_YEAR + HALF_HOUR).reading().unwrap();
    assert_eq!(reading.quantity(), 250);
    assert_eq!(reading.interval_start(), ts(NEW_YEAR));
    assert_eq!(reading.interval_end(), ts(NEW_YEAR + HALF_HOUR));
}

#[test]
fn record_over_no_time_stands_for_no_reading() {
    assert_eq!(consumption(1, NEW_YEAR, NEW_YEAR).reading(), Err(ReadingError::EmptyInterval));
    assert_eq!(consumption(1, NEW_YEAR, NEW_YEAR - 1).reading(), Err(ReadingError::EmptyInterval));
}

#[test]
fn record_stands_for_a_period_at_the_price_with_vat() {
    let period = price(2_000, 2_100, NEW_YEAR, Some(NEW_YEAR + DAY)).rate_period().unwrap();
    assert_eq!(period.value(), 2_100);
    assert_eq!(period.valid_from(), ts(NEW_YEAR));
    assert_eq!(period.valid_to(), Some(ts(NEW_YEAR + DAY)));
}

#[test]
fn record_with_an_inverted_window_stands_for_no_period() {
    assert_eq!(
        price(1, 2, NEW_YEAR, Some(NEW_YEAR - 1)).rate_period(),
        Err(PeriodError::ClosesBeforeOpening)
    );
}

#[test]
fn readings_are_put_oldest_first() {
    let readings = readings_from(&four_half_hours()).unwrap();
    let quantities: Vec<u32> = readings.iter().map(|r| r.quantity()).collect();
    assert_eq!(quantities, vec![100, 101, 102, 103]);
    assert_eq!(readings[0].interval_start(), ts(NEW_YEAR));
    assert_eq!(readings_from(&[]), Ok(vec![]));
}

#[test]
fn readings_report_the_first_record_over_no_time() {
    let mut records = four_half_hours();
    records[1] = consumption(1, NEW_YEAR, NEW_YEAR);
    records[3] = consumption(1, NEW_YEAR, NEW_YEAR - 5);
    assert_eq!(readings_from(&records), Err(1));
}

#[test]
fn index_is_made_of_periods_oldest_first() {
    let index = index_from(&two_rates(10, 20)).unwrap();
    assert_eq!(index.len(), 2);
    assert_eq!(index.get(0).map(|p| p.value()), Some(10));
    assert_eq!(index.get(1).map(|p| p.value()), Some(20));
    assert_eq!(index.find(ts(NEW_YEAR - 1)).map(|p| p.value()), Some(10));
    assert_eq!(index.find(ts(NEW_YEAR)).map(|p| p.value()), Some(20));
    assert_eq!(index_from(&[]).map(|i| i.len()), Ok(0));
}

#[test]
fn index_reports_the_first_malformed_record() {
    let records = vec![
        price(1, 1, NEW_YEAR, None),
        price(1, 1, NEW_YEAR - DAY, Some(NEW_YEAR - 2 * DAY)),
        price(1, 1, NEW_YEAR - 3 * DAY, Some(NEW_YEAR - 4 * DAY)),
    ];
    assert_eq!(index_from(&records), Err(PricingError::Period { position: 1 }));
}

#[test]
fn index_reports_records_that_are_oldest_first_already() {
    let mut records = two_rates(10, 20);
    records.reverse();
    assert_eq!(
        index_from(&records),
        Err(PricingError::Order(IndexError::OpenEnded { position: 0 }))
    );
}

#[test]
fn index_reports_overlapping_records() {
    let records = vec![
        price(3, 3, NEW_YEAR + DAY, None),
        price(2, 2, NEW_YEAR - DAY, Some(NEW_YEAR + DAY)),
        price(1, 1, NEW_YEAR - 3 * DAY, Some(NEW_YEAR)),
    ];
    assert_eq!(index_from(&records), Err(PricingError::Order(IndexError::Overlap { position: 0 })));
}

#[test]
fn bill_prices_consumption_that_arrives_newest_first() {
    let summary = bill(&response(four_half_hours()), &tariff(two_rates(10, 20), two_rates(7, 9)));
    let summary = summary.unwrap();
    assert_eq!(summary.total_unit_cost, 20 * (100 + 101 + 102 + 103));
    assert_eq!(summary.total_standing_cost, 9);
    assert_eq!(summary.earliest_matched, Some(ts(NEW_YEAR)));
    assert_eq!(summary.latest_reading_end, Some(ts(NEW_YEAR + 4 * HALF_HOUR)));
    assert!(!summary.had_unmatched_readings);
}

#[test]
fn bill_agrees_with_aggregate_on_the_same_data_oldest_first() {
    let records = four_half_hours();
    let unit = two_rates(10, 20);
    let standing = two_rates(7, 9);
    let readings = readings_from(&records).unwrap();
    let unit_index = index_from(&unit).unwrap();
    let standing_index = index_from(&standing).unwrap();
    assert_eq!(
        bill(&response(records), &tariff(unit, standing)),
        Ok(aggregate(&readings, &unit_index, &standing_index))
    );
}

#[test]
fn bill_flags_consumption_across_the_change_of_rate() {
    let mut records = four_half_hours();
    records.push(consumption(50, NEW_YEAR - HALF_HOUR / 2, NEW_YEAR + HALF_HOUR / 2));
    let summary = bill(&response(records), &tariff(two_rates(10, 20), vec![])).unwrap();
    assert!(summary.had_unmatched_readings);
    assert_eq!(summary.total_unit_cost, 20 * (100 + 101 + 102 + 103));
}

#[test]
fn bill_of_no_consumption_is_empty() {
    let summary = bill(&response(vec![]), &tariff(two_rates(10, 20), two_rates(7, 9))).unwrap();
    assert_eq!(summary.total_unit_cost, 0);
    assert_eq!(summary.total_standing_cost, 0);
    assert_eq!(summary.earliest_matched, None);
    assert_eq!(summary.latest_reading_end, None);
    assert!(!summary.had_unmatched_readings);
}

#[test]
fn bill_reports_unit_rates_before_anything_else() {
    let mut unit = two_rates(10, 20);
    unit.reverse();
    let mut standing = two_rates(7, 9);
    standing[1] = price(1, 1, NEW_YEAR, Some(NEW_YEAR - 1));
    let mut records = four_half_hours();
    records[0] = consumption(1, NEW_YEAR, NEW_YEAR);
    assert_eq!(
        bill(&response(records), &tariff(unit, standing)),
        Err(BillError::UnitRates(PricingError::Order(IndexError::OpenEnded { position: 0 })))
    );
}

#[test]
fn bill_reports_standing_charges_before_consumption() {
    let mut standing = two_rates(7, 9);
    standing[1] = price(1, 1, NEW_YEAR, Some(NEW_YEAR - 1));
    let mut records = four_half_hours();
    records[0] = consumption(1, NEW_YEAR, NEW_YEAR);
    assert_eq!(
        bill(&response(records), &tariff(two_rates(10, 20), standing)),
        Err(BillError::StandingCharges(PricingError::Period { position: 1 }))
    );
}

#[test]
fn bill_reports_consumption_over_no_time() {
    let mut records = four_half_hours();
    records[2] = consumption(1, NEW_YEAR, NEW_YEAR);
    assert_eq!(
        bill(&response(records), &tariff(two_rates(10, 20), two_rates(7, 9))),
        Err(BillError::Consumption { position: 2 })
    );
}

#[test]
fn index_from_agrees_with_an_index_of_the_periods_reversed() {
    let records = two_rates(10, 20);
    let mut periods: Vec<_> = records.iter().map(|r| r.rate_period().unwrap()).collect();
    periods.reverse();
    assert_eq!(index_from(&records), Ok(RatePeriodIndex::new(periods).unwrap()));
}
