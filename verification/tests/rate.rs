use octocompare::rate::{IndexError, PeriodError, Placement, RatePeriod, RatePeriodIndex};
use octocompare::time::Timestamp;

fn ts(secs: i64) -> Timestamp {
    Timestamp::from_secs(secs).unwrap()
}

fn period(value: i32, from: i64, to: Option<i64>) -> RatePeriod {
    RatePeriod::new(value, ts(from), to.map(ts)).unwrap()
}

fn index(periods: Vec<RatePeriod>) -> RatePeriodIndex {
    RatePeriodIndex::new(periods).unwrap()
}

/// Three periods that touch at 100, leave a gap from 201 to 299, and end
/// with one that never closes.
fn schedule() -> RatePeriodIndex {
    index(vec![
        period(1, 0, Some(100)),
        period(2, 100, Some(200)),
        period(3, 300, Some(400)),
        period(4, 400, None),
    ])
}

fn value_at(index: &RatePeriodIndex, instant: i64) -> Option<i32> {
    index.find(ts(instant)).map(|p| p.value())
}

fn value_over(index: &RatePeriodIndex, start: i64, end: i64) -> Option<i32> {
    index.find_interval(ts(start), ts(end)).map(|p| p.value())
}

#[test]
fn period_keeps_what_it_was_made_with() {
    let p = period(-17, 5, Some(9));
    assert_eq!(p.value(), -17);
    assert_eq!(p.valid_from(), ts(5));
    assert_eq!(p.valid_to(), Some(ts(9)));
    assert_eq!(period(1, 5, None).valid_to(), None);
}

#[test]
fn period_may_open_and_close_at_one_instant() {
    assert!(RatePeriod::new(1, ts(5), Some(ts(5))).is_ok());
}

#[test]
fn period_that_closes_before_it_opens_is_refused() {
    assert_eq!(RatePeriod::new(1, ts(5), Some(ts(4))), Err(PeriodError::ClosesBeforeOpening));
    assert_eq!(RatePeriod::new(1, ts(0), Some(ts(-1))), Err(PeriodError::ClosesBeforeOpening));
}

#[test]
fn instant_is_placed_before_within_or_after() {
    let p = period(1, 10, Some(20));
    assert_eq!(p.compare_instant(ts(9)), Placement::Less);
    assert_eq!(p.compare_instant(ts(10)), Placement::Equal);
    assert_eq!(p.compare_instant(ts(15)), Placement::Equal);
    assert_eq!(p.compare_instant(ts(20)), Placement::Equal);
    assert_eq!(p.compare_instant(ts(21)), Placement::Greater);
}

#[test]
fn instant_is_never_after_an_open_ended_period() {
    let p = period(1, 10, None);
    assert_eq!(p.compare_instant(ts(9)), Placement::Less);
    assert_eq!(p.compare_instant(ts(10)), Placement::Equal);
    assert_eq!(p.compare_instant(ts(1_000_000_000_000)), Placement::Equal);
}

#[test]
fn interval_is_placed_before_within_or_after() {
    let p = period(1, 10, Some(20));
    assert_eq!(p.compare_interval(ts(5), ts(8)), Placement::Less);
    assert_eq!(p.compare_interval(ts(9), ts(15)), Placement::Less);
    assert_eq!(p.compare_interval(ts(10), ts(20)), Placement::Equal);
    assert_eq!(p.compare_interval(ts(12), ts(13)), Placement::Equal);
    assert_eq!(p.compare_interval(ts(21), ts(25)), Placement::Greater);
}

#[test]
fn interval_that_outlasts_the_period_is_placed_less() {
    let p = period(1, 10, Some(20));
    assert_eq!(p.compare_interval(ts(15), ts(21)), Placement::Less);
    assert_eq!(p.compare_interval(ts(20), ts(21)), Placement::Less);
    assert_eq!(period(1, 10, None).compare_interval(ts(15), ts(1_000_000)), Placement::Equal);
}

#[test]
fn index_accepts_periods_in_order() {
    let schedule = schedule();
    assert_eq!(schedule.len(), 4);
    assert_eq!(schedule.get(0).map(|p| p.value()), Some(1));
    assert_eq!(schedule.get(3).map(|p| p.value()), Some(4));
    assert_eq!(schedule.get(4), None);
    assert_eq!(index(vec![]).len(), 0);
    assert_eq!(index(vec![period(1, 0, None)]).len(), 1);
}

#[test]
fn index_refuses_overlapping_periods() {
    let overlapping =
        vec![period(1, 0, Some(100)), period(2, 100, Some(200)), period(3, 199, Some(300))];
    assert_eq!(RatePeriodIndex::new(overlapping), Err(IndexError::Overlap { position: 1 }));
}

#[test]
fn index_refuses_periods_out_of_order() {
    let descending = vec![period(2, 100, Some(200)), period(1, 0, Some(100))];
    assert_eq!(RatePeriodIndex::new(descending), Err(IndexError::Overlap { position: 0 }));
}

#[test]
fn index_refuses_a_period_after_an_open_ended_one() {
    let periods = vec![period(1, 0, Some(100)), period(2, 100, None), period(3, 500, Some(600))];
    assert_eq!(RatePeriodIndex::new(periods), Err(IndexError::OpenEnded { position: 1 }));
}

#[test]
fn index_reports_the_first_conflict() {
    let periods = vec![
        period(1, 0, Some(100)),
        period(2, 50, Some(200)),
        period(3, 150, None),
        period(4, 500, None),
    ];
    assert_eq!(RatePeriodIndex::new(periods), Err(IndexError::Overlap { position: 0 }));
}

#[test]
fn find_returns_the_period_in_force() {
    let schedule = schedule();
    assert_eq!(value_at(&schedule, 0), Some(1));
    assert_eq!(value_at(&schedule, 99), Some(1));
    assert_eq!(value_at(&schedule, 150), Some(2));
    assert_eq!(value_at(&schedule, 200), Some(2));
    assert_eq!(value_at(&schedule, 300), Some(3));
    assert_eq!(value_at(&schedule, 399), Some(3));
    assert_eq!(value_at(&schedule, 1_000_000), Some(4));
}

#[test]
fn find_prefers_the_later_period_where_two_touch() {
    let schedule = schedule();
    assert_eq!(value_at(&schedule, 100), Some(2));
    assert_eq!(value_at(&schedule, 400), Some(4));
    assert_eq!(schedule.position(ts(100)), Some(1));
    assert_eq!(schedule.position(ts(400)), Some(3));
}

#[test]
fn find_reports_no_match_outside_every_period() {
    let schedule = schedule();
    assert_eq!(value_at(&schedule, -1), None);
    assert_eq!(value_at(&schedule, 201), None);
    assert_eq!(value_at(&schedule, 250), None);
    assert_eq!(value_at(&schedule, 299), None);
    assert_eq!(schedule.position(ts(250)), None);
    assert_eq!(value_at(&index(vec![]), 0), None);
}

#[test]
fn find_agrees_with_a_scan_of_every_period() {
    let mut periods = Vec::new();
    for k in 0..37_i64 {
        // Windows of 7 with a gap of 3 after every third.
        let from = k * 10;
        let to = if k % 3 == 2 { from + 7 } else { from + 10 };
        periods.push(period(k as i32, from, Some(to)));
    }
    let schedule = index(periods.clone());
    for instant in -5..385_i64 {
        let expected = periods
            .iter()
            .rev()
            .find(|p| p.valid_from().secs() <= instant && instant <= p.valid_to().unwrap().secs())
            .map(|p| p.value());
        assert_eq!(value_at(&schedule, instant), expected, "at {}", instant);
    }
}

#[test]
fn find_interval_returns_the_period_that_covers_the_interval() {
    let schedule = schedule();
    assert_eq!(value_over(&schedule, 0, 100), Some(1));
    assert_eq!(value_over(&schedule, 10, 20), Some(1));
    assert_eq!(value_over(&schedule, 100, 200), Some(2));
    assert_eq!(value_over(&schedule, 100, 130), Some(2));
    assert_eq!(value_over(&schedule, 300, 400), Some(3));
    assert_eq!(value_over(&schedule, 400, 430), Some(4));
    assert_eq!(value_over(&schedule, 450, 1_000_000), Some(4));
    assert_eq!(schedule.position_of_interval(ts(100), ts(130)), Some(1));
}

#[test]
fn find_interval_refuses_an_interval_across_a_boundary() {
    let schedule = schedule();
    assert_eq!(value_over(&schedule, 90, 110), None);
    assert_eq!(value_over(&schedule, 99, 101), None);
    assert_eq!(value_over(&schedule, 390, 410), None);
    assert_eq!(schedule.position_of_interval(ts(90), ts(110)), None);
}

#[test]
fn find_interval_refuses_an_interval_in_or_into_a_gap() {
    let schedule = schedule();
    assert_eq!(value_over(&schedule, 210, 240), None);
    assert_eq!(value_over(&schedule, 190, 210), None);
    assert_eq!(value_over(&schedule, 290, 310), None);
    assert_eq!(value_over(&schedule, -30, -10), None);
    assert_eq!(value_over(&schedule, -10, 10), None);
}

#[test]
fn find_interval_agrees_with_a_scan_of_every_period() {
    let mut periods = Vec::new();
    for k in 0..11_i64 {
        let from = k * 10;
        let to = if k % 3 == 2 { from + 7 } else { from + 10 };
        periods.push(period(k as i32, from, Some(to)));
    }
    let schedule = index(periods.clone());
    for start in -3..115_i64 {
        for end in (start + 1)..(start + 14) {
            let expected = periods
                .iter()
                .find(|p| p.valid_from().secs() <= start && end <= p.valid_to().unwrap().secs())
                .map(|p| p.value());
            assert_eq!(value_over(&schedule, start, end), expected, "over {}..{}", start, end);
        }
    }
}
