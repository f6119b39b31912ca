use series_agg::ratio::ratio;
use series_agg::record::{CanonicalRecord, RatioRecord, SeriesValue};

fn obs(date: i64, value: f64) -> CanonicalRecord {
    CanonicalRecord { date, value: SeriesValue::Real(value.to_bits()) }
}

fn as_f64(v: SeriesValue) -> f64 {
    match v {
        SeriesValue::Real(bits) => f64::from_bits(bits),
        SeriesValue::Whole(i) => i as f64,
    }
}

fn quotient(rec: &RatioRecord) -> f64 {
    as_f64(rec.num) / as_f64(rec.den)
}

#[test]
fn missing_numerator_propagates_null() {
    let den = vec![obs(1, 2.0)];
    assert!(ratio(None, Some(&den)).is_none());
}

#[test]
fn missing_denominator_propagates_null() {
    let num = vec![obs(1, 2.0)];
    assert!(ratio(Some(&num), None).is_none());
}

#[test]
fn missing_both_propagates_null() {
    assert!(ratio(None, None).is_none());
}

#[test]
fn forward_fill_skips_days_before_both_series_start() {
    // Numerator observed on days [1, 5] with values [10, 20]; denominator
    // on day [3] with value [2]. No point on day 1 (the denominator has
    // not been observed yet); day 3 divides the carried 10 by 2; day 5
    // divides the fresh 20 by the carried 2.
    let num = vec![obs(1, 10.0), obs(5, 20.0)];
    let den = vec![obs(3, 2.0)];
    let out = ratio(Some(&num), Some(&den)).unwrap();
    assert_eq!(out.len(), 2);
    assert_eq!(out[0].date, 3);
    assert_eq!(quotient(&out[0]), 5.0);
    assert_eq!(out[1].date, 5);
    assert_eq!(quotient(&out[1]), 10.0);
}

#[test]
fn repeated_invocation_is_byte_identical() {
    let num = vec![obs(2, 7.0), obs(9, 8.5), obs(4, 1.0)];
    let den = vec![obs(3, 2.0), obs(9, 4.0)];
    let first = ratio(Some(&num), Some(&den));
    let second = ratio(Some(&num), Some(&den));
    assert_eq!(first, second);
}

#[test]
fn output_dates_ascend_and_come_from_the_inputs() {
    let num = vec![obs(9, 1.0), obs(2, 2.0), obs(5, 3.0)];
    let den = vec![obs(4, 4.0), obs(2, 5.0)];
    let out = ratio(Some(&num), Some(&den)).unwrap();
    let mut input_dates: Vec<i64> =
        num.iter().map(|r| r.date).chain(den.iter().map(|r| r.date)).collect();
    input_dates.sort_unstable();
    input_dates.dedup();
    for pair in out.windows(2) {
        assert!(pair[0].date < pair[1].date);
    }
    for rec in &out {
        assert!(input_dates.contains(&rec.date));
        // No output day precedes the first observation of either input.
        assert!(rec.date >= 2);
    }
    assert_eq!(out.iter().map(|r| r.date).collect::<Vec<_>>(), vec![2, 4, 5, 9]);
}

#[test]
fn duplicate_dates_let_the_last_occurrence_win() {
    // One source reporting a day twice: the later record's value is the
    // one carried forward.
    let num = vec![obs(1, 10.0), obs(1, 30.0)];
    let den = vec![obs(1, 2.0)];
    let out = ratio(Some(&num), Some(&den)).unwrap();
    assert_eq!(out.len(), 1);
    assert_eq!(out[0].date, 1);
    assert_eq!(quotient(&out[0]), 15.0);
}

#[test]
fn empty_inputs_give_an_empty_series() {
    let num: Vec<CanonicalRecord> = Vec::new();
    let den: Vec<CanonicalRecord> = Vec::new();
    let out = ratio(Some(&num), Some(&den)).unwrap();
    assert!(out.is_empty());
}

#[test]
fn zero_denominator_propagates_as_non_finite() {
    // Division by zero is not special-cased: the quotient taken at the
    // serialization boundary is the floating-point infinity.
    let num = vec![obs(1, 3.0)];
    let den = vec![obs(1, 0.0)];
    let out = ratio(Some(&num), Some(&den)).unwrap();
    assert_eq!(out.len(), 1);
    assert!(quotient(&out[0]).is_infinite());
}

#[test]
fn mixed_value_shapes_divide_after_widening() {
    let num = vec![obs(2, 9.0)];
    let den = vec![CanonicalRecord { date: 1, value: SeriesValue::Whole(2) }];
    let out = ratio(Some(&num), Some(&den)).unwrap();
    assert_eq!(out.len(), 1);
    assert_eq!(out[0].date, 2);
    assert_eq!(quotient(&out[0]), 4.5);
}
