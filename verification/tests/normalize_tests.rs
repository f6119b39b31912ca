use series_agg::normalize::{encode_yyyymmdd, normalize_row, normalize_series, row_check, RawRow};
use series_agg::record::{FetchError, SeriesValue};

#[test]
fn stock_row_keeps_date_and_bits() {
    let rec = normalize_row(&RawRow::StockSum {
        rec_date: 20210101,
        cumulative_sum: 1.5f64.to_bits(),
    });
    assert_eq!(rec.date, 20210101);
    assert_eq!(rec.value, SeriesValue::Real(1.5f64.to_bits()));
}

#[test]
fn real_estate_row_encodes_calendar_date() {
    // A calendar date 2023-01-15 with integer sum 42 normalizes to the
    // YYYYMMDD day key 20230115 and the exact integer 42.
    let rec = normalize_row(&RawRow::RealEstateSum { year: 2023, month: 1, day: 15, sum: 42 });
    assert_eq!(rec.date, 20230115);
    assert_eq!(rec.value, SeriesValue::Whole(42));
    match rec.value {
        SeriesValue::Whole(i) => assert_eq!(i as f64, 42.0),
        SeriesValue::Real(_) => panic!("expected an exact integer"),
    }
}

#[test]
fn index_row_widens_day_key() {
    let rec = normalize_row(&RawRow::IndexValue {
        d_even: 20201006,
        index_value: 1234.25f64.to_bits(),
    });
    assert_eq!(rec.date, 20201006);
    assert_eq!(rec.value, SeriesValue::Real(1234.25f64.to_bits()));
}

#[test]
fn currency_row_keeps_integer_price() {
    let rec = normalize_row(&RawRow::CurrencyPrice { date: 20201010, dollar_price: 250000 });
    assert_eq!(rec.date, 20201010);
    assert_eq!(rec.value, SeriesValue::Whole(250000));
}

#[test]
fn power_row_keeps_date_and_bits() {
    let rec = normalize_row(&RawRow::PowerDiff {
        trade_date: 20220303,
        power_difference: (-7.25f64).to_bits(),
    });
    assert_eq!(rec.date, 20220303);
    assert_eq!(rec.value, SeriesValue::Real((-7.25f64).to_bits()));
}

#[test]
fn volume_row_keeps_date_and_bits() {
    let rec = normalize_row(&RawRow::VolumeSum { trading_date: 20220304, sum_cap: 0.0f64.to_bits() });
    assert_eq!(rec.date, 20220304);
    assert_eq!(rec.value, SeriesValue::Real(0.0f64.to_bits()));
}

#[test]
fn yyyymmdd_encoding_examples() {
    assert_eq!(encode_yyyymmdd(2023, 1, 15), 20230115);
    assert_eq!(encode_yyyymmdd(0, 1, 5), 105);
    assert_eq!(encode_yyyymmdd(9999, 12, 31), 99991231);
}

#[test]
fn row_check_rejects_bad_calendar_dates() {
    assert!(row_check(&RawRow::RealEstateSum { year: 2023, month: 1, day: 15, sum: 1 }));
    assert!(!row_check(&RawRow::RealEstateSum { year: 2023, month: 13, day: 1, sum: 1 }));
    assert!(!row_check(&RawRow::RealEstateSum { year: -1, month: 1, day: 1, sum: 1 }));
    assert!(!row_check(&RawRow::RealEstateSum { year: 10000, month: 1, day: 1, sum: 1 }));
    assert!(row_check(&RawRow::StockSum { rec_date: 0, cumulative_sum: 0 }));
}

#[test]
fn series_normalizes_in_order() {
    let rows = vec![
        RawRow::StockSum { rec_date: 3, cumulative_sum: 1.0f64.to_bits() },
        RawRow::StockSum { rec_date: 1, cumulative_sum: 2.0f64.to_bits() },
    ];
    let recs = normalize_series(&rows).unwrap();
    assert_eq!(recs.len(), 2);
    // Sources need not be date-sorted; the normalizer must keep their order.
    assert_eq!(recs[0].date, 3);
    assert_eq!(recs[1].date, 1);
}

#[test]
fn one_malformed_row_fails_the_whole_series() {
    let rows = vec![
        RawRow::RealEstateSum { year: 2023, month: 1, day: 15, sum: 42 },
        RawRow::RealEstateSum { year: 2023, month: 13, day: 1, sum: 7 },
    ];
    match normalize_series(&rows) {
        Err(FetchError::RowShapeError) => {},
        other => panic!("expected a row-shape failure, got {:?}", other),
    }
}
