use series_agg::catalog::{entries, CategoryEntry, NormalizerKind};
use series_agg::normalize::RawRow;
use series_agg::record::{FetchError, SeriesValue};
use series_agg::response::build_response;

fn as_f64(v: SeriesValue) -> f64 {
    match v {
        SeriesValue::Real(bits) => f64::from_bits(bits),
        SeriesValue::Whole(i) => i as f64,
    }
}

#[test]
fn one_success_one_failure_yields_records_and_null() {
    // Two entries: the first succeeds with a single record on day 1 with
    // value 5.0, the second fails. The response maps the first key to its
    // one record and the second to the explicit null; with neither joined
    // series present, the quotient entry is null as well.
    let catalog = vec![
        CategoryEntry {
            key: "A".to_string(),
            source: "t_a".to_string(),
            kind: NormalizerKind::StockSum,
        },
        CategoryEntry {
            key: "B".to_string(),
            source: "t_b".to_string(),
            kind: NormalizerKind::StockSum,
        },
    ];
    let fetched = vec![
        Ok(vec![RawRow::StockSum { rec_date: 1, cumulative_sum: 5.0f64.to_bits() }]),
        Err(FetchError::ConnectionError),
    ];
    let resp = build_response(&catalog, &fetched);
    assert_eq!(resp.slots.len(), 2);
    assert_eq!(resp.slots[0].key, "A");
    let a = resp.slots[0].data.as_ref().unwrap();
    assert_eq!(a.len(), 1);
    assert_eq!(a[0].date, 1);
    assert_eq!(as_f64(a[0].value), 5.0);
    assert_eq!(resp.slots[1].key, "B");
    assert!(resp.slots[1].data.is_none());
    assert_eq!(resp.ratio_key, "shakhes_dollar_ratio");
    assert!(resp.ratio.is_none());
}

#[test]
fn full_catalog_response_joins_index_and_currency() {
    let catalog = entries();
    let mut fetched: Vec<Result<Vec<RawRow>, FetchError>> = Vec::new();
    for entry in &catalog {
        let outcome = match entry.key.as_str() {
            "shakhes" => Ok(vec![
                RawRow::IndexValue { d_even: 20210101, index_value: 100.0f64.to_bits() },
                RawRow::IndexValue { d_even: 20210103, index_value: 300.0f64.to_bits() },
            ]),
            "dollar" => Ok(vec![RawRow::CurrencyPrice { date: 20210102, dollar_price: 50 }]),
            _ => Err(FetchError::ConnectionError),
        };
        fetched.push(outcome);
    }
    let resp = build_response(&catalog, &fetched);
    assert_eq!(resp.slots.len(), catalog.len());
    for (slot, entry) in resp.slots.iter().zip(catalog.iter()) {
        assert_eq!(slot.key, entry.key);
        if entry.key == "shakhes" || entry.key == "dollar" {
            assert!(slot.data.is_some());
        } else {
            assert!(slot.data.is_none());
        }
    }
    // The quotient starts once both series have been observed: nothing on
    // 20210101, the carried index over the fresh price on 20210102, the
    // fresh index over the carried price on 20210103.
    let quotient = resp.ratio.as_ref().unwrap();
    assert_eq!(quotient.len(), 2);
    assert_eq!(quotient[0].date, 20210102);
    assert_eq!(as_f64(quotient[0].num) / as_f64(quotient[0].den), 2.0);
    assert_eq!(quotient[1].date, 20210103);
    assert_eq!(as_f64(quotient[1].num) / as_f64(quotient[1].den), 6.0);
}

#[test]
fn ratio_is_null_when_one_joined_series_failed() {
    let catalog = entries();
    let mut fetched: Vec<Result<Vec<RawRow>, FetchError>> = Vec::new();
    for entry in &catalog {
        let outcome = match entry.key.as_str() {
            "shakhes" => Ok(vec![RawRow::IndexValue {
                d_even: 20210101,
                index_value: 100.0f64.to_bits(),
            }]),
            _ => Err(FetchError::QueryError),
        };
        fetched.push(outcome);
    }
    let resp = build_response(&catalog, &fetched);
    assert!(resp.ratio.is_none());
}
