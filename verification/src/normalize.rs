use vstd::prelude::*;

use crate::record::{CanonicalRecord, FetchError, SeriesValue};

verus! {

/// One raw source row, in one of the six shapes the sources emit.
///
/// Double-precision columns arrive as IEEE-754 bit patterns (see
/// `SeriesValue`); a calendar date arrives as its year, month and day.
#[derive(Clone, Copy, PartialEq, Eq, Structural, Debug)]
pub enum RawRow {
    /// `recDate` and `cumulative_sum` of a stock cumulative-sum source.
    StockSum { rec_date: i64, cumulative_sum: u64 },
    /// Calendar `date` and integer `sum` of a real-estate aggregate source.
    RealEstateSum { year: i32, month: i32, day: i32, sum: i64 },
    /// `d_even` and `x_niv_inu_cl_mres_ibs` of the market-index history.
    IndexValue { d_even: i32, index_value: u64 },
    /// `date` and integer `dollar_price` of the currency source.
    CurrencyPrice { date: i64, dollar_price: i32 },
    /// `trade_date` and `cumulative_power_difference` of a power source.
    PowerDiff { trade_date: i64, power_difference: u64 },
    /// `trading_date` and `sum_cap` of a traded-volume source.
    VolumeSum { trading_date: i64, sum_cap: u64 },
}

/// A calendar date formatted as `YYYYMMDD` and read back as one integer.
pub open spec fn spec_yyyymmdd(year: int, month: int, day: int) -> int {
    year * 10000 + month * 100 + day
}

/// Whether one raw row normalizes. Only a calendar date outside the
/// four-digit-year range (or outside calendar bounds) is malformed; every
/// other shape carries already-typed columns and always normalizes.
pub open spec fn row_ok(row: RawRow) -> bool {
    match row {
        RawRow::RealEstateSum { year, month, day, .. } => 0 <= year <= 9999 && 1 <= month <= 12
            && 1 <= day <= 31,
        _ => true,
    }
}

/// The canonical record one raw row normalizes to: the date column is kept
/// (a calendar date is `YYYYMMDD`-encoded), a double keeps its bit pattern,
/// and an integer column is kept exact.
pub open spec fn spec_normalize(row: RawRow) -> CanonicalRecord {
    match row {
        RawRow::StockSum { rec_date, cumulative_sum } => CanonicalRecord {
            date: rec_date,
            value: SeriesValue::Real(cumulative_sum),
        },
        RawRow::RealEstateSum { year, month, day, sum } => CanonicalRecord {
            date: spec_yyyymmdd(year as int, month as int, day as int) as i64,
            value: SeriesValue::Whole(sum),
        },
        RawRow::IndexValue { d_even, index_value } => CanonicalRecord {
            date: d_even as i64,
            value: SeriesValue::Real(index_value),
        },
        RawRow::CurrencyPrice { date, dollar_price } => CanonicalRecord {
            date,
            value: SeriesValue::Whole(dollar_price as i64),
        },
        RawRow::PowerDiff { trade_date, power_difference } => CanonicalRecord {
            date: trade_date,
            value: SeriesValue::Real(power_difference),
        },
        RawRow::VolumeSum { trading_date, sum_cap } => CanonicalRecord {
            date: trading_date,
            value: SeriesValue::Real(sum_cap),
        },
    }
}

/// Every row of a series normalizes.
pub open spec fn rows_ok(rows: Seq<RawRow>) -> bool {
    forall|i: int| 0 <= i < rows.len() ==> row_ok(rows[i])
}

/// The canonical records of a whole series, row by row, order kept.
pub open spec fn spec_normalize_all(rows: Seq<RawRow>) -> Seq<CanonicalRecord> {
    rows.map_values(|row: RawRow| spec_normalize(row))
}

/// `YYYYMMDD` encoding of a calendar date, e.g. 2023-01-15 to 20230115.
pub fn encode_yyyymmdd(year: i32, month: i32, day: i32) -> (r: i64)
    requires
        0 <= year <= 9999,
        1 <= month <= 12,
        1 <= day <= 31,
    ensures
        r == spec_yyyymmdd(year as int, month as int, day as int),
{
    (year as i64) * 10000 + (month as i64) * 100 + (day as i64)
}

/// Runtime test of `row_ok`.
pub fn row_check(row: &RawRow) -> (b: bool)
    ensures
        b == row_ok(*row),
{
    match *row {
        RawRow::RealEstateSum { year, month, day, .. } => 0 <= year && year <= 9999 && 1 <= month
            && month <= 12 && 1 <= day && day <= 31,
        _ => true,
    }
}

/// Normalize one raw row to the canonical record.
pub fn normalize_row(row: &RawRow) -> (r: CanonicalRecord)
    requires
        row_ok(*row),
    ensures
        r == spec_normalize(*row),
{
    match *row {
        RawRow::StockSum { rec_date, cumulative_sum } => CanonicalRecord {
            date: rec_date,
            value: SeriesValue::Real(cumulative_sum),
        },
        RawRow::RealEstateSum { year, month, day, sum } => CanonicalRecord {
            date: encode_yyyymmdd(year, month, day),
            value: SeriesValue::Whole(sum),
        },
        RawRow::IndexValue { d_even, index_value } => CanonicalRecord {
            date: d_even as i64,
            value: SeriesValue::Real(index_value),
        },
        RawRow::CurrencyPrice { date, dollar_price } => CanonicalRecord {
            date,
            value: SeriesValue::Whole(dollar_price as i64),
        },
        RawRow::PowerDiff { trade_date, power_difference } => CanonicalRecord {
            date: trade_date,
            value: SeriesValue::Real(power_difference),
        },
        RawRow::VolumeSum { trading_date, sum_cap } => CanonicalRecord {
            date: trading_date,
            value: SeriesValue::Real(sum_cap),
        },
    }
}

/// Normalize every row of one fetched series, order kept. One malformed
/// row fails the whole series with `RowShapeError`: no partial row list is
/// ever returned, and the result is `Ok` exactly when every row is
/// well-formed.
pub fn normalize_series(rows: &Vec<RawRow>) -> (r: Result<Vec<CanonicalRecord>, FetchError>)
    ensures
        r is Ok <==> rows_ok(rows@),
        r matches Ok(recs) ==> recs@ == spec_normalize_all(rows@),
        r matches Err(e) ==> e == FetchError::RowShapeError,
{
    let mut out: Vec<CanonicalRecord> = Vec::new();
    let mut i: usize = 0;
    while i < rows.len()
        invariant
            0 <= i <= rows@.len(),
            forall|j: int| 0 <= j < i ==> row_ok(rows@[j]),
            out@ == spec_normalize_all(rows@.take(i as int)),
        decreases rows@.len() - i,
    {
        if !row_check(&rows[i]) {
            assert(!row_ok(rows@[i as int]));
            return Err(FetchError::RowShapeError);
        }
        out.push(normalize_row(&rows[i]));
        i = i + 1;
        assert(out@ =~= spec_normalize_all(rows@.take(i as int)));
    }
    assert(rows@.take(rows@.len() as int) =~= rows@);
    Ok(out)
}

} // verus!
