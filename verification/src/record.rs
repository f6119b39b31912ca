use vstd::prelude::*;

verus! {

/// A value observed in one series.
///
/// A source reports either a double-precision reading or an exact integer;
/// an integer is widened to a double only at the serialization boundary,
/// outside this crate. A double is carried opaquely as its IEEE-754 bit
/// pattern, so the logic here never performs floating-point arithmetic.
#[derive(Clone, Copy, PartialEq, Eq, Structural, Debug)]
pub enum SeriesValue {
    /// A double-precision reading, held as its IEEE-754 bit pattern.
    Real(u64),
    /// An exact integer reading.
    Whole(i64),
}

/// The canonical observation every source row is normalized to: a day key
/// (`YYYYMMDD`-encoded, or a source-native integer day key) and a value.
#[derive(Clone, Copy, PartialEq, Eq, Structural, Debug)]
pub struct CanonicalRecord {
    pub date: i64,
    pub value: SeriesValue,
}

/// One point of the derived quotient series: at `date`, the carried-forward
/// numerator and denominator observations. The division itself is
/// floating-point and is taken at the serialization boundary.
#[derive(Clone, Copy, PartialEq, Eq, Structural, Debug)]
pub struct RatioRecord {
    pub date: i64,
    pub num: SeriesValue,
    pub den: SeriesValue,
}

/// Why fetching one series failed. Any failure collapses to an explicit
/// null for that one series; it never aborts the other series.
#[derive(Clone, Copy, PartialEq, Eq, Structural, Debug)]
pub enum FetchError {
    /// The source was unreachable or rejected the connection.
    ConnectionError,
    /// The query failed, e.g. the source object does not exist.
    QueryError,
    /// A returned row lacked an expected column or held an incompatible type.
    RowShapeError,
}

} // verus!
