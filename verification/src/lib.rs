//! Aggregation engine for independently stored financial and real-estate
//! time series: a static catalog of sources, per-source row normalization
//! into one canonical `{date, value}` shape, partial-failure isolation when
//! assembling the per-series results, and a time-aligned quotient series
//! computed by a forward-fill join of two of the series.

pub mod aggregate;
pub mod catalog;
pub mod normalize;
pub mod ratio;
pub mod record;
pub mod response;
