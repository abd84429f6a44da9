//! Chart-ready output structures, request parameters, and the error taxonomy.
//!
//! Price and indicator values travel through this crate as 64-bit IEEE-754
//! bit patterns, so that NaN detection and verbatim copying are stated and
//! verified over plain integers; the surrounding binary converts them back
//! to floating point at its edge.

use vstd::prelude::*;
use vstd::string::StringExecFns;

verus! {

/// True when a 64-bit IEEE-754 bit pattern encodes a NaN value
/// (exponent all ones, non-zero mantissa).
pub open spec fn is_nan_bits(bits: u64) -> bool {
    (bits >> 52) & 0x7ff == 0x7ff && (bits & 0xf_ffff_ffff_ffff) != 0
}

/// Reports whether a 64-bit IEEE-754 bit pattern encodes a NaN value.
pub fn bits_are_nan(bits: u64) -> (r: bool)
    ensures
        r == is_nan_bits(bits),
{
    (bits >> 52) & 0x7ff == 0x7ff && (bits & 0xf_ffff_ffff_ffff) != 0
}

/// Payload returned by the health endpoint.
#[derive(Clone, Debug)]
pub struct HealthResponse {
    /// Indicates whether the service is alive and accepting requests.
    pub status: &'static str,
}

impl HealthResponse {
    /// The constant healthy payload: `status` is always `"ok"`.
    pub fn ok() -> (r: HealthResponse)
        ensures
            r.status@ == "ok"@,
    {
        HealthResponse { status: "ok" }
    }
}

/// One OHLC candle in chart-ready shape.
///
/// `time` is UTC epoch seconds; the four prices are IEEE-754 bit patterns.
#[derive(Clone, Copy, Debug, PartialEq, Eq, Structural)]
pub struct Candle {
    /// Candle open time as UTC epoch seconds.
    pub time: i64,
    /// Open price for the interval.
    pub open: u64,
    /// High price for the interval.
    pub high: u64,
    /// Low price for the interval.
    pub low: u64,
    /// Close price for the interval.
    pub close: u64,
}

/// Wraps candle output so response metadata can be extended later.
#[derive(Clone, Debug)]
pub struct BarsResponse {
    /// Ordered candles in ascending timestamp order.
    pub candles: Vec<Candle>,
}

/// One timestamped numeric sample of a technical indicator.
///
/// `value` is an IEEE-754 bit pattern and is never a NaN encoding.
#[derive(Clone, Copy, Debug, PartialEq, Eq, Structural)]
pub struct IndicatorPoint {
    /// Sample timestamp as UTC epoch seconds.
    pub time: i64,
    /// Indicator value at the given timestamp.
    pub value: u64,
}

/// A single indicator line for chart rendering.
#[derive(Clone, Debug, PartialEq, Eq)]
pub struct IndicatorSeries {
    /// Stable identifier: the raw column name of the indicator.
    pub id: String,
    /// Human-readable label: the id with underscores as spaces, upper-cased.
    pub name: String,
    /// Visualization hint, always `"line"`.
    pub kind: String,
    /// Pane classification: `"rsi"`, `"atr"`, or the price overlay `"price"`.
    pub pane: String,
    /// Sorted list of non-NaN indicator points.
    pub data: Vec<IndicatorPoint>,
}

/// Wraps the indicator output returned by the series endpoint.
#[derive(Clone, Debug)]
pub struct SeriesResponse {
    /// The indicator series available for the requested dataset.
    pub series: Vec<IndicatorSeries>,
}

/// Query parameters accepted by the bars and series endpoints.
#[derive(Clone, Debug)]
pub struct BarsQuery {
    /// Contract identifier used to filter rows.
    pub contract: Option<String>,
    /// Inclusive lower date bound in `YYYY-MM-DD` form.
    pub start: Option<String>,
    /// Inclusive upper date bound in `YYYY-MM-DD` form.
    pub end: Option<String>,
}

/// Structured API error payload used for bad requests.
#[derive(Clone, Debug)]
pub struct ApiErrorResponse {
    /// Short, user-readable description of the request error.
    pub message: String,
}

/// Why a bars or series query failed.
///
/// Every failure is terminal for the current request only and carries no
/// state beyond what the caller already supplied.
#[derive(Clone, Debug, PartialEq, Eq)]
pub enum QueryError {
    /// The date string is malformed or names an impossible calendar date.
    InvalidDate { value: String },
    /// The backing dataset could not be located at the configured path.
    SourceUnavailable { path: String },
    /// A column required by the bars query is missing from the source.
    ColumnReadFailure { column: String },
}

/// The characters of the human-readable message for each error.
pub open spec fn spec_message(e: QueryError) -> Seq<char> {
    match e {
        QueryError::InvalidDate { value } => "Invalid date '"@ + value@
            + "'. Expected YYYY-MM-DD."@,
        QueryError::SourceUnavailable { path } => "Data source not found at '"@ + path@ + "'."@,
        QueryError::ColumnReadFailure { column } => "Missing required column '"@ + column@
            + "'."@,
    }
}

impl QueryError {
    /// Renders the error as the user-readable message of the HTTP payload.
    pub fn message(&self) -> (r: String)
        ensures
            r@ == spec_message(*self),
    {
        match self {
            QueryError::InvalidDate { value } => {
                let mut m = String::from_str("Invalid date '");
                m.append(value.as_str());
                m.append("'. Expected YYYY-MM-DD.");
                m
            },
            QueryError::SourceUnavailable { path } => {
                let mut m = String::from_str("Data source not found at '");
                m.append(path.as_str());
                m.append("'.");
                m
            },
            QueryError::ColumnReadFailure { column } => {
                let mut m = String::from_str("Missing required column '");
                m.append(column.as_str());
                m.append("'.");
                m
            },
        }
    }
}

} // verus!
