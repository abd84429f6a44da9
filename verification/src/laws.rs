//! Laws the query pipeline obeys, stated and proved over the same spec
//! functions that the executable functions' contracts use.

use vstd::prelude::*;
use vstd::arithmetic::div_mod::lemma_mod_multiples_basic;
use crate::dates::{epoch_days, spec_day_end, spec_day_start, spec_parse_date};
use crate::models::{spec_message, Candle, IndicatorSeries, QueryError};
use crate::query::{bars_result_matches, BarsRepository};
use crate::series::{series_matches, series_result_matches};

verus! {

/// Law: for every valid date string, the start bound is the first second of
/// a UTC day (its time of day is `00:00:00`), and the end bound is the last
/// second of the same day (`23:59:59`), so the window is inclusive on both
/// ends.
pub proof fn lemma_inclusive_day_bounds(s: Seq<char>)
    requires
        spec_parse_date(s) is Some,
    ensures
        spec_day_start(s) matches Some(t) && t % 86400 == 0,
        spec_day_end(s) == Some(spec_day_start(s)->0 + 86399),
{
    let (y, m, d) = spec_parse_date(s)->0;
    lemma_mod_multiples_basic(epoch_days(y, m, d), 86400);
    assert(epoch_days(y, m, d) * 86400 == 86400 * epoch_days(y, m, d)) by (nonlinear_arith);
}

/// Law: a malformed start date fails a bars query with `InvalidDate`, and
/// with that error alone, whatever the state of the data source: date
/// validation short-circuits before any data access.
pub proof fn lemma_malformed_date_short_circuits(
    rep: BarsRepository,
    contract: Option<&str>,
    start: Option<&str>,
    end: Option<&str>,
    r: Result<Vec<Candle>, QueryError>,
)
    requires
        start matches Some(s) && spec_parse_date(s@) is None,
        bars_result_matches(rep, contract, start, end, r),
    ensures
        r matches Err(QueryError::InvalidDate { value: v }) && v@ == start->0@,
{
}

/// Law: two bars queries with identical arguments against the same
/// snapshot yield identical output: the same candles on success, and
/// errors with the same message on failure.
pub proof fn lemma_bars_idempotent(
    rep: BarsRepository,
    contract: Option<&str>,
    start: Option<&str>,
    end: Option<&str>,
    r1: Result<Vec<Candle>, QueryError>,
    r2: Result<Vec<Candle>, QueryError>,
)
    requires
        bars_result_matches(rep, contract, start, end, r1),
        bars_result_matches(rep, contract, start, end, r2),
    ensures
        r1 is Ok <==> r2 is Ok,
        r1 matches Ok(v1) ==> (r2 matches Ok(v2) && v1@ == v2@),
        r1 matches Err(e1) ==> (r2 matches Err(e2) && spec_message(e1) == spec_message(e2)),
{
}

/// Law: two series queries with identical arguments against the same
/// snapshot yield identical output, series by series and point by point.
pub proof fn lemma_series_idempotent(
    rep: BarsRepository,
    contract: Option<&str>,
    start: Option<&str>,
    end: Option<&str>,
    r1: Result<Vec<IndicatorSeries>, QueryError>,
    r2: Result<Vec<IndicatorSeries>, QueryError>,
)
    requires
        series_result_matches(rep, contract, start, end, r1),
        series_result_matches(rep, contract, start, end, r2),
    ensures
        r1 is Ok <==> r2 is Ok,
        r1 matches Ok(v1) ==> (r2 matches Ok(v2) && v1@.len() == v2@.len() && (forall|j: int|
            0 <= j < v1@.len() ==> same_series(#[trigger] v1@[j], v2@[j]))),
        r1 matches Err(e1) ==> (r2 matches Err(e2) && spec_message(e1) == spec_message(e2)),
{
}

/// Two series agree in every view: id, label, render hint, pane, and data.
pub open spec fn same_series(a: IndicatorSeries, b: IndicatorSeries) -> bool {
    &&& a.id@ == b.id@
    &&& a.name@ == b.name@
    &&& a.kind@ == b.kind@
    &&& a.pane@ == b.pane@
    &&& a.data@ == b.data@
}

} // verus!
