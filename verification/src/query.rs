//! The bars/series query engine: resolves the date window, filters rows by
//! contract and inclusive timestamp bounds, and maps surviving rows into
//! chart-ready candles and indicator series.

use vstd::prelude::*;
use vstd::arithmetic::div_mod::{
    lemma_div_is_ordered,
    lemma_div_multiples_vanish,
    lemma_div_pos_is_pos,
};
use crate::dates::{parse_end_date, parse_start_date, spec_day_end, spec_day_start, spec_parse_date};
use crate::models::{Candle, QueryError};
use crate::table::{col_index, lemma_col_index_props, rows_sorted, SourceRow, Table};

verus! {

/// An optional string argument seen as an optional character sequence.
pub open spec fn opt_view(v: Option<&str>) -> Option<Seq<char>> {
    match v {
        Some(s) => Some(s@),
        None => None,
    }
}

/// An optional machine integer seen as an optional mathematical integer.
pub open spec fn opt_int(v: Option<i64>) -> Option<int> {
    match v {
        Some(x) => Some(x as int),
        None => None,
    }
}

/// The optional date argument is absent or names a real calendar date.
pub open spec fn date_arg_ok(v: Option<&str>) -> bool {
    match v {
        None => true,
        Some(s) => spec_parse_date(s@) is Some,
    }
}

/// Lower millisecond bound of the requested window, if any.
pub open spec fn start_bound_ms(v: Option<&str>) -> Option<int> {
    match v {
        None => None,
        Some(s) => match spec_day_start(s@) {
            Some(t) => Some(1000 * t),
            None => None,
        },
    }
}

/// Upper millisecond bound of the requested window, if any.
pub open spec fn end_bound_ms(v: Option<&str>) -> Option<int> {
    match v {
        None => None,
        Some(s) => match spec_day_end(s@) {
            Some(t) => Some(1000 * t),
            None => None,
        },
    }
}

/// Whether a row survives the contract and window filters: it must carry a
/// timestamp, match the requested contract when one was given, and lie
/// inside whichever inclusive millisecond bounds were given.
pub open spec fn row_passes(
    row: SourceRow,
    c: Option<Seq<char>>,
    lo: Option<int>,
    hi: Option<int>,
) -> bool {
    &&& row.timestamp_ms is Some
    &&& match c {
        Some(cc) => (row.contract matches Some(rc) && rc@ == cc),
        None => true,
    }
    &&& match lo {
        Some(l) => row.timestamp_ms->0 >= l,
        None => true,
    }
    &&& match hi {
        Some(h) => row.timestamp_ms->0 <= h,
        None => true,
    }
}

/// Millisecond epoch converted to whole seconds, truncating toward zero.
pub open spec fn ms_to_secs(ms: int) -> int {
    if ms >= 0 {
        ms / 1000
    } else {
        -((-ms) / 1000)
    }
}

/// Truncation toward zero is monotone.
pub proof fn lemma_ms_to_secs_mono(a: int, b: int)
    requires
        a <= b,
    ensures
        ms_to_secs(a) <= ms_to_secs(b),
{
    if 0 <= a {
        lemma_div_is_ordered(a, b, 1000);
    } else if b < 0 {
        lemma_div_is_ordered(-b, -a, 1000);
    } else {
        lemma_div_pos_is_pos(-a, 1000);
        lemma_div_pos_is_pos(b, 1000);
    }
}

/// A whole-second bound scaled to milliseconds converts back to itself.
pub proof fn lemma_ms_to_secs_scaled(t: int)
    ensures
        ms_to_secs(1000 * t) == t,
{
    if t >= 0 {
        lemma_div_multiples_vanish(t, 1000);
    } else {
        lemma_div_multiples_vanish(-t, 1000);
        assert(-(1000 * t) == 1000 * (-t)) by (nonlinear_arith);
    }
}

/// Millisecond epoch converted to whole seconds, truncating toward zero.
pub fn ms_to_secs_exec(ms: i64) -> (r: i64)
    ensures
        r as int == ms_to_secs(ms as int),
{
    if ms >= 0 {
        let q: u64 = (ms as u64) / 1000;
        q as i64
    } else {
        let mag: u64 = if ms == i64::MIN {
            9223372036854775808
        } else {
            (-ms) as u64
        };
        assert(mag as int == -(ms as int));
        let q: u64 = mag / 1000;
        proof {
            lemma_div_is_ordered(mag as int, 9223372036854775808, 1000);
            lemma_div_pos_is_pos(mag as int, 1000);
        }
        -(q as i64)
    }
}

/// The candle a row yields, given the indices of the four price columns:
/// `None` when any price is missing, so the row is skipped entirely.
pub open spec fn candle_of_row(row: SourceRow, oi: int, hii: int, li: int, ci: int) -> Option<
    Candle,
> {
    if row.timestamp_ms is Some && row.fields[oi] is Some && row.fields[hii] is Some
        && row.fields[li] is Some && row.fields[ci] is Some {
        Some(
            Candle {
                time: ms_to_secs(row.timestamp_ms->0 as int) as i64,
                open: row.fields[oi]->0,
                high: row.fields[hii]->0,
                low: row.fields[li]->0,
                close: row.fields[ci]->0,
            },
        )
    } else {
        None
    }
}

/// The candles produced by the filter-then-map pipeline over the rows, in
/// row order: rows outside the window, with a foreign contract, without a
/// timestamp, or with any missing price are dropped.
pub open spec fn candles_of(
    rows: Seq<SourceRow>,
    c: Option<Seq<char>>,
    lo: Option<int>,
    hi: Option<int>,
    oi: int,
    hii: int,
    li: int,
    ci: int,
) -> Seq<Candle>
    decreases rows.len(),
{
    if rows.len() == 0 {
        Seq::empty()
    } else {
        let prefix = candles_of(rows.drop_last(), c, lo, hi, oi, hii, li, ci);
        let row = rows.last();
        if row_passes(row, c, lo, hi) && candle_of_row(row, oi, hii, li, ci) is Some {
            prefix.push(candle_of_row(row, oi, hii, li, ci)->0)
        } else {
            prefix
        }
    }
}

/// The candle times are non-decreasing.
pub open spec fn sorted_candles(cs: Seq<Candle>) -> bool {
    forall|p: int, q: int| 0 <= p < q < cs.len() ==> cs[p].time <= cs[q].time
}

/// Over sorted rows the pipeline yields candles in non-decreasing time
/// order, and every candle's time is the truncated second of a passing row.
pub proof fn lemma_candles_of_props(
    rows: Seq<SourceRow>,
    c: Option<Seq<char>>,
    lo: Option<int>,
    hi: Option<int>,
    oi: int,
    hii: int,
    li: int,
    ci: int,
)
    requires
        rows_sorted(rows),
    ensures
        sorted_candles(candles_of(rows, c, lo, hi, oi, hii, li, ci)),
        forall|k: int|
            #![trigger candles_of(rows, c, lo, hi, oi, hii, li, ci)[k]]
            0 <= k < candles_of(rows, c, lo, hi, oi, hii, li, ci).len() ==> exists|i: int|
                0 <= i < rows.len() && row_passes(#[trigger] rows[i], c, lo, hi) && candles_of(
                    rows,
                    c,
                    lo,
                    hi,
                    oi,
                    hii,
                    li,
                    ci,
                )[k].time == ms_to_secs(rows[i].timestamp_ms->0 as int),
    decreases rows.len(),
{
    let cs = candles_of(rows, c, lo, hi, oi, hii, li, ci);
    if rows.len() > 0 {
        let prev = rows.drop_last();
        let prefix = candles_of(prev, c, lo, hi, oi, hii, li, ci);
        assert(rows_sorted(prev)) by {
            assert(forall|k: int| 0 <= k < prev.len() ==> prev[k] == rows[k]);
        }
        lemma_candles_of_props(prev, c, lo, hi, oi, hii, li, ci);
        assert(forall|k: int| 0 <= k < prev.len() ==> prev[k] == rows[k]);
        assert forall|k: int| #![trigger cs[k]] 0 <= k < cs.len() implies exists|i: int|
            0 <= i < rows.len() && row_passes(#[trigger] rows[i], c, lo, hi) && cs[k].time
                == ms_to_secs(rows[i].timestamp_ms->0 as int) by {
            if k < prefix.len() {
                let i = choose|i: int|
                    0 <= i < prev.len() && row_passes(#[trigger] prev[i], c, lo, hi)
                        && prefix[k].time == ms_to_secs(prev[i].timestamp_ms->0 as int);
                assert(rows[i] == prev[i]);
                assert(row_passes(rows[i], c, lo, hi));
                assert(cs[k] == prefix[k]);
            } else {
                let i = rows.len() - 1;
                assert(row_passes(rows[i], c, lo, hi));
                assert(cs[k].time == ms_to_secs(rows[i].timestamp_ms->0 as int));
            }
        }
        assert forall|p: int, q: int| 0 <= p < q < cs.len() implies cs[p].time <= cs[q].time by {
            if q < prefix.len() {
                assert(cs[p] == prefix[p] && cs[q] == prefix[q]);
            } else {
                let row = rows.last();
                let i = choose|i: int|
                    0 <= i < prev.len() && row_passes(#[trigger] prev[i], c, lo, hi)
                        && prefix[p].time == ms_to_secs(prev[i].timestamp_ms->0 as int);
                assert(crate::table::ts_le(
                    rows[i].timestamp_ms,
                    rows[rows.len() - 1].timestamp_ms,
                ));
                lemma_ms_to_secs_mono(
                    rows[i].timestamp_ms->0 as int,
                    row.timestamp_ms->0 as int,
                );
            }
        }
    }
}

/// The first of the four price columns that is missing from the table, in
/// the fixed order open, high, low, close; `None` when all are present.
pub open spec fn missing_bar_column(names: Seq<String>) -> Option<Seq<char>> {
    if col_index(names, "open"@) is None {
        Some("open"@)
    } else if col_index(names, "high"@) is None {
        Some("high"@)
    } else if col_index(names, "low"@) is None {
        Some("low"@)
    } else if col_index(names, "close"@) is None {
        Some("close"@)
    } else {
        None
    }
}

/// Serves candle bars and indicator series from one immutable snapshot.
///
/// The snapshot is taken at construction: `table` is `None` when the backing
/// dataset could not be located at `path`, and every query then fails with
/// `SourceUnavailable` after date validation.
///
/// There is no contract allow-list: a contract filter that matches no row
/// yields an empty result, never an error.
#[derive(Clone, Debug)]
pub struct BarsRepository {
    /// Where the backing dataset was looked for; echoed in errors.
    pub path: String,
    /// The loaded snapshot, or `None` when the source was unavailable.
    pub table: Option<Table>,
}

/// What `load_bars` returns, for every combination of arguments and
/// repository state: date errors first, then source availability, then the
/// four required price columns, and otherwise exactly the filtered,
/// sorted, mapped candles.
pub open spec fn bars_result_matches(
    rep: BarsRepository,
    contract: Option<&str>,
    start: Option<&str>,
    end: Option<&str>,
    r: Result<Vec<Candle>, QueryError>,
) -> bool {
    if !date_arg_ok(start) {
        r matches Err(QueryError::InvalidDate { value: v }) && v@ == start->0@
    } else if !date_arg_ok(end) {
        r matches Err(QueryError::InvalidDate { value: v }) && v@ == end->0@
    } else {
        match rep.table {
            None => r matches Err(QueryError::SourceUnavailable { path: p }) && p@ == rep.path@,
            Some(t) => match missing_bar_column(t.field_names@) {
                Some(col) => r matches Err(QueryError::ColumnReadFailure { column: c2 }) && c2@
                    == col,
                None => r matches Ok(v) && v@ == candles_of(
                    t.rows@,
                    opt_view(contract),
                    start_bound_ms(start),
                    end_bound_ms(end),
                    col_index(t.field_names@, "open"@)->0,
                    col_index(t.field_names@, "high"@)->0,
                    col_index(t.field_names@, "low"@)->0,
                    col_index(t.field_names@, "close"@)->0,
                ),
            },
        }
    }
}

/// Every candle time lies inside the inclusive second window the date
/// arguments name, on whichever sides bounds were given.
pub open spec fn candles_within(cs: Seq<Candle>, start: Option<&str>, end: Option<&str>) -> bool {
    &&& match start {
        Some(s) => spec_day_start(s@) matches Some(t) ==> forall|k: int|
            0 <= k < cs.len() ==> #[trigger] cs[k].time >= t,
        None => true,
    }
    &&& match end {
        Some(s) => spec_day_end(s@) matches Some(t) ==> forall|k: int|
            0 <= k < cs.len() ==> #[trigger] cs[k].time <= t,
        None => true,
    }
}

impl BarsRepository {
    /// All held snapshots are well-formed.
    pub open spec fn wf(self) -> bool {
        match self.table {
            Some(t) => t.wf(),
            None => true,
        }
    }

    /// Creates a repository over an already-loaded snapshot, or over a
    /// missing source known only by the path where it was sought.
    pub fn new(path: String, table: Option<Table>) -> (r: BarsRepository)
        requires
            table matches Some(t) ==> t.wf(),
        ensures
            r.wf(),
            r.path == path,
            r.table == table,
    {
        BarsRepository { path, table }
    }

    /// Returns candles for an optional contract and optional inclusive
    /// `YYYY-MM-DD` date window, in ascending time order.
    pub fn load_bars(&self, contract: Option<&str>, start: Option<&str>, end: Option<&str>) -> (r:
        Result<Vec<Candle>, QueryError>)
        requires
            self.wf(),
        ensures
            bars_result_matches(*self, contract, start, end, r),
            r matches Ok(v) ==> sorted_candles(v@),
            r matches Ok(v) ==> candles_within(v@, start, end),
    {
        let start_secs = match parse_start_date(start) {
            Ok(b) => b,
            Err(e) => {
                return Err(e);
            },
        };
        let end_secs = match parse_end_date(end) {
            Ok(b) => b,
            Err(e) => {
                return Err(e);
            },
        };
        let table = match &self.table {
            Some(t) => t,
            None => {
                return Err(QueryError::SourceUnavailable { path: self.path.clone() });
            },
        };
        let oi = match table.find_field("open") {
            Some(i) => i,
            None => {
                return Err(QueryError::ColumnReadFailure { column: "open".to_owned() });
            },
        };
        let hii = match table.find_field("high") {
            Some(i) => i,
            None => {
                return Err(QueryError::ColumnReadFailure { column: "high".to_owned() });
            },
        };
        let li = match table.find_field("low") {
            Some(i) => i,
            None => {
                return Err(QueryError::ColumnReadFailure { column: "low".to_owned() });
            },
        };
        let ci = match table.find_field("close") {
            Some(i) => i,
            None => {
                return Err(QueryError::ColumnReadFailure { column: "close".to_owned() });
            },
        };
        let lo: Option<i64> = match start_secs {
            Some(t) => Some(t * 1000),
            None => None,
        };
        let hi: Option<i64> = match end_secs {
            Some(t) => Some(t * 1000),
            None => None,
        };
        proof {
            assert(opt_int(lo) == start_bound_ms(start));
            assert(opt_int(hi) == end_bound_ms(end));
            lemma_col_index_props(table.field_names@, "open"@);
            lemma_col_index_props(table.field_names@, "high"@);
            lemma_col_index_props(table.field_names@, "low"@);
            lemma_col_index_props(table.field_names@, "close"@);
        }
        let mut out: Vec<Candle> = Vec::new();
        let mut i: usize = 0;
        while i < table.rows.len()
            invariant
                0 <= i <= table.rows@.len(),
                table.wf(),
                self.table matches Some(tt) && *table == tt,
                oi < table.field_names@.len(),
                hii < table.field_names@.len(),
                li < table.field_names@.len(),
                ci < table.field_names@.len(),
                opt_int(lo) == start_bound_ms(start),
                opt_int(hi) == end_bound_ms(end),
                out@ == candles_of(
                    table.rows@.take(i as int),
                    opt_view(contract),
                    opt_int(lo),
                    opt_int(hi),
                    oi as int,
                    hii as int,
                    li as int,
                    ci as int,
                ),
            decreases table.rows@.len() - i,
        {
            proof {
                assert(table.rows@.take(i as int + 1).drop_last() =~= table.rows@.take(i as int));
                assert(table.rows@.take(i as int + 1).last() == table.rows@[i as int]);
            }
            let row = &table.rows[i];
            if row_passes_exec(row, contract, lo, hi) {
                match (row.fields[oi], row.fields[hii], row.fields[li], row.fields[ci]) {
                    (Some(o), Some(h), Some(l), Some(cl)) => {
                        let ts = row.timestamp_ms.unwrap();
                        let time = ms_to_secs_exec(ts);
                        out.push(Candle { time, open: o, high: h, low: l, close: cl });
                    },
                    _ => {},
                }
            }
            i = i + 1;
        }
        proof {
            assert(table.rows@.take(table.rows@.len() as int) =~= table.rows@);
            lemma_candles_of_props(
                table.rows@,
                opt_view(contract),
                opt_int(lo),
                opt_int(hi),
                oi as int,
                hii as int,
                li as int,
                ci as int,
            );
            let cs = out@;
            match start {
                Some(s) => match spec_day_start(s@) {
                    Some(t) => {
                        assert forall|k: int| 0 <= k < cs.len() implies #[trigger] cs[k].time
                            >= t by {
                            let ri = choose|ri: int|
                                0 <= ri < table.rows@.len() && row_passes(
                                    #[trigger] table.rows@[ri],
                                    opt_view(contract),
                                    opt_int(lo),
                                    opt_int(hi),
                                ) && cs[k].time == ms_to_secs(
                                    table.rows@[ri].timestamp_ms->0 as int,
                                );
                            lemma_ms_to_secs_scaled(t);
                            lemma_ms_to_secs_mono(
                                1000 * t,
                                table.rows@[ri].timestamp_ms->0 as int,
                            );
                        }
                    },
                    None => {},
                },
                None => {},
            }
            match end {
                Some(s) => match spec_day_end(s@) {
                    Some(t) => {
                        assert forall|k: int| 0 <= k < cs.len() implies #[trigger] cs[k].time
                            <= t by {
                            let ri = choose|ri: int|
                                0 <= ri < table.rows@.len() && row_passes(
                                    #[trigger] table.rows@[ri],
                                    opt_view(contract),
                                    opt_int(lo),
                                    opt_int(hi),
                                ) && cs[k].time == ms_to_secs(
                                    table.rows@[ri].timestamp_ms->0 as int,
                                );
                            lemma_ms_to_secs_scaled(t);
                            lemma_ms_to_secs_mono(
                                table.rows@[ri].timestamp_ms->0 as int,
                                1000 * t,
                            );
                        }
                    },
                    None => {},
                },
                None => {},
            }
        }
        Ok(out)
    }
}

/// Whether a row survives the contract and window filters: it must carry a
/// timestamp, match the requested contract when one was given, and lie
/// inside whichever bounds were given.
pub(crate) fn row_passes_exec(
    row: &SourceRow,
    contract: Option<&str>,
    lo: Option<i64>,
    hi: Option<i64>,
) -> (r: bool)
    ensures
        r == row_passes(*row, opt_view(contract), opt_int(lo), opt_int(hi)),
{
    let ts = match row.timestamp_ms {
        Some(t) => t,
        None => {
            return false;
        },
    };
    match contract {
        Some(want) => {
            match &row.contract {
                Some(have) => {
                    if !crate::table::str_eq(have.as_str(), want) {
                        return false;
                    }
                },
                None => {
                    return false;
                },
            }
        },
        None => {},
    }
    match lo {
        Some(l) => {
            if ts < l {
                return false;
            }
        },
        None => {},
    }
    match hi {
        Some(h) => {
            if ts > h {
                return false;
            }
        },
        None => {},
    }
    true
}

} // verus!
