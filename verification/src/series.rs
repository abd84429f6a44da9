//! Indicator-series queries: a fixed, ordered catalog of indicator columns
//! is projected from the snapshot; columns absent from the source are
//! skipped silently, NaN and missing samples are elided, and each series
//! carries a label and pane classification derived from its column name.

use vstd::prelude::*;
use crate::models::{is_nan_bits, bits_are_nan, IndicatorPoint, IndicatorSeries, QueryError};
use crate::query::{
    date_arg_ok, end_bound_ms, lemma_ms_to_secs_mono, ms_to_secs, ms_to_secs_exec, opt_int,
    opt_view, row_passes, row_passes_exec, start_bound_ms, BarsRepository,
};
use crate::table::{col_index, lemma_col_index_props, rows_sorted, SourceRow};

verus! {

/// How many indicator columns the fixed catalog names.
pub const CATALOG_LEN: usize = 9;

/// Column name of the catalog entry at position `k`.
pub open spec fn catalog_id(k: int) -> Seq<char> {
    if k == 0 {
        "vwap"@
    } else if k == 1 {
        "vwapn"@
    } else if k == 2 {
        "vwapd"@
    } else if k == 3 {
        "ema_9"@
    } else if k == 4 {
        "ema_14"@
    } else if k == 5 {
        "ema_21"@
    } else if k == 6 {
        "rsi_14_ema"@
    } else if k == 7 {
        "rsi_14_wilder"@
    } else {
        "atr_14"@
    }
}

/// Display label of the catalog entry at position `k`.
pub open spec fn catalog_name(k: int) -> Seq<char> {
    if k == 0 {
        "VWAP"@
    } else if k == 1 {
        "VWAPN"@
    } else if k == 2 {
        "VWAPD"@
    } else if k == 3 {
        "EMA 9"@
    } else if k == 4 {
        "EMA 14"@
    } else if k == 5 {
        "EMA 21"@
    } else if k == 6 {
        "RSI 14 EMA"@
    } else if k == 7 {
        "RSI 14 WILDER"@
    } else {
        "ATR 14"@
    }
}

/// Pane of the catalog entry at position `k`.
pub open spec fn catalog_pane(k: int) -> Seq<char> {
    if k == 6 || k == 7 {
        "rsi"@
    } else if k == 8 {
        "atr"@
    } else {
        "price"@
    }
}

/// The display transformation: underscores become spaces, lower-case ASCII
/// letters become upper case, all else is kept.
pub open spec fn display_char(c: char) -> char {
    if c == '_' {
        ' '
    } else if 'a' <= c && c <= 'z' {
        ((c as u8) - 32) as char
    } else {
        c
    }
}

/// A column name turned into its display label, character by character.
pub open spec fn display_name_of(id: Seq<char>) -> Seq<char> {
    id.map_values(|c: char| display_char(c))
}

/// `p` is a prefix of `s`.
pub open spec fn starts_with(s: Seq<char>, p: Seq<char>) -> bool {
    p.len() <= s.len() && s.take(p.len() as int) == p
}

/// Pane classification: a prefix match on the indicator id alone.
pub open spec fn pane_of(id: Seq<char>) -> Seq<char> {
    if starts_with(id, "rsi"@) {
        "rsi"@
    } else if starts_with(id, "atr"@) {
        "atr"@
    } else {
        "price"@
    }
}

/// Law: every catalog label and pane follows the derivation rules, the
/// label by the character transformation, the pane by the prefix match.
pub proof fn lemma_catalog_derived(k: int)
    requires
        0 <= k < 9,
    ensures
        catalog_name(k) == display_name_of(catalog_id(k)),
        catalog_pane(k) == pane_of(catalog_id(k)),
{
    reveal_strlit("vwap");
    reveal_strlit("vwapn");
    reveal_strlit("vwapd");
    reveal_strlit("ema_9");
    reveal_strlit("ema_14");
    reveal_strlit("ema_21");
    reveal_strlit("rsi_14_ema");
    reveal_strlit("rsi_14_wilder");
    reveal_strlit("atr_14");
    reveal_strlit("VWAP");
    reveal_strlit("VWAPN");
    reveal_strlit("VWAPD");
    reveal_strlit("EMA 9");
    reveal_strlit("EMA 14");
    reveal_strlit("EMA 21");
    reveal_strlit("RSI 14 EMA");
    reveal_strlit("RSI 14 WILDER");
    reveal_strlit("ATR 14");
    reveal_strlit("rsi");
    reveal_strlit("atr");
    reveal_strlit("price");
    assert(catalog_name(k) =~= display_name_of(catalog_id(k)));
    if k == 6 || k == 7 {
        assert(catalog_id(k).take(3) =~= "rsi"@);
    } else if k == 8 {
        assert(catalog_id(k).take(3) =~= "atr"@);
        assert(!starts_with(catalog_id(k), "rsi"@)) by {
            if starts_with(catalog_id(k), "rsi"@) {
                assert(catalog_id(k).take(3)[0] == catalog_id(k)[0]);
                assert(false);
            }
        }
    } else {
        assert(!starts_with(catalog_id(k), "rsi"@)) by {
            if starts_with(catalog_id(k), "rsi"@) {
                assert(catalog_id(k).take(3)[0] == catalog_id(k)[0]);
                assert(false);
            }
        }
        assert(!starts_with(catalog_id(k), "atr"@)) by {
            if starts_with(catalog_id(k), "atr"@) {
                assert(catalog_id(k).take(3)[0] == catalog_id(k)[0]);
                assert(false);
            }
        }
    }
    assert(catalog_pane(k) =~= pane_of(catalog_id(k)));
}

/// Position of an id in the catalog, or 9 when it is not a catalog id.
pub open spec fn catalog_pos(id: Seq<char>) -> int {
    if id == catalog_id(0) {
        0
    } else if id == catalog_id(1) {
        1
    } else if id == catalog_id(2) {
        2
    } else if id == catalog_id(3) {
        3
    } else if id == catalog_id(4) {
        4
    } else if id == catalog_id(5) {
        5
    } else if id == catalog_id(6) {
        6
    } else if id == catalog_id(7) {
        7
    } else if id == catalog_id(8) {
        8
    } else {
        9
    }
}

/// Two distinct catalog positions name distinct columns.
pub proof fn lemma_catalog_ids_distinct(a: int, b: int)
    requires
        0 <= a < 9,
        0 <= b < 9,
        a != b,
    ensures
        catalog_id(a) != catalog_id(b),
{
    reveal_strlit("vwap");
    reveal_strlit("vwapn");
    reveal_strlit("vwapd");
    reveal_strlit("ema_9");
    reveal_strlit("ema_14");
    reveal_strlit("ema_21");
    reveal_strlit("rsi_14_ema");
    reveal_strlit("rsi_14_wilder");
    reveal_strlit("atr_14");
    if catalog_id(a) == catalog_id(b) {
        assert(catalog_id(a).len() == catalog_id(b).len());
        assert(catalog_id(a)[0] == catalog_id(b)[0]);
        if catalog_id(a).len() > 4 {
            assert(catalog_id(a)[4] == catalog_id(b)[4]);
        }
        assert(false);
    }
}

/// The nine catalog ids are pairwise distinct, so each id finds its own
/// position.
pub proof fn lemma_catalog_pos(k: int)
    requires
        0 <= k < 9,
    ensures
        catalog_pos(catalog_id(k)) == k,
{
    assert forall|j: int| 0 <= j < 9 && j != k implies catalog_id(k) != catalog_id(j) by {
        lemma_catalog_ids_distinct(k, j);
    }
}

/// Executable catalog id at position `k`.
pub fn catalog_id_str(k: usize) -> (r: &'static str)
    requires
        k < 9,
    ensures
        r@ == catalog_id(k as int),
{
    if k == 0 {
        "vwap"
    } else if k == 1 {
        "vwapn"
    } else if k == 2 {
        "vwapd"
    } else if k == 3 {
        "ema_9"
    } else if k == 4 {
        "ema_14"
    } else if k == 5 {
        "ema_21"
    } else if k == 6 {
        "rsi_14_ema"
    } else if k == 7 {
        "rsi_14_wilder"
    } else {
        "atr_14"
    }
}

/// Executable catalog label at position `k`.
pub fn catalog_name_str(k: usize) -> (r: &'static str)
    requires
        k < 9,
    ensures
        r@ == catalog_name(k as int),
{
    if k == 0 {
        "VWAP"
    } else if k == 1 {
        "VWAPN"
    } else if k == 2 {
        "VWAPD"
    } else if k == 3 {
        "EMA 9"
    } else if k == 4 {
        "EMA 14"
    } else if k == 5 {
        "EMA 21"
    } else if k == 6 {
        "RSI 14 EMA"
    } else if k == 7 {
        "RSI 14 WILDER"
    } else {
        "ATR 14"
    }
}

/// Executable catalog pane at position `k`.
pub fn catalog_pane_str(k: usize) -> (r: &'static str)
    requires
        k < 9,
    ensures
        r@ == catalog_pane(k as int),
{
    if k == 6 || k == 7 {
        "rsi"
    } else if k == 8 {
        "atr"
    } else {
        "price"
    }
}

/// The point a row yields for the value column at `vi`: `None` when the
/// sample is missing or encodes NaN, so the row is skipped.
pub open spec fn point_of_row(row: SourceRow, vi: int) -> Option<IndicatorPoint> {
    if row.timestamp_ms is Some && row.fields[vi] is Some && !is_nan_bits(row.fields[vi]->0) {
        Some(
            IndicatorPoint {
                time: ms_to_secs(row.timestamp_ms->0 as int) as i64,
                value: row.fields[vi]->0,
            },
        )
    } else {
        None
    }
}

/// The points of one indicator series, in row order: rows that fail the
/// filters and samples that are missing or NaN are dropped.
pub open spec fn points_of(
    rows: Seq<SourceRow>,
    c: Option<Seq<char>>,
    lo: Option<int>,
    hi: Option<int>,
    vi: int,
) -> Seq<IndicatorPoint>
    decreases rows.len(),
{
    if rows.len() == 0 {
        Seq::empty()
    } else {
        let prefix = points_of(rows.drop_last(), c, lo, hi, vi);
        let row = rows.last();
        if row_passes(row, c, lo, hi) && point_of_row(row, vi) is Some {
            prefix.push(point_of_row(row, vi)->0)
        } else {
            prefix
        }
    }
}

/// The point times are non-decreasing.
pub open spec fn sorted_points(ps: Seq<IndicatorPoint>) -> bool {
    forall|p: int, q: int| 0 <= p < q < ps.len() ==> ps[p].time <= ps[q].time
}

/// Over sorted rows a series' points come out in non-decreasing time order,
/// and no emitted point carries a NaN bit pattern.
pub proof fn lemma_points_of_props(
    rows: Seq<SourceRow>,
    c: Option<Seq<char>>,
    lo: Option<int>,
    hi: Option<int>,
    vi: int,
)
    requires
        rows_sorted(rows),
    ensures
        sorted_points(points_of(rows, c, lo, hi, vi)),
        forall|k: int|
            0 <= k < points_of(rows, c, lo, hi, vi).len() ==> !is_nan_bits(
                (#[trigger] points_of(rows, c, lo, hi, vi)[k]).value,
            ),
        forall|k: int|
            #![trigger points_of(rows, c, lo, hi, vi)[k]]
            0 <= k < points_of(rows, c, lo, hi, vi).len() ==> exists|i: int|
                0 <= i < rows.len() && row_passes(#[trigger] rows[i], c, lo, hi) && points_of(
                    rows,
                    c,
                    lo,
                    hi,
                    vi,
                )[k].time == ms_to_secs(rows[i].timestamp_ms->0 as int),
    decreases rows.len(),
{
    let ps = points_of(rows, c, lo, hi, vi);
    if rows.len() > 0 {
        let prev = rows.drop_last();
        let prefix = points_of(prev, c, lo, hi, vi);
        assert(rows_sorted(prev)) by {
            assert(forall|k: int| 0 <= k < prev.len() ==> prev[k] == rows[k]);
        }
        lemma_points_of_props(prev, c, lo, hi, vi);
        assert(forall|k: int| 0 <= k < prev.len() ==> prev[k] == rows[k]);
        assert forall|k: int| #![trigger ps[k]] 0 <= k < ps.len() implies exists|i: int|
            0 <= i < rows.len() && row_passes(#[trigger] rows[i], c, lo, hi) && ps[k].time
                == ms_to_secs(rows[i].timestamp_ms->0 as int) by {
            if k < prefix.len() {
                let i = choose|i: int|
                    0 <= i < prev.len() && row_passes(#[trigger] prev[i], c, lo, hi)
                        && prefix[k].time == ms_to_secs(prev[i].timestamp_ms->0 as int);
                assert(rows[i] == prev[i]);
                assert(row_passes(rows[i], c, lo, hi));
                assert(ps[k] == prefix[k]);
            } else {
                let i = rows.len() - 1;
                assert(row_passes(rows[i], c, lo, hi));
                assert(ps[k].time == ms_to_secs(rows[i].timestamp_ms->0 as int));
            }
        }
        assert forall|p: int, q: int| 0 <= p < q < ps.len() implies ps[p].time <= ps[q].time by {
            if q < prefix.len() {
                assert(ps[p] == prefix[p] && ps[q] == prefix[q]);
            } else {
                let row = rows.last();
                let i = choose|i: int|
                    0 <= i < prev.len() && row_passes(#[trigger] prev[i], c, lo, hi)
                        && prefix[p].time == ms_to_secs(prev[i].timestamp_ms->0 as int);
                assert(crate::table::ts_le(
                    rows[i].timestamp_ms,
                    rows[rows.len() - 1].timestamp_ms,
                ));
                lemma_ms_to_secs_mono(
                    rows[i].timestamp_ms->0 as int,
                    row.timestamp_ms->0 as int,
                );
            }
        }
    }
}

/// The ghost shape of one produced series: views of its strings and the
/// exact point sequence.
pub struct SeriesModel {
    /// View of the series id.
    pub id: Seq<char>,
    /// View of the display label.
    pub name: Seq<char>,
    /// View of the render hint.
    pub kind: Seq<char>,
    /// View of the pane classification.
    pub pane: Seq<char>,
    /// The emitted points.
    pub data: Seq<IndicatorPoint>,
}

/// The model of the series produced for catalog position `k` over the
/// given snapshot columns and window.
pub open spec fn series_entry(
    names: Seq<String>,
    rows: Seq<SourceRow>,
    c: Option<Seq<char>>,
    lo: Option<int>,
    hi: Option<int>,
    k: int,
) -> SeriesModel {
    SeriesModel {
        id: catalog_id(k),
        name: catalog_name(k),
        kind: "line"@,
        pane: catalog_pane(k),
        data: points_of(rows, c, lo, hi, col_index(names, catalog_id(k))->0),
    }
}

/// The models of the series produced for the first `k` catalog entries, in
/// catalog order: entries whose column is absent are skipped silently.
pub open spec fn series_model_upto(
    names: Seq<String>,
    rows: Seq<SourceRow>,
    c: Option<Seq<char>>,
    lo: Option<int>,
    hi: Option<int>,
    k: int,
) -> Seq<SeriesModel>
    decreases k,
{
    if k <= 0 {
        Seq::empty()
    } else {
        let prefix = series_model_upto(names, rows, c, lo, hi, k - 1);
        if col_index(names, catalog_id(k - 1)) is Some {
            prefix.push(series_entry(names, rows, c, lo, hi, k - 1))
        } else {
            prefix
        }
    }
}

/// An executable series agrees with a model field by field.
pub open spec fn series_matches(s: IndicatorSeries, m: SeriesModel) -> bool {
    &&& s.id@ == m.id
    &&& s.name@ == m.name
    &&& s.kind@ == m.kind
    &&& s.pane@ == m.pane
    &&& s.data@ == m.data
}

/// What `load_series` returns, for every combination of arguments and
/// repository state: date errors first, then source availability, and
/// otherwise exactly the catalog-ordered series over the present columns.
pub open spec fn series_result_matches(
    rep: BarsRepository,
    contract: Option<&str>,
    start: Option<&str>,
    end: Option<&str>,
    r: Result<Vec<IndicatorSeries>, QueryError>,
) -> bool {
    if !date_arg_ok(start) {
        r matches Err(QueryError::InvalidDate { value: v }) && v@ == start->0@
    } else if !date_arg_ok(end) {
        r matches Err(QueryError::InvalidDate { value: v }) && v@ == end->0@
    } else {
        match rep.table {
            None => r matches Err(QueryError::SourceUnavailable { path: p }) && p@ == rep.path@,
            Some(t) => {
                let model = series_model_upto(
                    t.field_names@,
                    t.rows@,
                    opt_view(contract),
                    start_bound_ms(start),
                    end_bound_ms(end),
                    9,
                );
                r matches Ok(v) && v@.len() == model.len() && (forall|j: int|
                    0 <= j < v@.len() ==> series_matches(#[trigger] v@[j], model[j]))
            },
        }
    }
}

impl BarsRepository {
    /// Returns chart-ready indicator series for the catalog columns present
    /// in the source, in fixed catalog order, skipping absent columns.
    pub fn load_series(&self, contract: Option<&str>, start: Option<&str>, end: Option<&str>) -> (r:
        Result<Vec<IndicatorSeries>, QueryError>)
        requires
            self.wf(),
        ensures
            series_result_matches(*self, contract, start, end, r),
            r matches Ok(v) ==> forall|j: int|
                0 <= j < v@.len() ==> sorted_points((#[trigger] v@[j]).data@),
            r matches Ok(v) ==> forall|j: int, k: int|
                #![trigger v@[j].data@[k]]
                0 <= j < v@.len() && 0 <= k < v@[j].data@.len() ==> !is_nan_bits(
                    v@[j].data@[k].value,
                ),
            r matches Ok(v) ==> forall|j1: int, j2: int|
                0 <= j1 < j2 < v@.len() ==> catalog_pos((#[trigger] v@[j1]).id@) < catalog_pos(
                    (#[trigger] v@[j2]).id@,
                ),
    {
        let start_secs = match crate::dates::parse_start_date(start) {
            Ok(b) => b,
            Err(e) => {
                return Err(e);
            },
        };
        let end_secs = match crate::dates::parse_end_date(end) {
            Ok(b) => b,
            Err(e) => {
                return Err(e);
            },
        };
        let table = match &self.table {
            Some(t) => t,
            None => {
                return Err(QueryError::SourceUnavailable { path: self.path.clone() });
            },
        };
        let lo: Option<i64> = match start_secs {
            Some(t) => Some(t * 1000),
            None => None,
        };
        let hi: Option<i64> = match end_secs {
            Some(t) => Some(t * 1000),
            None => None,
        };
        proof {
            assert(opt_int(lo) == start_bound_ms(start));
            assert(opt_int(hi) == end_bound_ms(end));
        }
        let ghost cv = opt_view(contract);
        let ghost lov = opt_int(lo);
        let ghost hiv = opt_int(hi);
        let mut out: Vec<IndicatorSeries> = Vec::new();
        let mut k: usize = 0;
        while k < CATALOG_LEN
            invariant
                0 <= k <= 9,
                table.wf(),
                self.table matches Some(tt) && *table == tt,
                lov == start_bound_ms(start),
                hiv == end_bound_ms(end),
                cv == opt_view(contract),
                opt_int(lo) == lov,
                opt_int(hi) == hiv,
                out@.len() == series_model_upto(
                    table.field_names@,
                    table.rows@,
                    cv,
                    lov,
                    hiv,
                    k as int,
                ).len(),
                forall|j: int|
                    0 <= j < out@.len() ==> series_matches(
                        #[trigger] out@[j],
                        series_model_upto(table.field_names@, table.rows@, cv, lov, hiv, k as int)[j],
                    ),
                forall|j: int| 0 <= j < out@.len() ==> sorted_points((#[trigger] out@[j]).data@),
                forall|j: int, kk: int|
                    #![trigger out@[j].data@[kk]]
                    0 <= j < out@.len() && 0 <= kk < out@[j].data@.len() ==> !is_nan_bits(
                        out@[j].data@[kk].value,
                    ),
                forall|j: int|
                    0 <= j < out@.len() ==> 0 <= catalog_pos((#[trigger] out@[j]).id@) < k as int,
                forall|j1: int, j2: int|
                    0 <= j1 < j2 < out@.len() ==> catalog_pos((#[trigger] out@[j1]).id@)
                        < catalog_pos((#[trigger] out@[j2]).id@),
            decreases 9 - k,
        {
            let ghost model_prev = series_model_upto(
                table.field_names@,
                table.rows@,
                cv,
                lov,
                hiv,
                k as int,
            );
            let id = catalog_id_str(k);
            match table.find_field(id) {
                Some(vi) => {
                    proof {
                        lemma_col_index_props(table.field_names@, catalog_id(k as int));
                    }
                    let mut points: Vec<IndicatorPoint> = Vec::new();
                    let mut i: usize = 0;
                    while i < table.rows.len()
                        invariant
                            0 <= i <= table.rows@.len(),
                            table.wf(),
                            vi < table.field_names@.len(),
                            cv == opt_view(contract),
                            opt_int(lo) == lov,
                            opt_int(hi) == hiv,
                            points@ == points_of(
                                table.rows@.take(i as int),
                                cv,
                                lov,
                                hiv,
                                vi as int,
                            ),
                        decreases table.rows@.len() - i,
                    {
                        proof {
                            assert(table.rows@.take(i as int + 1).drop_last() =~= table.rows@.take(
                                i as int,
                            ));
                            assert(table.rows@.take(i as int + 1).last() == table.rows@[i as int]);
                        }
                        let row = &table.rows[i];
                        if row_passes_exec(row, contract, lo, hi) {
                            match row.fields[vi] {
                                Some(value) => {
                                    if !bits_are_nan(value) {
                                        let ts = row.timestamp_ms.unwrap();
                                        let time = ms_to_secs_exec(ts);
                                        points.push(IndicatorPoint { time, value });
                                    }
                                },
                                None => {},
                            }
                        }
                        i = i + 1;
                    }
                    proof {
                        assert(table.rows@.take(table.rows@.len() as int) =~= table.rows@);
                        lemma_points_of_props(table.rows@, cv, lov, hiv, vi as int);
                        lemma_catalog_pos(k as int);
                    }
                    let series = IndicatorSeries {
                        id: id.to_owned(),
                        name: catalog_name_str(k).to_owned(),
                        kind: "line".to_owned(),
                        pane: catalog_pane_str(k).to_owned(),
                        data: points,
                    };
                    out.push(series);
                },
                None => {},
            }
            k = k + 1;
        }
        Ok(out)
    }
}

} // verus!
