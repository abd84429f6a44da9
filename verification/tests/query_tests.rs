//! Bars and series queries over small in-memory snapshots.

use trade_review_backend::models::{bits_are_nan, QueryError};
use trade_review_backend::query::BarsRepository;
use trade_review_backend::table::{SourceRow, Table};

fn bits(x: f64) -> u64 {
    x.to_bits()
}

fn bar_columns() -> Vec<String> {
    vec![
        "open".to_string(),
        "high".to_string(),
        "low".to_string(),
        "close".to_string(),
    ]
}

fn bar_row(ts_ms: i64, contract: &str, o: f64, h: f64, l: f64, c: f64) -> SourceRow {
    SourceRow {
        timestamp_ms: Some(ts_ms),
        contract: Some(contract.to_string()),
        fields: vec![Some(bits(o)), Some(bits(h)), Some(bits(l)), Some(bits(c))],
    }
}

fn sample_repository() -> BarsRepository {
    // Three bars on 2024-10-24, given out of order, plus one the day before
    // and one the day after.
    let rows = vec![
        bar_row(1729728000000 + 3_600_000, "ES", 10.0, 11.0, 9.0, 10.5),
        bar_row(1729727999999, "ES", 1.0, 2.0, 0.5, 1.5),
        bar_row(1729728000000, "ES", 5.0, 6.0, 4.0, 5.5),
        bar_row(1729814400000, "ES", 20.0, 21.0, 19.0, 20.5),
        bar_row(1729814399000, "ES", 15.0, 16.0, 14.0, 15.5),
    ];
    let table = Table::new(bar_columns(), rows).expect("widths match");
    BarsRepository::new("sample".to_string(), Some(table))
}

#[test]
fn reads_sample_parquet_bars() {
    let repository = sample_repository();
    let bars = repository.load_bars(None, None, None).expect("parquet should load");

    assert!(!bars.is_empty());
}

#[test]
fn rejects_bad_dates() {
    let repository = sample_repository();
    let err = repository
        .load_bars(None, Some("10/24/2024"), None)
        .expect_err("invalid date must fail");

    assert!(err.message().contains("Expected YYYY-MM-DD"));
}

#[test]
fn bars_come_out_sorted_ascending() {
    let repository = sample_repository();
    let bars = repository.load_bars(None, None, None).expect("load");
    assert_eq!(bars.len(), 5);
    for w in bars.windows(2) {
        assert!(w[0].time <= w[1].time);
    }
    // Millisecond timestamps are truncated to seconds.
    assert_eq!(bars[0].time, 1729727999);
    assert_eq!(bars[1].time, 1729728000);
}

#[test]
fn date_window_is_inclusive_on_both_ends() {
    let repository = sample_repository();
    let bars = repository
        .load_bars(None, Some("2024-10-24"), Some("2024-10-24"))
        .expect("load");
    // 2024-10-24T00:00:00Z .. 2024-10-24T23:59:59Z inclusive.
    assert_eq!(bars.len(), 3);
    for b in &bars {
        assert!(b.time >= 1729728000 && b.time <= 1729814399);
    }
    assert_eq!(bars[0].time, 1729728000);
    assert_eq!(bars[2].time, 1729814399);
}

#[test]
fn contract_filter_selects_matching_rows_only() {
    let rows = vec![
        bar_row(1000, "ES", 1.0, 1.0, 1.0, 1.0),
        bar_row(2000, "NQ", 2.0, 2.0, 2.0, 2.0),
        bar_row(3000, "ES", 3.0, 3.0, 3.0, 3.0),
    ];
    let table = Table::new(bar_columns(), rows).expect("widths match");
    let repo = BarsRepository::new("sample".to_string(), Some(table));
    let es = repo.load_bars(Some("ES"), None, None).expect("load");
    assert_eq!(es.len(), 2);
    let nq = repo.load_bars(Some("NQ"), None, None).expect("load");
    assert_eq!(nq.len(), 1);
    assert_eq!(nq[0].open, bits(2.0));
    // An unknown contract filters everything out without an error.
    let none = repo.load_bars(Some("CL"), None, None).expect("load");
    assert!(none.is_empty());
}

#[test]
fn rows_with_missing_values_are_skipped() {
    let mut incomplete = bar_row(1000, "ES", 1.0, 1.0, 1.0, 1.0);
    incomplete.fields[2] = None;
    let no_timestamp = SourceRow {
        timestamp_ms: None,
        contract: Some("ES".to_string()),
        fields: vec![Some(bits(9.0)), Some(bits(9.0)), Some(bits(9.0)), Some(bits(9.0))],
    };
    let complete = bar_row(2000, "ES", 2.0, 2.5, 1.5, 2.25);
    let table = Table::new(bar_columns(), vec![incomplete, no_timestamp, complete])
        .expect("widths match");
    let repo = BarsRepository::new("sample".to_string(), Some(table));
    let bars = repo.load_bars(None, None, None).expect("load");
    assert_eq!(bars.len(), 1);
    assert_eq!(bars[0].time, 2);
    assert_eq!(bars[0].close, bits(2.25));
}

#[test]
fn missing_price_column_is_a_column_read_failure() {
    let names = vec!["open".to_string(), "high".to_string(), "low".to_string()];
    let rows = vec![SourceRow {
        timestamp_ms: Some(1000),
        contract: Some("ES".to_string()),
        fields: vec![Some(bits(1.0)), Some(bits(1.0)), Some(bits(1.0))],
    }];
    let table = Table::new(names, rows).expect("widths match");
    let repo = BarsRepository::new("sample".to_string(), Some(table));
    let err = repo.load_bars(None, None, None).expect_err("must fail");
    match &err {
        QueryError::ColumnReadFailure { column } => assert_eq!(column, "close"),
        other => panic!("unexpected error {:?}", other),
    }
    assert!(err.message().contains("close"));
}

#[test]
fn unavailable_source_reports_its_path() {
    let repo = BarsRepository::new("data/bars".to_string(), None);
    let err = repo.load_bars(None, None, None).expect_err("must fail");
    match &err {
        QueryError::SourceUnavailable { path } => assert_eq!(path, "data/bars"),
        other => panic!("unexpected error {:?}", other),
    }
    assert!(err.message().contains("data/bars"));
    // Date validation still comes first.
    let err2 = repo.load_bars(None, Some("10/24/2024"), None).expect_err("must fail");
    assert!(matches!(err2, QueryError::InvalidDate { .. }));
}

#[test]
fn identical_queries_give_identical_results() {
    let repository = sample_repository();
    let a = repository
        .load_bars(Some("ES"), Some("2024-10-24"), Some("2024-10-24"))
        .expect("load");
    let b = repository
        .load_bars(Some("ES"), Some("2024-10-24"), Some("2024-10-24"))
        .expect("load");
    assert_eq!(a, b);
    let sa = repository.load_series(None, None, None).expect("load");
    let sb = repository.load_series(None, None, None).expect("load");
    assert_eq!(sa, sb);
}

#[test]
fn negative_timestamps_truncate_toward_zero() {
    let rows = vec![
        bar_row(-1500, "ES", 1.0, 1.0, 1.0, 1.0),
        bar_row(1500, "ES", 2.0, 2.0, 2.0, 2.0),
    ];
    let table = Table::new(bar_columns(), rows).expect("widths match");
    let repo = BarsRepository::new("sample".to_string(), Some(table));
    let bars = repo.load_bars(None, None, None).expect("load");
    assert_eq!(bars[0].time, -1);
    assert_eq!(bars[1].time, 1);
}

fn series_columns() -> Vec<String> {
    vec![
        "open".to_string(),
        "vwap".to_string(),
        "rsi_14_ema".to_string(),
        "atr_14".to_string(),
    ]
}

fn series_row(ts_ms: i64, vwap: Option<f64>, rsi: Option<f64>, atr: Option<f64>) -> SourceRow {
    SourceRow {
        timestamp_ms: Some(ts_ms),
        contract: Some("ES".to_string()),
        fields: vec![
            Some(bits(1.0)),
            vwap.map(bits),
            rsi.map(bits),
            atr.map(bits),
        ],
    }
}

#[test]
fn absent_catalog_columns_are_skipped_silently() {
    let rows = vec![series_row(1000, Some(10.0), Some(50.0), Some(2.0))];
    let table = Table::new(series_columns(), rows).expect("widths match");
    let repo = BarsRepository::new("sample".to_string(), Some(table));
    let series = repo.load_series(None, None, None).expect("load");
    // Only three of the nine catalog columns exist in this source.
    assert_eq!(series.len(), 3);
    assert_eq!(series[0].id, "vwap");
    assert_eq!(series[1].id, "rsi_14_ema");
    assert_eq!(series[2].id, "atr_14");
}

#[test]
fn series_carry_label_kind_and_pane() {
    let rows = vec![series_row(1000, Some(10.0), Some(50.0), Some(2.0))];
    let table = Table::new(series_columns(), rows).expect("widths match");
    let repo = BarsRepository::new("sample".to_string(), Some(table));
    let series = repo.load_series(None, None, None).expect("load");
    assert_eq!(series[0].name, "VWAP");
    assert_eq!(series[0].pane, "price");
    assert_eq!(series[0].kind, "line");
    assert_eq!(series[1].name, "RSI 14 EMA");
    assert_eq!(series[1].pane, "rsi");
    assert_eq!(series[2].name, "ATR 14");
    assert_eq!(series[2].pane, "atr");
}

#[test]
fn nan_and_missing_samples_are_elided() {
    let rows = vec![
        series_row(1000, Some(10.0), Some(f64::NAN), None),
        series_row(2000, Some(11.0), Some(60.0), Some(2.0)),
    ];
    let table = Table::new(series_columns(), rows).expect("widths match");
    let repo = BarsRepository::new("sample".to_string(), Some(table));
    let series = repo.load_series(None, None, None).expect("load");
    let vwap = &series[0];
    assert_eq!(vwap.data.len(), 2);
    let rsi = &series[1];
    assert_eq!(rsi.data.len(), 1);
    assert_eq!(rsi.data[0].time, 2);
    assert_eq!(rsi.data[0].value, bits(60.0));
    let atr = &series[2];
    assert_eq!(atr.data.len(), 1);
}

#[test]
fn series_respect_the_date_window_and_errors() {
    let rows = vec![
        series_row(1729727999999, Some(1.0), None, None),
        series_row(1729728000000, Some(2.0), None, None),
        series_row(1729814400000, Some(3.0), None, None),
    ];
    let table = Table::new(series_columns(), rows).expect("widths match");
    let repo = BarsRepository::new("sample".to_string(), Some(table));
    let series = repo
        .load_series(None, Some("2024-10-24"), Some("2024-10-24"))
        .expect("load");
    assert_eq!(series[0].data.len(), 1);
    assert_eq!(series[0].data[0].value, bits(2.0));
    let err = repo.load_series(None, None, Some("2024-02-30")).expect_err("must fail");
    assert!(matches!(err, QueryError::InvalidDate { .. }));
}

#[test]
fn nan_bit_patterns_are_recognised() {
    assert!(bits_are_nan(f64::NAN.to_bits()));
    assert!(!bits_are_nan(1.5f64.to_bits()));
    assert!(!bits_are_nan(0.0f64.to_bits()));
    assert!(!bits_are_nan(f64::INFINITY.to_bits()));
    assert!(!bits_are_nan(f64::NEG_INFINITY.to_bits()));
}

#[test]
fn table_rejects_mismatched_row_widths() {
    let names = bar_columns();
    let rows = vec![SourceRow {
        timestamp_ms: Some(1000),
        contract: None,
        fields: vec![Some(1), Some(2)],
    }];
    assert!(Table::new(names, rows).is_none());
}

#[test]
fn rows_without_contract_never_match_a_filter() {
    let mut row = bar_row(1000, "ES", 1.0, 1.0, 1.0, 1.0);
    row.contract = None;
    let table = Table::new(bar_columns(), vec![row]).expect("widths match");
    let repo = BarsRepository::new("sample".to_string(), Some(table));
    assert!(repo.load_bars(Some("ES"), None, None).expect("load").is_empty());
    assert_eq!(repo.load_bars(None, None, None).expect("load").len(), 1);
}
