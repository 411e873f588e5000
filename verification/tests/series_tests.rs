use stock_chart::series::{Record, Series};
use stock_chart::window::{filter_window, DisplayedWindow};

fn record(timestamp: i64, volume: u64) -> Record {
    Record { timestamp, open: 1, high: 2, low: 0, close: 1, volume }
}

fn volumes(records: &Vec<Record>) -> Vec<u64> {
    records.iter().map(|r| r.volume).collect()
}

#[test]
fn empty_series_has_no_records() {
    assert_eq!(Series::empty().len(), 0);
    assert_eq!(Series::from_rows(vec![]).len(), 0);
    assert_eq!(Series::empty(), Series::from_rows(Vec::new()));
}

#[test]
fn series_orders_its_rows() {
    let series = Series::from_rows(vec![record(30, 1), record(10, 2), record(20, 3)]);
    assert_eq!(volumes(series.records()), vec![2, 3, 1]);
    assert_eq!(series.len(), 3);
}

#[test]
fn series_keeps_ordered_rows_as_they_are() {
    let rows = vec![record(-5, 1), record(0, 2), record(0, 3), record(7, 4)];
    let series = Series::from_rows(rows.clone());
    assert_eq!(series.records(), &rows);
}

#[test]
fn series_is_sorted_whatever_the_order_of_the_rows() {
    let stamps = [5i64, 3, 9, 3, 1, 9, 9, 0, -2, 5, i64::MAX, i64::MIN, 3];
    let rows: Vec<Record> =
        stamps.iter().enumerate().map(|(i, t)| record(*t, i as u64)).collect();
    let series = Series::from_rows(rows.clone());
    let sorted = series.records();
    assert_eq!(sorted.len(), rows.len());
    for pair in sorted.windows(2) {
        assert!(pair[0].timestamp <= pair[1].timestamp);
        if pair[0].timestamp == pair[1].timestamp {
            assert!(pair[0].volume < pair[1].volume);
        }
    }
    let mut expected = rows;
    expected.sort_by_key(|r| r.timestamp);
    assert_eq!(sorted, &expected);
}

#[test]
fn series_in_reverse_order_is_turned_round() {
    let rows: Vec<Record> = (0..50).rev().map(|t| record(t, t as u64)).collect();
    let series = Series::from_rows(rows);
    assert_eq!(volumes(series.records()), (0..50).collect::<Vec<u64>>());
}

#[test]
fn clone_of_a_series_holds_the_same_records() {
    let series = Series::from_rows(vec![record(2, 1), record(1, 2)]);
    assert_eq!(series.clone(), series);
}

#[test]
fn window_keeps_the_recent_records() {
    let series = Series::from_rows(vec![record(100, 1), record(200, 2), record(300, 3)]);
    assert_eq!(volumes(filter_window(&series, 300, 100).records()), vec![2, 3]);
    assert_eq!(volumes(filter_window(&series, 300, 99).records()), vec![3]);
    assert_eq!(volumes(filter_window(&series, 300, 200).records()), vec![1, 2, 3]);
    assert_eq!(volumes(filter_window(&series, 300, 0).records()), vec![3]);
}

#[test]
fn window_keeps_records_after_the_instant() {
    let series = Series::from_rows(vec![record(100, 1), record(200, 2), record(300, 3)]);
    assert_eq!(volumes(filter_window(&series, 150, 10).records()), vec![2, 3]);
}

#[test]
fn window_is_empty_when_no_record_is_recent() {
    let series = Series::from_rows(vec![record(100, 1), record(200, 2)]);
    let shown = filter_window(&series, 1_000, 100);
    assert_eq!(shown.len(), 0);
    assert_eq!(shown, DisplayedWindow::empty());
    assert_eq!(filter_window(&Series::empty(), 0, 0).len(), 0);
}

#[test]
fn window_of_a_window_is_the_window() {
    let series = Series::from_rows((0..100).map(|t| record(t * 10, t as u64)).collect());
    let once = filter_window(&series, 900, 250);
    let again = filter_window(&Series::from_rows(once.records().clone()), 900, 250);
    assert_eq!(once.records(), again.records());
    assert_eq!(once.len(), 35);
    assert!(once.records().iter().all(|r| r.timestamp >= 650));
}

#[test]
fn window_never_grows_the_series() {
    let series = Series::from_rows((0..20).map(|t| record(t, 0)).collect());
    for span in 0..30u64 {
        let shown = filter_window(&series, 19, span);
        assert!(shown.len() <= series.len());
        assert_eq!(shown.len() as u64, (span + 1).min(20));
    }
}

#[test]
fn window_at_the_limits_of_time() {
    let series = Series::from_rows(vec![record(i64::MIN, 1), record(0, 2), record(i64::MAX, 3)]);
    assert_eq!(filter_window(&series, i64::MIN, u64::MAX).len(), 3);
    assert_eq!(filter_window(&series, i64::MAX, u64::MAX).len(), 3);
    assert_eq!(filter_window(&series, i64::MAX, u64::MAX - 1).len(), 2);
    assert_eq!(filter_window(&series, i64::MAX, 0).len(), 1);
    assert_eq!(filter_window(&series, i64::MIN, 0).len(), 3);
    assert_eq!(filter_window(&series, 0, i64::MAX as u64 + 1).len(), 3);
    assert_eq!(filter_window(&series, 0, i64::MAX as u64).len(), 2);
}

#[test]
fn window_leaves_the_series_as_it_was() {
    let rows = vec![record(1, 1), record(2, 2), record(3, 3)];
    let series = Series::from_rows(rows.clone());
    let _ = filter_window(&series, 3, 1);
    assert_eq!(series.records(), &rows);
}
