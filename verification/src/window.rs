//! The displayed window: the recent part of a series.

use crate::series::{is_chronological, Record, Series};
use vstd::prelude::*;

verus! {

/// The records of `series` that are no older than `span` seconds at the
/// instant `as_of`, in the order they have in `series`.
pub open spec fn window_of(series: Seq<Record>, as_of: int, span: int) -> Seq<Record> {
    series.filter(|r: Record| r.timestamp >= as_of - span)
}

/// Filtering twice by one predicate keeps what filtering once keeps.
proof fn lemma_filter_twice(s: Seq<Record>, pred: spec_fn(Record) -> bool)
    ensures
        s.filter(pred).filter(pred) == s.filter(pred),
    decreases s.len(),
{
    reveal(Seq::filter);
    if s.len() > 0 {
        let rest = s.drop_last();
        lemma_filter_twice(rest, pred);
        if pred(s.last()) {
            rest.filter(pred).lemma_filter_push(s.last(), pred);
        }
    }
}

/// Taking the window of a window, as of the same instant and over the same
/// span, changes nothing.
pub proof fn lemma_window_idempotent(series: Seq<Record>, as_of: int, span: int)
    ensures
        window_of(window_of(series, as_of, span), as_of, span) == window_of(series, as_of, span),
{
    lemma_filter_twice(series, |r: Record| r.timestamp >= as_of - span);
}

/// A window holds no record older than `as_of - span` and no more records
/// than the series it is taken from.
pub proof fn lemma_window_recent(series: Seq<Record>, as_of: int, span: int)
    ensures
        window_of(series, as_of, span).len() <= series.len(),
        forall|i: int|
            0 <= i < window_of(series, as_of, span).len() ==> (#[trigger] window_of(
                series,
                as_of,
                span,
            )[i]).timestamp >= as_of - span,
{
    let pred = |r: Record| r.timestamp >= as_of - span;
    series.lemma_filter_len(pred);
    assert forall|i: int| 0 <= i < window_of(series, as_of, span).len() implies (
    #[trigger] window_of(series, as_of, span)[i]).timestamp >= as_of - span by {
        series.lemma_filter_pred(pred, i);
    }
}

/// The window of a chronological series is the end of the series: the
/// records from the first that is recent enough on.
pub proof fn lemma_window_is_suffix(series: Seq<Record>, as_of: int, span: int)
    requires
        is_chronological(series),
    ensures
        window_of(series, as_of, span) == series.skip(
            series.len() - window_of(series, as_of, span).len(),
        ),
        is_chronological(window_of(series, as_of, span)),
    decreases series.len(),
{
    let pred = |r: Record| r.timestamp >= as_of - span;
    let shown = window_of(series, as_of, span);
    series.lemma_filter_len(pred);
    if series.len() == 0 {
        assert(shown =~= series.skip(0));
    } else {
        let rest = series.drop_last();
        let last = series.last();
        let before = window_of(rest, as_of, span);
        assert(series =~= rest.push(last));
        rest.lemma_filter_push(last, pred);
        rest.lemma_filter_len(pred);
        lemma_window_is_suffix(rest, as_of, span);
        if pred(last) {
            assert(shown =~= series.skip(series.len() - shown.len()));
        } else {
            if before.len() > 0 {
                let x = before[0];
                rest.lemma_filter_pred(pred, 0);
                assert(before.contains(x));
                rest.lemma_filter_contains_rev(pred, x);
                let k = choose|k: int| 0 <= k < rest.len() && rest[k] == x;
                assert(series[k].timestamp <= series[series.len() - 1].timestamp);
            }
            assert(shown =~= series.skip(series.len() - shown.len()));
        }
    }
    let from = series.len() - shown.len();
    assert forall|i: int, j: int| 0 <= i <= j < shown.len() implies shown[i].timestamp
        <= shown[j].timestamp by {
        assert(shown[i] == series[from + i]);
        assert(shown[j] == series[from + j]);
    }
}

/// The part of a series that is on display, oldest record first.
#[derive(Debug, PartialEq, Eq)]
pub struct DisplayedWindow {
    records: Vec<Record>,
}

impl View for DisplayedWindow {
    type V = Seq<Record>;

    closed spec fn view(&self) -> Seq<Record> {
        self.records@
    }
}

impl Clone for DisplayedWindow {
    fn clone(&self) -> (copy: DisplayedWindow)
        ensures
            copy@ == self@,
    {
        proof {
            use_type_invariant(self);
        }
        let records = self.records.clone();
        assert(records@ =~= self.records@);
        DisplayedWindow { records }
    }
}

impl DisplayedWindow {
    #[verifier::type_invariant]
    closed spec fn chronological(&self) -> bool {
        is_chronological(self.records@)
    }

    /// The window that shows nothing.
    pub fn empty() -> (window: DisplayedWindow)
        ensures
            window@ == Seq::<Record>::empty(),
    {
        DisplayedWindow { records: Vec::new() }
    }

    /// Number of records on display.
    pub fn len(&self) -> (n: usize)
        ensures
            n == self@.len(),
    {
        self.records.len()
    }

    /// The records on display, oldest first.
    pub fn records(&self) -> (records: &Vec<Record>)
        ensures
            records@ == self@,
            is_chronological(self@),
    {
        proof {
            use_type_invariant(self);
        }
        &self.records
    }
}

/// Derives the displayed window: the records of `series` whose timestamp is
/// at least `as_of - window`, where `window` is a span in seconds.
pub fn filter_window(series: &Series, as_of: i64, window: u64) -> (shown: DisplayedWindow)
    ensures
        shown@ == window_of(series@, as_of as int, window as int),
        is_chronological(shown@),
        shown@.len() <= series@.len(),
        forall|i: int| 0 <= i < shown@.len() ==> (#[trigger] shown@[i]).timestamp >= as_of - window,
{
    let source = series.records();
    let cutoff: i128 = as_of as i128 - window as i128;
    let ghost pred = |r: Record| r.timestamp >= as_of as int - window as int;
    let mut kept: Vec<Record> = Vec::new();
    let mut i: usize = 0;
    while i < source.len()
        invariant
            i <= source.len(),
            cutoff == as_of - window,
            pred == (|r: Record| r.timestamp >= as_of as int - window as int),
            kept@ == source@.take(i as int).filter(pred),
        decreases source.len() - i,
    {
        let r = source[i];
        proof {
            source@.take(i as int).lemma_filter_push(r, pred);
            assert(source@.take(i as int).push(r) =~= source@.take(i + 1));
        }
        if r.timestamp as i128 >= cutoff {
            kept.push(r);
        }
        i = i + 1;
    }
    proof {
        assert(source@.take(i as int) =~= source@);
        lemma_window_recent(series@, as_of as int, window as int);
        lemma_window_is_suffix(series@, as_of as int, window as int);
    }
    DisplayedWindow { records: kept }
}

} // verus!
