//! Records and the chronological series they form.

use vstd::prelude::*;

verus! {

/// Number of price units in one unit of currency.
pub const PRICE_SCALE: i64 = 1_000_000;

/// One trading interval.
///
/// `timestamp` counts seconds since the Unix epoch, UTC. Prices are
/// fixed-point, in units of `1 / PRICE_SCALE`. Nothing relates the four
/// prices to each other: a record whose `low` exceeds its `high` is kept as
/// it is.
#[derive(Clone, Copy, Debug, PartialEq, Eq)]
pub struct Record {
    pub timestamp: i64,
    pub open: i64,
    pub high: i64,
    pub low: i64,
    pub close: i64,
    pub volume: u64,
}

/// No record is followed by an earlier one.
pub open spec fn is_chronological(s: Seq<Record>) -> bool {
    forall|i: int, j: int| 0 <= i <= j < s.len() ==> s[i].timestamp <= s[j].timestamp
}

/// The records of `s` that carry the timestamp `t`, in the order they have
/// in `s`.
pub open spec fn at_instant(s: Seq<Record>, t: int) -> Seq<Record> {
    s.filter(|r: Record| r.timestamp == t)
}

/// `sorted` holds the records of `rows` in chronological order, and records
/// of equal timestamp in the order they have in `rows`.
pub open spec fn is_stable_ordering(rows: Seq<Record>, sorted: Seq<Record>) -> bool {
    &&& is_chronological(sorted)
    &&& sorted.len() == rows.len()
    &&& forall|t: int| #[trigger] at_instant(sorted, t) == at_instant(rows, t)
}

/// Putting `r` at position `p` of a chronological sequence, behind every
/// record that is not later than `r` and before every later one, keeps the
/// sequence chronological and changes each instant's records as appending
/// `r` would.
proof fn lemma_insert_in_order(s: Seq<Record>, p: int, r: Record)
    requires
        is_chronological(s),
        0 <= p <= s.len(),
        forall|k: int| 0 <= k < p ==> s[k].timestamp <= r.timestamp,
        forall|k: int| p <= k < s.len() ==> s[k].timestamp > r.timestamp,
    ensures
        is_chronological(s.insert(p, r)),
        forall|t: int| #[trigger] at_instant(s.insert(p, r), t) == at_instant(s.push(r), t),
{
    let head = s.subrange(0, p);
    let tail = s.subrange(p, s.len() as int);
    let one = seq![r];
    assert(s.insert(p, r) =~= head + one + tail);
    assert(s.push(r) =~= head + tail + one);
    assert forall|t: int| #[trigger] at_instant(s.insert(p, r), t) == at_instant(s.push(r), t) by {
        let pred = |x: Record| x.timestamp == t;
        Seq::filter_distributes_over_add(head + one, tail, pred);
        Seq::filter_distributes_over_add(head, one, pred);
        Seq::filter_distributes_over_add(head + tail, one, pred);
        Seq::filter_distributes_over_add(head, tail, pred);
        if t == r.timestamp {
            assert(tail.all(|x: Record| !pred(x)));
            tail.lemma_all_neg_filter_empty(pred);
            assert(tail.filter(pred) =~= Seq::<Record>::empty());
            assert(head.filter(pred) + one.filter(pred) + tail.filter(pred) =~= head.filter(pred)
                + tail.filter(pred) + one.filter(pred));
        } else {
            assert(one.all(|x: Record| !pred(x)));
            one.lemma_all_neg_filter_empty(pred);
            assert(one.filter(pred) =~= Seq::<Record>::empty());
            assert(head.filter(pred) + one.filter(pred) + tail.filter(pred) =~= head.filter(pred)
                + tail.filter(pred) + one.filter(pred));
        }
    }
}

/// Appending the same record to two sequences that agree at every instant
/// leaves them in agreement.
proof fn lemma_push_keeps_agreement(a: Seq<Record>, b: Seq<Record>, r: Record)
    requires
        forall|t: int| #[trigger] at_instant(a, t) == at_instant(b, t),
    ensures
        forall|t: int| #[trigger] at_instant(a.push(r), t) == at_instant(b.push(r), t),
{
    assert forall|t: int| #[trigger] at_instant(a.push(r), t) == at_instant(b.push(r), t) by {
        let pred = |x: Record| x.timestamp == t;
        assert(at_instant(a, t) == at_instant(b, t));
        assert(a.push(r) =~= a + seq![r]);
        assert(b.push(r) =~= b + seq![r]);
        Seq::filter_distributes_over_add(a, seq![r], pred);
        Seq::filter_distributes_over_add(b, seq![r], pred);
    }
}

/// The last record of a sequence is the last of the records at its
/// instant, and the records before it are, at every instant, what is left
/// of the sequence's.
proof fn lemma_last_at_instant(s: Seq<Record>)
    requires
        s.len() > 0,
    ensures
        at_instant(s, s.last().timestamp as int) == at_instant(
            s.drop_last(),
            s.last().timestamp as int,
        ).push(s.last()),
        forall|t: int|
            t != s.last().timestamp ==> #[trigger] at_instant(s, t) == at_instant(s.drop_last(), t),
{
    assert(s =~= s.drop_last().push(s.last()));
    assert forall|t: int| true implies #[trigger] at_instant(s, t) == (if t == s.last().timestamp {
        at_instant(s.drop_last(), t).push(s.last())
    } else {
        at_instant(s.drop_last(), t)
    }) by {
        s.drop_last().lemma_filter_push(s.last(), |r: Record| r.timestamp == t);
    }
}

/// A chronological sequence has no record at an instant after its last
/// record's.
proof fn lemma_nothing_after_last(s: Seq<Record>, t: int)
    requires
        is_chronological(s),
        s.len() > 0,
        t > s.last().timestamp,
    ensures
        at_instant(s, t).len() == 0,
{
    let pred = |r: Record| r.timestamp == t;
    if at_instant(s, t).len() > 0 {
        let x = at_instant(s, t)[0];
        s.lemma_filter_pred(pred, 0);
        assert(at_instant(s, t).contains(x));
        s.lemma_filter_contains_rev(pred, x);
        let k = choose|k: int| 0 <= k < s.len() && s[k] == x;
        assert(s[k].timestamp <= s[s.len() - 1].timestamp);
    }
}

/// Two chronological sequences that hold the same records at every
/// instant, in the same order, are one sequence.
pub proof fn lemma_chronological_unique(a: Seq<Record>, b: Seq<Record>)
    requires
        is_chronological(a),
        is_chronological(b),
        a.len() == b.len(),
        forall|t: int| #[trigger] at_instant(a, t) == at_instant(b, t),
    ensures
        a == b,
    decreases a.len(),
{
    if a.len() == 0 {
        assert(a =~= b);
    } else {
        let x = a.last();
        let y = b.last();
        let t = x.timestamp as int;
        let u = y.timestamp as int;
        lemma_last_at_instant(a);
        lemma_last_at_instant(b);
        assert(at_instant(a, t) == at_instant(b, t));
        assert(at_instant(a, u) == at_instant(b, u));
        if t < u {
            lemma_nothing_after_last(a, u);
            assert(at_instant(b, u).len() > 0);
        } else if u < t {
            lemma_nothing_after_last(b, t);
            assert(at_instant(a, t).len() > 0);
        }
        assert(t == u);
        assert(at_instant(a, t).last() == x);
        assert(at_instant(b, t).last() == y);
        let a0 = a.drop_last();
        let b0 = b.drop_last();
        assert forall|w: int| #[trigger] at_instant(a0, w) == at_instant(b0, w) by {
            assert(at_instant(a, w) == at_instant(b, w));
            if w == t {
                assert(at_instant(a0, w) =~= at_instant(a0, w).push(x).drop_last());
                assert(at_instant(b0, w) =~= at_instant(b0, w).push(y).drop_last());
            }
        }
        lemma_chronological_unique(a0, b0);
        assert(a =~= a0.push(x));
        assert(b =~= b0.push(y));
    }
}

/// There is one stable ordering of a sequence of rows.
pub proof fn lemma_stable_ordering_unique(rows: Seq<Record>, a: Seq<Record>, b: Seq<Record>)
    requires
        is_stable_ordering(rows, a),
        is_stable_ordering(rows, b),
    ensures
        a == b,
{
    assert forall|t: int| #[trigger] at_instant(a, t) == at_instant(b, t) by {
        assert(at_instant(a, t) == at_instant(rows, t));
        assert(at_instant(b, t) == at_instant(rows, t));
    }
    lemma_chronological_unique(a, b);
}

/// A stable ordering holds the records of the rows and no others.
pub proof fn lemma_stable_ordering_keeps_records(rows: Seq<Record>, sorted: Seq<Record>, r: Record)
    requires
        is_stable_ordering(rows, sorted),
    ensures
        sorted.contains(r) <==> rows.contains(r),
{
    let t = r.timestamp as int;
    let pred = |x: Record| x.timestamp == t;
    assert(at_instant(sorted, t) == at_instant(rows, t));
    if rows.contains(r) {
        let i = choose|i: int| 0 <= i < rows.len() && rows[i] == r;
        rows.lemma_filter_contains(pred, i);
        sorted.lemma_filter_contains_rev(pred, r);
    }
    if sorted.contains(r) {
        let i = choose|i: int| 0 <= i < sorted.len() && sorted[i] == r;
        sorted.lemma_filter_contains(pred, i);
        rows.lemma_filter_contains_rev(pred, r);
    }
}

/// Rows that are in chronological order already are their own stable
/// ordering.
pub proof fn lemma_chronological_is_ordered(rows: Seq<Record>)
    requires
        is_chronological(rows),
    ensures
        is_stable_ordering(rows, rows),
{
}

/// A full history of records in chronological order.
#[derive(Debug, PartialEq, Eq)]
pub struct Series {
    records: Vec<Record>,
}

impl View for Series {
    type V = Seq<Record>;

    closed spec fn view(&self) -> Seq<Record> {
        self.records@
    }
}

impl Clone for Series {
    fn clone(&self) -> (copy: Series)
        ensures
            copy@ == self@,
    {
        proof {
            use_type_invariant(self);
        }
        let records = self.records.clone();
        assert(records@ =~= self.records@);
        Series { records }
    }
}

impl Series {
    #[verifier::type_invariant]
    closed spec fn chronological(&self) -> bool {
        is_chronological(self.records@)
    }

    /// The series without records.
    pub fn empty() -> (series: Series)
        ensures
            series@ == Seq::<Record>::empty(),
    {
        Series { records: Vec::new() }
    }

    /// Orders `rows` by timestamp. Rows of equal timestamp keep the order
    /// in which they were given.
    pub fn from_rows(rows: Vec<Record>) -> (series: Series)
        ensures
            is_stable_ordering(rows@, series@),
    {
        let mut sorted: Vec<Record> = Vec::new();
        let mut i: usize = 0;
        while i < rows.len()
            invariant
                i <= rows.len(),
                sorted.len() == i,
                is_chronological(sorted@),
                forall|t: int| #[trigger] at_instant(sorted@, t) == at_instant(rows@.take(i as int), t),
            decreases rows.len() - i,
        {
            let r = rows[i];
            let mut p: usize = sorted.len();
            while p > 0 && sorted[p - 1].timestamp > r.timestamp
                invariant
                    p <= sorted.len(),
                    forall|k: int| p <= k < sorted.len() ==> sorted[k].timestamp > r.timestamp,
                decreases p,
            {
                p = p - 1;
            }
            proof {
                lemma_insert_in_order(sorted@, p as int, r);
                lemma_push_keeps_agreement(sorted@, rows@.take(i as int), r);
                assert(rows@.take(i as int).push(r) =~= rows@.take(i + 1));
            }
            sorted.insert(p, r);
            i = i + 1;
        }
        assert(rows@.take(i as int) =~= rows@);
        Series { records: sorted }
    }

    /// Number of records.
    pub fn len(&self) -> (n: usize)
        ensures
            n == self@.len(),
    {
        self.records.len()
    }

    /// The records, oldest first.
    pub fn records(&self) -> (records: &Vec<Record>)
        ensures
            records@ == self@,
            is_chronological(self@),
    {
        proof {
            use_type_invariant(self);
        }
        &self.records
    }
}

} // verus!
