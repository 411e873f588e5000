//! Mapping between horizontal pixel positions and record indices.
//!
//! The plot region `[left, right]` is divided into `count` columns of equal
//! width, one per displayed record.

use vstd::prelude::*;

verus! {

/// A pointer position on the render surface, in device units.
#[derive(Clone, Copy, Debug, PartialEq, Eq)]
pub struct Point {
    pub x: i32,
    pub y: i32,
}

/// The column that position `x` falls into when `[left, right]` is divided
/// into `count` equal columns, or `None` when `x` lies outside the region or
/// there is no column at all.
///
/// The right edge itself belongs to the last column, and a region of zero
/// width has all of its columns at its single position, of which the first
/// is taken.
pub open spec fn column_at(x: int, left: int, right: int, count: nat) -> Option<int> {
    if count == 0 || x < left || right < x {
        None
    } else if left == right {
        Some(0)
    } else {
        let raw = ((x - left) * count) / (right - left);
        if raw < count {
            Some(raw)
        } else {
            Some(count - 1)
        }
    }
}

/// Maps the horizontal position `x` to the index of the record drawn there.
pub fn pixel_to_index(x: i32, plot_left: i32, plot_right: i32, count: usize) -> (index: Option<
    usize,
>)
    ensures
        index is None <==> (count == 0 || x < plot_left || plot_right < x),
        index matches Some(i) ==> i < count && column_at(
            x as int,
            plot_left as int,
            plot_right as int,
            count as nat,
        ) == Some(i as int),
        index is None ==> column_at(x as int, plot_left as int, plot_right as int, count as nat)
            is None,
{
    if count == 0 || x < plot_left || plot_right < x {
        return None;
    }
    if plot_left == plot_right {
        return Some(0);
    }
    let offset: u128 = (x as i64 - plot_left as i64) as u128;
    let width: u128 = (plot_right as i64 - plot_left as i64) as u128;
    assert(offset * count <= 0x1_0000_0000 * 0x1_0000_0000_0000_0000) by (nonlinear_arith)
        requires
            offset <= 0x1_0000_0000,
            count <= 0x1_0000_0000_0000_0000,
    ;
    let raw: u128 = offset * (count as u128) / width;
    if raw < count as u128 {
        Some(raw as usize)
    } else {
        Some(count - 1)
    }
}

/// The position of the centre of column `index` when `[left, right]` is
/// divided into `count` equal columns, or `None` when there is no such
/// column or the region is empty.
pub open spec fn column_center(index: int, left: int, right: int, count: nat) -> Option<int> {
    if 0 <= index < count && left <= right {
        Some(left + ((2 * index + 1) * (right - left)) / (2 * count as int))
    } else {
        None
    }
}

/// Maps a record index to the horizontal position of the centre of its
/// column.
pub fn index_to_x(index: usize, plot_left: i32, plot_right: i32, count: usize) -> (x: Option<i32>)
    ensures
        x is Some <==> (index < count && plot_left <= plot_right),
        x matches Some(c) ==> plot_left <= c <= plot_right && column_center(
            index as int,
            plot_left as int,
            plot_right as int,
            count as nat,
        ) == Some(c as int),
{
    if index >= count || plot_right < plot_left {
        return None;
    }
    let width: u128 = (plot_right as i64 - plot_left as i64) as u128;
    let twice: u128 = 2 * (index as u128) + 1;
    let columns: u128 = 2 * (count as u128);
    assert(twice * width <= columns * width && columns * width <= 0x2_0000_0000_0000_0000
        * 0x1_0000_0000) by (nonlinear_arith)
        requires
            twice <= columns,
            columns <= 0x2_0000_0000_0000_0000,
            width <= 0x1_0000_0000,
    ;
    let offset: u128 = twice * width / columns;
    assert(offset <= width) by (nonlinear_arith)
        requires
            offset == (twice * width) / (columns as int),
            twice * width <= columns * width,
            columns > 0,
    ;
    Some((plot_left as i64 + offset as i64) as i32)
}

/// Squared distance between two positions.
pub open spec fn distance_squared(a: Point, b: Point) -> int {
    (b.x - a.x) * (b.x - a.x) + (b.y - a.y) * (b.y - a.y)
}

/// Whether the pointer, last seen at `from`, has moved to `to` by more than
/// `threshold` device units in a straight line.
pub fn moved_beyond(from: Point, to: Point, threshold: u32) -> (moved: bool)
    ensures
        moved == (distance_squared(from, to) > threshold * threshold),
{
    let dx: i128 = to.x as i128 - from.x as i128;
    let dy: i128 = to.y as i128 - from.y as i128;
    let limit: i128 = threshold as i128;
    assert(0 <= dx * dx <= 0x1_0000_0000 * 0x1_0000_0000) by (nonlinear_arith)
        requires
            -0x1_0000_0000 <= dx <= 0x1_0000_0000,
    ;
    assert(0 <= dy * dy <= 0x1_0000_0000 * 0x1_0000_0000) by (nonlinear_arith)
        requires
            -0x1_0000_0000 <= dy <= 0x1_0000_0000,
    ;
    assert(0 <= limit * limit <= 0x1_0000_0000 * 0x1_0000_0000) by (nonlinear_arith)
        requires
            0 <= limit <= 0x1_0000_0000,
    ;
    dx * dx + dy * dy > limit * limit
}

/// A position selects a column exactly when there is a column and the
/// position lies in the region, and the column it selects is one of the
/// `count` columns.
pub proof fn lemma_column_in_range(x: int, left: int, right: int, count: nat)
    ensures
        column_at(x, left, right, count) is None <==> (count == 0 || x < left || right < x),
        column_at(x, left, right, count) matches Some(i) ==> 0 <= i < count,
{
    if count > 0 && left <= x <= right && left < right {
        let width = right - left;
        assert(0 <= (x - left) * count) by (nonlinear_arith)
            requires
                0 <= x - left,
                0 < count,
        ;
        assert(0 <= ((x - left) * count) / width) by (nonlinear_arith)
            requires
                0 <= (x - left) * count,
                0 < width,
        ;
    }
}

/// The left edge of the region selects the first column.
pub proof fn lemma_left_edge_selects_first(left: int, right: int, count: nat)
    requires
        count >= 1,
        left <= right,
    ensures
        column_at(left, left, right, count) == Some(0int),
{
    if left < right {
        assert((left - left) * count == 0) by (nonlinear_arith);
        assert(0int / (right - left) == 0) by (nonlinear_arith)
            requires
                right - left > 0,
        ;
    }
}

/// Every position within one column's width of the right edge selects the
/// last column.
pub proof fn lemma_right_edge_selects_last(x: int, left: int, right: int, count: nat)
    requires
        count >= 1,
        left < right,
        left <= x <= right,
        (right - x) * count <= right - left,
    ensures
        column_at(x, left, right, count) == Some(count - 1),
{
    let width = right - left;
    assert(((x - left) * count) / width >= count - 1) by (nonlinear_arith)
        requires
            width > 0,
            count >= 1,
            width == right - left,
            (right - x) * count <= width,
    {
        assert((x - left) * count == width * count - (right - x) * count);
        assert((x - left) * count >= width * (count - 1));
        assert((width * (count - 1)) / width == count - 1);
    }
}

/// A position further right never selects a column further left.
pub proof fn lemma_column_monotonic(x1: int, x2: int, left: int, right: int, count: nat)
    requires
        left <= x1 <= x2 <= right,
        count >= 1,
    ensures
        column_at(x1, left, right, count)->0 <= column_at(x2, left, right, count)->0,
{
    if left < right {
        let width = right - left;
        assert(((x1 - left) * count) / width <= ((x2 - left) * count) / width) by (nonlinear_arith)
            requires
                width > 0,
                0 <= x1 - left <= x2 - left,
                count >= 1,
        {
            assert((x1 - left) * count <= (x2 - left) * count);
        }
    }
}

/// Where every column is at least two units wide, the centre of a column
/// selects that column.
pub proof fn lemma_center_selects_column(index: int, left: int, right: int, count: nat)
    requires
        0 <= index < count,
        2 * count <= right - left,
    ensures
        column_center(index, left, right, count) matches Some(c) && left <= c <= right
            && column_at(c, left, right, count) == Some(index),
{
    let width = right - left;
    let n = count as int;
    let offset = ((2 * index + 1) * width) / (2 * n);
    assert(0 <= offset <= width && index * width <= offset * n < (index + 1) * width)
        by (nonlinear_arith)
        requires
            0 <= index < n,
            2 * n <= width,
            offset == ((2 * index + 1) * width) / (2 * n),
    {
        let numerator = (2 * index + 1) * width;
        assert(numerator == (2 * n) * offset + numerator % (2 * n));
        assert(0 <= numerator % (2 * n) < 2 * n);
        assert(2 * n * offset <= numerator);
        assert(2 * n * offset > numerator - 2 * n);
    }
    assert((offset * n) / width == index) by (nonlinear_arith)
        requires
            width > 0,
            index * width <= offset * n < (index + 1) * width,
    ;
}

/// In a region of even width, the position half way across selects column
/// `count / 2`.
pub proof fn lemma_midpoint_selects_middle(left: int, half: int, count: nat)
    requires
        count >= 1,
        half >= 1,
    ensures
        column_at(left + half, left, left + 2 * half, count) == Some(count as int / 2),
{
    let n = count as int;
    let middle = n / 2;
    assert((half * n) / (2 * half) == middle) by (nonlinear_arith)
        requires
            half >= 1,
            n >= 1,
            middle == n / 2,
    {
        assert(n == 2 * middle + n % 2);
        assert(half * n == (2 * half) * middle + half * (n % 2));
        assert(0 <= half * (n % 2) < 2 * half);
    }
    assert(left + half - left == half);
    assert(left + 2 * half - left == 2 * half);
}

} // verus!
