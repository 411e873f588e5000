//! The chart renderer: what a panel shows, as axis ranges and shapes in
//! data coordinates.
//!
//! Horizontally a shape is placed by record index, so that columns are
//! evenly spaced whatever the gaps between timestamps. Vertically it is
//! placed by value: price units in the price panel, shares in the volume
//! panel.

use crate::series::Record;
use crate::window::DisplayedWindow;
use vstd::prelude::*;

verus! {

/// Which panel is drawn.
#[derive(Clone, Copy, Debug, PartialEq, Eq, Structural)]
pub enum ChartKind {
    Price,
    Volume,
}

/// The colour of a shape, by what the shape stands for.
#[derive(Clone, Copy, Debug, PartialEq, Eq, Structural)]
pub enum Tone {
    /// A record that closed at or above its open.
    Up,
    /// A record that closed below its open.
    Down,
    /// The crosshair.
    Overlay,
}

/// How a shape is painted. `opacity` is in percent.
#[derive(Clone, Copy, Debug, PartialEq, Eq, Structural)]
pub struct Style {
    pub tone: Tone,
    pub opacity: u8,
}

/// A drawing primitive.
#[derive(Clone, Copy, Debug, PartialEq, Eq, Structural)]
pub enum Shape {
    /// A candlestick centred on `index`: the body spans `open` to `close`,
    /// the wick `low` to `high`. `width` is in device units.
    Candle { index: usize, open: i128, high: i128, low: i128, close: i128, width: u32, style: Style },
    /// A bar centred on `index` that rises from 0 to `height` and reaches
    /// `half_width` thousandths of a column to either side.
    Bar { index: usize, half_width: u32, height: i128, style: Style },
    /// A straight line from `(x0, y0)` to `(x1, y1)`.
    Segment { x0: usize, y0: i128, x1: usize, y1: i128, style: Style },
    /// A filled circle at `(x, y)`. `radius` is in device units.
    Marker { x: usize, y: i128, radius: u32, style: Style },
}

/// Width of a candlestick.
pub const CANDLE_WIDTH: u32 = 10;

/// Half the width of a volume bar, in thousandths of a column.
pub const BAR_HALF_WIDTH: u32 = 400;

/// Opacity of a volume bar.
pub const BAR_OPACITY: u8 = 50;

/// Opacity of the crosshair.
pub const CROSSHAIR_OPACITY: u8 = 60;

/// Radius of the marker where the crosshair lines meet.
pub const MARKER_RADIUS: u32 = 2;

/// Upper end of both axes of the placeholder.
pub const PLACEHOLDER_EXTENT: usize = 10;

/// What a panel shows.
#[derive(Clone, Debug, PartialEq, Eq)]
pub struct Frame {
    /// Whether this is the placeholder that stands for "nothing to show".
    pub placeholder: bool,
    /// The horizontal axis spans `0` to `x_max`.
    pub x_max: usize,
    /// The vertical axis spans `y_min` to `y_max`.
    pub y_min: i128,
    pub y_max: i128,
    /// The shapes, in drawing order.
    pub shapes: Vec<Shape>,
}

/// A frame, with its shapes as a sequence.
pub struct FrameView {
    pub placeholder: bool,
    pub x_max: usize,
    pub y_min: i128,
    pub y_max: i128,
    pub shapes: Seq<Shape>,
}

impl View for Frame {
    type V = FrameView;

    open spec fn view(&self) -> FrameView {
        FrameView {
            placeholder: self.placeholder,
            x_max: self.x_max,
            y_min: self.y_min,
            y_max: self.y_max,
            shapes: self.shapes@,
        }
    }
}

/// An index as a position in a sequence.
pub open spec fn index_view(index: Option<usize>) -> Option<int> {
    match index {
        Some(i) => Some(i as int),
        None => None,
    }
}

/// The tone of a record: up when it closed at or above its open.
pub open spec fn tone_of(r: Record) -> Tone {
    if r.close >= r.open {
        Tone::Up
    } else {
        Tone::Down
    }
}

/// The least `low` of a sequence of records that is not empty.
pub open spec fn lowest(s: Seq<Record>) -> int
    decreases s.len(),
{
    if s.len() <= 1 {
        s[0].low as int
    } else if s.last().low < lowest(s.drop_last()) {
        s.last().low as int
    } else {
        lowest(s.drop_last())
    }
}

/// The greatest `high` of a sequence of records that is not empty.
pub open spec fn highest(s: Seq<Record>) -> int
    decreases s.len(),
{
    if s.len() <= 1 {
        s[0].high as int
    } else if s.last().high > highest(s.drop_last()) {
        s.last().high as int
    } else {
        highest(s.drop_last())
    }
}

/// The greatest `volume` of a sequence of records, 0 if there is none.
pub open spec fn peak_volume(s: Seq<Record>) -> int
    decreases s.len(),
{
    if s.len() == 0 {
        0
    } else if s.last().volume > peak_volume(s.drop_last()) {
        s.last().volume as int
    } else {
        peak_volume(s.drop_last())
    }
}

/// The candlestick of record `r` in column `index`.
pub open spec fn candle_of(index: int, r: Record) -> Shape {
    Shape::Candle {
        index: index as usize,
        open: r.open as i128,
        high: r.high as i128,
        low: r.low as i128,
        close: r.close as i128,
        width: CANDLE_WIDTH,
        style: Style { tone: tone_of(r), opacity: 100 },
    }
}

/// The volume bar of record `r` in column `index`.
pub open spec fn bar_of(index: int, r: Record) -> Shape {
    Shape::Bar {
        index: index as usize,
        half_width: BAR_HALF_WIDTH,
        height: r.volume as i128,
        style: Style { tone: tone_of(r), opacity: BAR_OPACITY },
    }
}

/// The crosshair over column `index` of a price panel whose vertical axis
/// spans `y_min` to `y_max`: a line over the full height at the column, a
/// line over the full width at the record's close, and a marker where the
/// two meet.
pub open spec fn crosshair_of(s: Seq<Record>, index: int, y_min: int, y_max: int) -> Seq<Shape> {
    let style = Style { tone: Tone::Overlay, opacity: CROSSHAIR_OPACITY };
    let close = s[index].close as i128;
    seq![
        Shape::Segment {
            x0: index as usize,
            y0: y_min as i128,
            x1: index as usize,
            y1: y_max as i128,
            style,
        },
        Shape::Segment { x0: 0, y0: close, x1: s.len() as usize, y1: close, style },
        Shape::Marker { x: index as usize, y: close, radius: MARKER_RADIUS, style },
    ]
}

/// The frame that stands for "nothing to show": neutral axes and no shape.
pub open spec fn placeholder() -> FrameView {
    FrameView {
        placeholder: true,
        x_max: PLACEHOLDER_EXTENT,
        y_min: 0,
        y_max: PLACEHOLDER_EXTENT as i128,
        shapes: Seq::empty(),
    }
}

/// Whether a panel of this kind has nothing to show for `s`: there is no
/// record, or the vertical axis would have no extent.
pub open spec fn is_degenerate(s: Seq<Record>, kind: ChartKind) -> bool {
    s.len() == 0 || match kind {
        ChartKind::Price => lowest(s) >= highest(s),
        ChartKind::Volume => peak_volume(s) == 0,
    }
}

/// What the panel of this kind shows for the window `s` and the selection.
///
/// The price panel has one candlestick per record, followed by the
/// crosshair if a record of the window is selected. The volume panel has
/// one bar per record and never a crosshair.
pub open spec fn frame_of(s: Seq<Record>, kind: ChartKind, selection: Option<int>) -> FrameView {
    if is_degenerate(s, kind) {
        placeholder()
    } else {
        match kind {
            ChartKind::Price => FrameView {
                placeholder: false,
                x_max: s.len() as usize,
                y_min: lowest(s) as i128,
                y_max: highest(s) as i128,
                shapes: Seq::new(s.len(), |i: int| candle_of(i, s[i])) + (match selection {
                    Some(i) if 0 <= i < s.len() => crosshair_of(s, i, lowest(s), highest(s)),
                    _ => Seq::empty(),
                }),
            },
            ChartKind::Volume => FrameView {
                placeholder: false,
                x_max: s.len() as usize,
                y_min: 0,
                y_max: peak_volume(s) as i128,
                shapes: Seq::new(s.len(), |i: int| bar_of(i, s[i])),
            },
        }
    }
}

/// `lowest` is a low of the sequence, and no low is less.
pub proof fn lemma_lowest_is_least(s: Seq<Record>)
    requires
        s.len() > 0,
    ensures
        forall|i: int| 0 <= i < s.len() ==> lowest(s) <= (#[trigger] s[i]).low,
        exists|i: int| 0 <= i < s.len() && lowest(s) == (#[trigger] s[i]).low,
    decreases s.len(),
{
    if s.len() > 1 {
        let rest = s.drop_last();
        lemma_lowest_is_least(rest);
        let at = choose|i: int| 0 <= i < rest.len() && lowest(rest) == (#[trigger] rest[i]).low;
        assert(rest[at] == s[at]);
        assert forall|i: int| 0 <= i < s.len() implies lowest(s) <= (#[trigger] s[i]).low by {
            if i < rest.len() {
                assert(rest[i] == s[i]);
            }
        }
        if s.last().low < lowest(rest) {
            assert(lowest(s) == s[s.len() - 1].low);
        } else {
            assert(lowest(s) == s[at].low);
        }
    } else {
        assert(lowest(s) == s[0].low);
    }
}

/// `highest` is a high of the sequence, and no high is greater.
pub proof fn lemma_highest_is_greatest(s: Seq<Record>)
    requires
        s.len() > 0,
    ensures
        forall|i: int| 0 <= i < s.len() ==> highest(s) >= (#[trigger] s[i]).high,
        exists|i: int| 0 <= i < s.len() && highest(s) == (#[trigger] s[i]).high,
    decreases s.len(),
{
    if s.len() > 1 {
        let rest = s.drop_last();
        lemma_highest_is_greatest(rest);
        let at = choose|i: int| 0 <= i < rest.len() && highest(rest) == (#[trigger] rest[i]).high;
        assert(rest[at] == s[at]);
        assert forall|i: int| 0 <= i < s.len() implies highest(s) >= (#[trigger] s[i]).high by {
            if i < rest.len() {
                assert(rest[i] == s[i]);
            }
        }
        if s.last().high > highest(rest) {
            assert(highest(s) == s[s.len() - 1].high);
        } else {
            assert(highest(s) == s[at].high);
        }
    } else {
        assert(highest(s) == s[0].high);
    }
}

/// No volume exceeds `peak_volume`, which is a volume of the sequence
/// unless it is 0.
pub proof fn lemma_peak_is_greatest(s: Seq<Record>)
    ensures
        forall|i: int| 0 <= i < s.len() ==> peak_volume(s) >= (#[trigger] s[i]).volume,
        peak_volume(s) == 0 || exists|i: int|
            0 <= i < s.len() && peak_volume(s) == (#[trigger] s[i]).volume,
    decreases s.len(),
{
    if s.len() > 0 {
        let rest = s.drop_last();
        lemma_peak_is_greatest(rest);
        assert forall|i: int| 0 <= i < s.len() implies peak_volume(s) >= (#[trigger] s[i]).volume by {
            if i < rest.len() {
                assert(rest[i] == s[i]);
            }
        }
        if s.last().volume > peak_volume(rest) {
            assert(peak_volume(s) == s[s.len() - 1].volume);
        } else if peak_volume(rest) != 0 {
            let at = choose|i: int|
                0 <= i < rest.len() && peak_volume(rest) == (#[trigger] rest[i]).volume;
            assert(rest[at] == s[at]);
            assert(peak_volume(s) == s[at].volume);
        }
    }
}

/// The shape of column `i` is painted in the up tone exactly when record
/// `i` closed at or above its open, and in the down tone otherwise; a
/// record that closed at its open counts as up.
pub proof fn lemma_tone_follows_direction(
    s: Seq<Record>,
    kind: ChartKind,
    selection: Option<int>,
    i: int,
)
    requires
        0 <= i < s.len(),
        !is_degenerate(s, kind),
    ensures
        ({
            let shape = frame_of(s, kind, selection).shapes[i];
            let style = match shape {
                Shape::Candle { style, .. } => style,
                Shape::Bar { style, .. } => style,
                Shape::Segment { style, .. } => style,
                Shape::Marker { style, .. } => style,
            };
            &&& kind == ChartKind::Price ==> shape == candle_of(i, s[i])
            &&& kind == ChartKind::Volume ==> shape == bar_of(i, s[i])
            &&& s[i].close >= s[i].open ==> style.tone == Tone::Up
            &&& s[i].close < s[i].open ==> style.tone == Tone::Down
        }),
{
}

/// A price frame that shows records has one candlestick for each, and
/// three shapes more, the crosshair, exactly when the selection points
/// into the window.
pub proof fn lemma_crosshair_follows_selection(s: Seq<Record>, selection: Option<int>)
    requires
        !is_degenerate(s, ChartKind::Price),
    ensures
        ({
            let frame = frame_of(s, ChartKind::Price, selection);
            if selection matches Some(i) && 0 <= i < s.len() {
                &&& frame.shapes.len() == s.len() + 3
                &&& frame.shapes.subrange(s.len() as int, s.len() as int + 3) == crosshair_of(
                    s,
                    selection->0,
                    lowest(s),
                    highest(s),
                )
            } else {
                frame.shapes.len() == s.len()
            }
        }),
{
    let frame = frame_of(s, ChartKind::Price, selection);
    if selection matches Some(i) && 0 <= i < s.len() {
        assert(frame.shapes.subrange(s.len() as int, s.len() as int + 3) =~= crosshair_of(
            s,
            selection->0,
            lowest(s),
            highest(s),
        ));
    }
}

/// The volume panel shows the same whatever is selected.
pub proof fn lemma_volume_ignores_selection(s: Seq<Record>, selection: Option<int>)
    ensures
        frame_of(s, ChartKind::Volume, selection) == frame_of(s, ChartKind::Volume, None),
{
}

/// The least low and the greatest high of the records, which must not be
/// empty.
fn price_range(records: &Vec<Record>) -> (range: (i64, i64))
    requires
        records.len() > 0,
    ensures
        range.0 == lowest(records@),
        range.1 == highest(records@),
{
    let mut low = records[0].low;
    let mut high = records[0].high;
    let mut i: usize = 1;
    assert(records@.take(1).len() == 1);
    while i < records.len()
        invariant
            1 <= i <= records.len(),
            low == lowest(records@.take(i as int)),
            high == highest(records@.take(i as int)),
        decreases records.len() - i,
    {
        let r = records[i];
        proof {
            assert(records@.take(i + 1).drop_last() =~= records@.take(i as int));
        }
        if r.low < low {
            low = r.low;
        }
        if r.high > high {
            high = r.high;
        }
        i = i + 1;
    }
    assert(records@.take(i as int) =~= records@);
    (low, high)
}

/// The greatest volume of the records, 0 if there is none.
fn volume_peak(records: &Vec<Record>) -> (peak: u64)
    ensures
        peak == peak_volume(records@),
{
    let mut peak: u64 = 0;
    let mut i: usize = 0;
    while i < records.len()
        invariant
            i <= records.len(),
            peak == peak_volume(records@.take(i as int)),
        decreases records.len() - i,
    {
        let r = records[i];
        proof {
            assert(records@.take(i + 1).drop_last() =~= records@.take(i as int));
        }
        if r.volume > peak {
            peak = r.volume;
        }
        i = i + 1;
    }
    assert(records@.take(i as int) =~= records@);
    peak
}

/// The tone of a record.
fn tone(r: &Record) -> (tone: Tone)
    ensures
        tone == tone_of(*r),
{
    if r.close >= r.open {
        Tone::Up
    } else {
        Tone::Down
    }
}

/// The placeholder.
fn empty_frame() -> (frame: Frame)
    ensures
        frame@ == placeholder(),
{
    Frame {
        placeholder: true,
        x_max: PLACEHOLDER_EXTENT,
        y_min: 0,
        y_max: PLACEHOLDER_EXTENT as i128,
        shapes: Vec::new(),
    }
}

/// Describes the panel of the given kind for `window`, with the crosshair
/// over the selected record if the panel shows prices.
///
/// A window without records, or one whose values leave the vertical axis
/// without extent, gives the placeholder. A selection that does not point
/// into the window is passed over.
pub fn render(window: &DisplayedWindow, kind: ChartKind, selection: Option<usize>) -> (frame: Frame)
    ensures
        frame@ == frame_of(window@, kind, index_view(selection)),
{
    let records = window.records();
    let count = records.len();
    if count == 0 {
        return empty_frame();
    }
    match kind {
        ChartKind::Price => {
            let (low, high) = price_range(records);
            if low >= high {
                return empty_frame();
            }
            let mut shapes: Vec<Shape> = Vec::new();
            let mut i: usize = 0;
            while i < count
                invariant
                    i <= count,
                    count == records.len(),
                    shapes@ == Seq::new(i as nat, |k: int| candle_of(k, records@[k])),
                decreases count - i,
            {
                let r = &records[i];
                shapes.push(
                    Shape::Candle {
                        index: i,
                        open: r.open as i128,
                        high: r.high as i128,
                        low: r.low as i128,
                        close: r.close as i128,
                        width: CANDLE_WIDTH,
                        style: Style { tone: tone(r), opacity: 100 },
                    },
                );
                i = i + 1;
            }
            let ghost candles = shapes@;
            match selection {
                Some(at) => {
                    if at < count {
                        let style = Style { tone: Tone::Overlay, opacity: CROSSHAIR_OPACITY };
                        let close = records[at].close as i128;
                        shapes.push(
                            Shape::Segment {
                                x0: at,
                                y0: low as i128,
                                x1: at,
                                y1: high as i128,
                                style,
                            },
                        );
                        shapes.push(Shape::Segment { x0: 0, y0: close, x1: count, y1: close, style });
                        shapes.push(Shape::Marker { x: at, y: close, radius: MARKER_RADIUS, style });
                        assert(shapes@ =~= candles + crosshair_of(
                            records@,
                            at as int,
                            low as int,
                            high as int,
                        ));
                    } else {
                        assert(shapes@ =~= candles + Seq::<Shape>::empty());
                    }
                },
                None => {
                    assert(shapes@ =~= candles + Seq::<Shape>::empty());
                },
            }
            Frame { placeholder: false, x_max: count, y_min: low as i128, y_max: high as i128, shapes }
        },
        ChartKind::Volume => {
            let peak = volume_peak(records);
            if peak == 0 {
                return empty_frame();
            }
            let mut shapes: Vec<Shape> = Vec::new();
            let mut i: usize = 0;
            while i < count
                invariant
                    i <= count,
                    count == records.len(),
                    shapes@ == Seq::new(i as nat, |k: int| bar_of(k, records@[k])),
                decreases count - i,
            {
                let r = &records[i];
                shapes.push(
                    Shape::Bar {
                        index: i,
                        half_width: BAR_HALF_WIDTH,
                        height: r.volume as i128,
                        style: Style { tone: tone(r), opacity: BAR_OPACITY },
                    },
                );
                i = i + 1;
            }
            Frame { placeholder: false, x_max: count, y_min: 0, y_max: peak as i128, shapes }
        },
    }
}

} // verus!
