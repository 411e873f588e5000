//! Settings of the viewer.

use vstd::prelude::*;

verus! {

/// The recognised options.
#[derive(Clone, Copy, Debug, PartialEq, Eq)]
pub struct Config {
    /// Span of the displayed window, in seconds.
    pub window_seconds: u64,
    /// Distance the pointer has to travel before it is looked at again,
    /// in device units.
    pub pointer_threshold: u32,
    /// Period of the crosshair tick, in milliseconds.
    pub tick_millis: u64,
    /// Width left of the plot region that is kept for axis labels.
    pub margin_left: u16,
    /// Width right of the plot region that is kept for axis labels.
    pub margin_right: u16,
    /// Share of the height that the price panel takes.
    pub price_share: u16,
    /// Share of the height that the volume panel takes.
    pub volume_share: u16,
}

impl Config {
    /// 180 days of data, a threshold of 5 units, a tick every 50 ms, margins
    /// of 60 units and panels in the ratio 8 : 2.
    pub open spec fn standard() -> Config {
        Config {
            window_seconds: 15_552_000,
            pointer_threshold: 5,
            tick_millis: 50,
            margin_left: 60,
            margin_right: 60,
            price_share: 8,
            volume_share: 2,
        }
    }

    /// Left edge of the plot region.
    pub open spec fn plot_left(self) -> int {
        self.margin_left as int
    }

    /// Right edge of the plot region on a surface of the given width. An
    /// edge that would lie left of every position is put at the leftmost
    /// position.
    pub open spec fn plot_right(self, surface_width: int) -> int {
        if surface_width - self.margin_right < i32::MIN {
            i32::MIN as int
        } else {
            surface_width - self.margin_right
        }
    }

    /// The plot region `(left, right)` on a surface of the given width.
    pub fn plot_region(&self, surface_width: i32) -> (region: (i32, i32))
        ensures
            region.0 == self.plot_left(),
            region.1 == self.plot_right(surface_width as int),
    {
        let right: i64 = surface_width as i64 - self.margin_right as i64;
        if right < i32::MIN as i64 {
            (self.margin_left as i32, i32::MIN)
        } else {
            (self.margin_left as i32, right as i32)
        }
    }
}

impl Default for Config {
    fn default() -> (config: Config)
        ensures
            config == Config::standard(),
    {
        Config {
            window_seconds: 15_552_000,
            pointer_threshold: 5,
            tick_millis: 50,
            margin_left: 60,
            margin_right: 60,
            price_share: 8,
            volume_share: 2,
        }
    }
}

} // verus!
