//! The interaction controller: the one owner of the viewer's state, which
//! events drive through the transition function.

use crate::config::Config;
use crate::error::LoadError;
use crate::machine::{step, ControllerView, EffectView, EventView};
use crate::mapper::{moved_beyond, pixel_to_index, Point};
use crate::render::{frame_of, index_view, render, ChartKind, Frame};
use crate::series::{Record, Series};
use crate::status::{status_line, status_text};
use crate::ticker::to_uppercase;
use crate::window::{filter_window, window_of, DisplayedWindow};
use vstd::prelude::*;
use vstd::string::*;

verus! {

/// Where the controller stands with respect to loading.
#[derive(Clone, Copy, Debug, PartialEq, Eq, Structural)]
pub enum Phase {
    /// Nothing has been asked for yet.
    Idle,
    /// A load is in flight.
    Loading,
    /// The last load succeeded and its data is on display.
    Ready,
    /// The last load failed.
    Failed,
}

/// What can happen to the viewer.
#[derive(Debug)]
pub enum Event {
    /// The text of the ticker field changed.
    TickerChanged(String),
    /// The user asked for the ticker in the field to be loaded.
    SubmitLoad,
    /// The load with this generation tag delivered a series.
    LoadSucceeded { generation: u64, series: Series },
    /// The load with this generation tag failed.
    LoadFailed { generation: u64, reason: LoadError },
    /// The pointer is at this position. A position with a negative
    /// coordinate stands for a pointer that has left the surface. Positions
    /// on the surface are looked at only while data is on display.
    PointerMoved(Point),
    /// The pointer left the surface.
    PointerLeft,
    /// The periodic tick.
    Tick,
    /// The user asked for the viewer to close.
    CloseRequested,
    /// The user asked to enter or leave full screen.
    FullscreenToggled,
}

/// What the surroundings are asked to do after an event.
#[derive(Debug, PartialEq, Eq)]
pub enum Effect {
    /// Nothing.
    Nothing,
    /// Load the data of `ticker` and report the outcome under `generation`.
    StartLoad { ticker: String, generation: u64 },
    /// Close the viewer.
    Exit,
    /// Enter full screen, or leave it.
    SetFullscreen(bool),
}

impl View for Event {
    type V = EventView;

    open spec fn view(&self) -> EventView {
        match *self {
            Event::TickerChanged(text) => EventView::TickerChanged(text@),
            Event::SubmitLoad => EventView::SubmitLoad,
            Event::LoadSucceeded { generation, series } => EventView::LoadSucceeded {
                generation,
                series: series@,
            },
            Event::LoadFailed { generation, reason } => EventView::LoadFailed { generation, reason },
            Event::PointerMoved(position) => EventView::PointerMoved(position),
            Event::PointerLeft => EventView::PointerLeft,
            Event::Tick => EventView::Tick,
            Event::CloseRequested => EventView::CloseRequested,
            Event::FullscreenToggled => EventView::FullscreenToggled,
        }
    }
}

impl View for Effect {
    type V = EffectView;

    open spec fn view(&self) -> EffectView {
        match *self {
            Effect::Nothing => EffectView::Nothing,
            Effect::StartLoad { ticker, generation } => EffectView::StartLoad {
                ticker: ticker@,
                generation,
            },
            Effect::Exit => EffectView::Exit,
            Effect::SetFullscreen(on) => EffectView::SetFullscreen(on),
        }
    }
}

/// A series together with the window that is derived from it.
struct Dataset {
    series: Series,
    window: DisplayedWindow,
    as_of: i64,
    span: u64,
}

impl Dataset {
    /// The window is the one derived from the series.
    #[verifier::type_invariant]
    spec fn derived(&self) -> bool {
        self.window@ == window_of(self.series@, self.as_of as int, self.span as int)
    }

    /// Takes the window of `series` as of `as_of` over `span` seconds.
    fn derive(series: Series, as_of: i64, span: u64) -> (data: Dataset)
        ensures
            data.series@ == series@,
            data.window@ == window_of(series@, as_of as int, span as int),
            data.as_of == as_of,
            data.span == span,
    {
        let window = filter_window(&series, as_of, span);
        Dataset { series, window, as_of, span }
    }

    /// The data set without records.
    fn cleared(as_of: i64, span: u64) -> (data: Dataset)
        ensures
            data.series@ == Seq::<Record>::empty(),
            data.window@ == Seq::<Record>::empty(),
            data.as_of == as_of,
            data.span == span,
    {
        Dataset::derive(Series::empty(), as_of, span)
    }
}

/// The interaction controller.
pub struct Controller {
    config: Config,
    surface_width: i32,
    ticker_input: String,
    requested: String,
    phase: Phase,
    generation: u64,
    data: Dataset,
    selection: Option<usize>,
    pointer: Option<Point>,
    fullscreen: bool,
    error: Option<LoadError>,
}

impl View for Controller {
    type V = ControllerView;

    closed spec fn view(&self) -> ControllerView {
        ControllerView {
            config: self.config,
            surface_width: self.surface_width,
            ticker_input: self.ticker_input@,
            requested: self.requested@,
            phase: self.phase,
            generation: self.generation,
            series: self.data.series@,
            window: self.data.window@,
            as_of: self.data.as_of,
            selection: index_view(self.selection),
            pointer: self.pointer,
            fullscreen: self.fullscreen,
            error: self.error,
        }
    }
}

impl Controller {
    /// The window spans what the settings say, and a selection points into
    /// it.
    #[verifier::type_invariant]
    spec fn consistent(&self) -> bool {
        &&& self.data.span == self.config.window_seconds
        &&& self.data.derived()
        &&& self.selection matches Some(i) ==> i < self.data.window@.len()
    }

    /// A controller in its initial state.
    pub fn new(config: Config, ticker: String, surface_width: i32) -> (controller: Controller)
        ensures
            controller@ == ControllerView::initial(config, ticker@, surface_width),
            controller@.wf(),
    {
        let data = Dataset::cleared(0, config.window_seconds);
        proof {
            use_type_invariant(&data);
        }
        Controller {
            config,
            surface_width,
            ticker_input: ticker,
            requested: String::new(),
            phase: Phase::Idle,
            generation: 0,
            data,
            selection: None,
            pointer: None,
            fullscreen: false,
            error: None,
        }
    }

    /// Applies `event`, which happens at the instant `now`, and says what
    /// is to be done about it.
    pub fn handle(&mut self, event: Event, now: i64) -> (effect: Effect)
        ensures
            (final(self)@, effect@) == step(old(self)@, event@, now),
            final(self)@.wf(),
    {
        proof {
            use_type_invariant(&*self);
            use_type_invariant(&self.data);
        }
        match event {
            Event::TickerChanged(text) => {
                self.ticker_input = text;
                Effect::Nothing
            },
            Event::SubmitLoad => {
                let ticker = to_uppercase(self.ticker_input.as_str());
                let generation = self.generation.wrapping_add(1);
                self.requested = ticker.clone();
                self.generation = generation;
                self.phase = Phase::Loading;
                Effect::StartLoad { ticker, generation }
            },
            Event::LoadSucceeded { generation, series } => {
                if self.phase == Phase::Loading && self.generation == generation {
                    self.selection = None;
                    let data = Dataset::derive(series, now, self.config.window_seconds);
                    proof {
                        use_type_invariant(&data);
                    }
                    self.data = data;
                    self.phase = Phase::Ready;
                    self.error = None;
                }
                Effect::Nothing
            },
            Event::LoadFailed { generation, reason } => {
                if self.phase == Phase::Loading && self.generation == generation {
                    self.selection = None;
                    let data = Dataset::cleared(self.data.as_of, self.config.window_seconds);
                    proof {
                        use_type_invariant(&data);
                    }
                    self.data = data;
                    self.phase = Phase::Failed;
                    self.error = Some(reason);
                }
                Effect::Nothing
            },
            Event::PointerMoved(position) => {
                if position.x < 0 || position.y < 0 {
                    self.selection = None;
                    self.pointer = None;
                } else if self.phase == Phase::Ready {
                    let moved = match self.pointer {
                        Some(last) => moved_beyond(last, position, self.config.pointer_threshold),
                        None => true,
                    };
                    if moved {
                        let (left, right) = self.config.plot_region(self.surface_width);
                        self.pointer = Some(position);
                        self.selection = pixel_to_index(
                            position.x,
                            left,
                            right,
                            self.data.window.len(),
                        );
                    }
                }
                Effect::Nothing
            },
            Event::PointerLeft => {
                self.selection = None;
                self.pointer = None;
                Effect::Nothing
            },
            Event::Tick => Effect::Nothing,
            Event::CloseRequested => Effect::Exit,
            Event::FullscreenToggled => {
                let on = !self.fullscreen;
                self.fullscreen = on;
                Effect::SetFullscreen(on)
            },
        }
    }

    /// Applies `event` at the instant that the system clock shows.
    pub fn update(&mut self, event: Event) -> (effect: Effect)
        ensures
            exists|now: i64| (final(self)@, effect@) == #[trigger] step(old(self)@, event@, now),
            final(self)@.wf(),
    {
        let now = current_instant();
        self.handle(event, now)
    }

    /// The price panel: the window with the crosshair over the selection.
    pub fn price_frame(&self) -> (frame: Frame)
        ensures
            frame@ == frame_of(self@.window, ChartKind::Price, self@.selection),
    {
        render(&self.data.window, ChartKind::Price, self.selection)
    }

    /// The volume panel, which shows the same window and no crosshair.
    pub fn volume_frame(&self) -> (frame: Frame)
        ensures
            frame@ == frame_of(self@.window, ChartKind::Volume, None),
    {
        render(&self.data.window, ChartKind::Volume, None)
    }

    /// The status line: the record under the pointer in words.
    pub fn status_line(&self) -> (line: String)
        ensures
            line@ == status_text(self@.window, self@.selection),
    {
        status_line(&self.data.window, self.selection)
    }

    /// Where the controller stands with respect to loading.
    pub fn phase(&self) -> (phase: Phase)
        ensures
            phase == self@.phase,
    {
        self.phase
    }

    /// Index into the window of the record under the pointer.
    pub fn selection(&self) -> (selection: Option<usize>)
        ensures
            self@.selection == index_view(selection),
            selection matches Some(i) ==> i < self@.window.len(),
    {
        proof {
            use_type_invariant(self);
        }
        self.selection
    }

    /// The record under the pointer.
    pub fn selected_record(&self) -> (record: Option<Record>)
        ensures
            record == match self@.selection {
                Some(i) => Some(self@.window[i]),
                None => None,
            },
    {
        proof {
            use_type_invariant(self);
        }
        match self.selection {
            Some(i) => Some(self.data.window.records()[i]),
            None => None,
        }
    }

    /// The part of the series that is on display.
    pub fn window(&self) -> (window: &DisplayedWindow)
        ensures
            window@ == self@.window,
            self@.wf(),
    {
        proof {
            use_type_invariant(self);
            use_type_invariant(&self.data);
        }
        &self.data.window
    }

    /// The loaded series.
    pub fn series(&self) -> (series: &Series)
        ensures
            series@ == self@.series,
    {
        &self.data.series
    }

    /// Text of the ticker field.
    pub fn ticker_input(&self) -> (text: &str)
        ensures
            text@ == self@.ticker_input,
    {
        self.ticker_input.as_str()
    }

    /// Ticker of the latest load that was asked for.
    pub fn requested(&self) -> (ticker: &str)
        ensures
            ticker@ == self@.requested,
    {
        self.requested.as_str()
    }

    /// Tag of the latest load that was asked for.
    pub fn generation(&self) -> (generation: u64)
        ensures
            generation == self@.generation,
    {
        self.generation
    }

    /// Why the last load failed.
    pub fn error(&self) -> (error: Option<LoadError>)
        ensures
            error == self@.error,
    {
        self.error
    }

    /// The message that tells the user why the last load failed.
    pub fn error_message(&self) -> (message: Option<String>)
        ensures
            match message {
                Some(text) => self@.error matches Some(error) && text@ == error.text(
                    self@.requested,
                ),
                None => self@.error is None,
            },
    {
        match self.error {
            Some(error) => Some(error.message(self.requested.as_str())),
            None => None,
        }
    }

    /// Last pointer position that was looked at.
    pub fn pointer(&self) -> (pointer: Option<Point>)
        ensures
            pointer == self@.pointer,
    {
        self.pointer
    }

    /// Whether the viewer is in full screen.
    pub fn is_fullscreen(&self) -> (on: bool)
        ensures
            on == self@.fullscreen,
    {
        self.fullscreen
    }

    /// The settings.
    pub fn config(&self) -> (config: Config)
        ensures
            config == self@.config,
    {
        self.config
    }

    /// Width of the render surface.
    pub fn surface_width(&self) -> (width: i32)
        ensures
            width == self@.surface_width,
    {
        self.surface_width
    }

    /// Records that the render surface is `width` units wide.
    pub fn resize(&mut self, width: i32)
        ensures
            final(self)@ == (ControllerView { surface_width: width, ..old(self)@ }),
            final(self)@.wf(),
    {
        proof {
            use_type_invariant(&*self);
            use_type_invariant(&self.data);
        }
        self.surface_width = width;
    }
}

/// Reads the system clock through `chrono::Utc::now` and gives the whole
/// seconds since the Unix epoch. Nothing is claimed of the value. The call
/// relies on the clock not being set before the epoch.
#[verifier::external_body]
fn current_instant() -> i64 {
    chrono::Utc::now().timestamp()
}

} // verus!