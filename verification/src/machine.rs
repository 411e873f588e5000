//! The transition function of the interaction controller, and what holds
//! of every run of it.
//!
//! The controller is idle until a load is asked for, loading until the
//! outcome of the latest load arrives, and then ready or failed until the
//! next load is asked for. Each load carries a generation tag, so that the
//! outcome of a load that a later one has superseded is told apart and
//! dropped.

use crate::config::Config;
use crate::controller::Phase;
use crate::error::LoadError;
use crate::mapper::{column_at, distance_squared, lemma_column_in_range, Point};
use crate::series::Record;
use crate::ticker::uppercased;
use crate::window::window_of;
use vstd::prelude::*;

verus! {

/// An event as the transition function sees it.
pub enum EventView {
    TickerChanged(Seq<char>),
    SubmitLoad,
    LoadSucceeded { generation: u64, series: Seq<Record> },
    LoadFailed { generation: u64, reason: LoadError },
    PointerMoved(Point),
    PointerLeft,
    Tick,
    CloseRequested,
    FullscreenToggled,
}

/// An effect as the transition function gives it.
pub enum EffectView {
    Nothing,
    StartLoad { ticker: Seq<char>, generation: u64 },
    Exit,
    SetFullscreen(bool),
}

/// The state of the viewer.
pub struct ControllerView {
    pub config: Config,
    /// Width of the render surface.
    pub surface_width: i32,
    /// Text of the ticker field.
    pub ticker_input: Seq<char>,
    /// Ticker of the latest load that was asked for.
    pub requested: Seq<char>,
    pub phase: Phase,
    /// Tag of the latest load that was asked for.
    pub generation: u64,
    /// The loaded series.
    pub series: Seq<Record>,
    /// The part of the series that is on display.
    pub window: Seq<Record>,
    /// The instant as of which the window was taken.
    pub as_of: i64,
    /// Index into the window of the record under the pointer.
    pub selection: Option<int>,
    /// Last pointer position that was looked at.
    pub pointer: Option<Point>,
    pub fullscreen: bool,
    /// Why the last load failed.
    pub error: Option<LoadError>,
}

/// The tag that follows `generation`. Tags wrap around.
pub open spec fn next_generation(generation: u64) -> u64 {
    if generation == u64::MAX {
        0
    } else {
        (generation + 1) as u64
    }
}

impl ControllerView {
    /// The state before anything has happened.
    pub open spec fn initial(config: Config, ticker: Seq<char>, surface_width: i32) -> Self {
        ControllerView {
            config,
            surface_width,
            ticker_input: ticker,
            requested: Seq::empty(),
            phase: Phase::Idle,
            generation: 0,
            series: Seq::empty(),
            window: Seq::empty(),
            as_of: 0,
            selection: None,
            pointer: None,
            fullscreen: false,
            error: None,
        }
    }

    /// What holds of every state: the window is derived from the series,
    /// and a selection points into the window.
    pub open spec fn wf(self) -> bool {
        &&& self.window == window_of(
            self.series,
            self.as_of as int,
            self.config.window_seconds as int,
        )
        &&& self.selection matches Some(i) ==> 0 <= i < self.window.len()
    }

    /// The state after the pointer has left the surface.
    pub open spec fn without_pointer(self) -> Self {
        ControllerView { pointer: None, selection: None, ..self }
    }

    /// Whether a pointer at `position` is too close to the last position
    /// that was looked at to be looked at again.
    pub open spec fn holds_back(self, position: Point) -> bool {
        self.pointer matches Some(last) && distance_squared(last, position)
            <= self.config.pointer_threshold * self.config.pointer_threshold
    }

    /// The state after the pointer has been looked at in `position`.
    pub open spec fn with_pointer(self, position: Point) -> Self {
        ControllerView {
            pointer: Some(position),
            selection: column_at(
                position.x as int,
                self.config.plot_left(),
                self.config.plot_right(self.surface_width as int),
                self.window.len(),
            ),
            ..self
        }
    }

    /// The state after a load has delivered `series` at the instant `now`.
    pub open spec fn with_series(self, series: Seq<Record>, now: i64) -> Self {
        ControllerView {
            phase: Phase::Ready,
            series,
            window: window_of(series, now as int, self.config.window_seconds as int),
            as_of: now,
            selection: None,
            error: None,
            ..self
        }
    }

    /// The state after a load has failed.
    pub open spec fn with_failure(self, reason: LoadError) -> Self {
        ControllerView {
            phase: Phase::Failed,
            series: Seq::empty(),
            window: Seq::empty(),
            selection: None,
            error: Some(reason),
            ..self
        }
    }

    /// Whether the outcome of the load tagged `generation` is awaited.
    pub open spec fn awaits(self, generation: u64) -> bool {
        self.phase == Phase::Loading && self.generation == generation
    }
}

/// The transition function: the state and the effect that follow from
/// `state` when `event` happens at the instant `now`.
pub open spec fn step(state: ControllerView, event: EventView, now: i64) -> (
    ControllerView,
    EffectView,
) {
    match event {
        EventView::TickerChanged(text) => (
            ControllerView { ticker_input: text, ..state },
            EffectView::Nothing,
        ),
        EventView::SubmitLoad => {
            let ticker = uppercased(state.ticker_input);
            let generation = next_generation(state.generation);
            (
                ControllerView { phase: Phase::Loading, requested: ticker, generation, ..state },
                EffectView::StartLoad { ticker, generation },
            )
        },
        EventView::LoadSucceeded { generation, series } => if state.awaits(generation) {
            (state.with_series(series, now), EffectView::Nothing)
        } else {
            (state, EffectView::Nothing)
        },
        EventView::LoadFailed { generation, reason } => if state.awaits(generation) {
            (state.with_failure(reason), EffectView::Nothing)
        } else {
            (state, EffectView::Nothing)
        },
        EventView::PointerMoved(position) => if position.x < 0 || position.y < 0 {
            (state.without_pointer(), EffectView::Nothing)
        } else if state.phase != Phase::Ready || state.holds_back(position) {
            (state, EffectView::Nothing)
        } else {
            (state.with_pointer(position), EffectView::Nothing)
        },
        EventView::PointerLeft => (state.without_pointer(), EffectView::Nothing),
        EventView::Tick => (state, EffectView::Nothing),
        EventView::CloseRequested => (state, EffectView::Exit),
        EventView::FullscreenToggled => (
            ControllerView { fullscreen: !state.fullscreen, ..state },
            EffectView::SetFullscreen(!state.fullscreen),
        ),
    }
}

/// Every transition keeps the window derived from the series and the
/// selection inside the window.
pub proof fn lemma_step_keeps_wf(state: ControllerView, event: EventView, now: i64)
    requires
        state.wf(),
    ensures
        step(state, event, now).0.wf(),
{
    let after = step(state, event, now).0;
    match event {
        EventView::LoadFailed { generation, reason } => {
            reveal(Seq::filter);
            assert(window_of(
                Seq::<Record>::empty(),
                state.as_of as int,
                state.config.window_seconds as int,
            ) =~= Seq::<Record>::empty());
        },
        EventView::PointerMoved(position) => {
            lemma_column_in_range(
                position.x as int,
                state.config.plot_left(),
                state.config.plot_right(state.surface_width as int),
                state.window.len(),
            );
        },
        _ => {},
    }
}

/// A failed load leaves nothing on display: the series and the window are
/// empty, nothing is selected, and the reason is kept.
pub proof fn lemma_failure_clears(
    state: ControllerView,
    generation: u64,
    reason: LoadError,
    now: i64,
)
    requires
        state.awaits(generation),
    ensures
        ({
            let after = step(state, EventView::LoadFailed { generation, reason }, now).0;
            &&& after.phase == Phase::Failed
            &&& after.series.len() == 0
            &&& after.window.len() == 0
            &&& after.selection is None
            &&& after.error == Some(reason)
        }),
{
}

/// A successful load replaces what was loaded before: the series is the
/// one delivered, the window is derived from it alone, and nothing is
/// selected, whatever the state held.
pub proof fn lemma_success_replaces(
    state: ControllerView,
    generation: u64,
    series: Seq<Record>,
    now: i64,
)
    requires
        state.awaits(generation),
    ensures
        ({
            let after = step(state, EventView::LoadSucceeded { generation, series }, now).0;
            &&& after.phase == Phase::Ready
            &&& after.series == series
            &&& after.window == window_of(series, now as int, state.config.window_seconds as int)
            &&& after.selection is None
            &&& after.error is None
        }),
{
}

/// A load that fails for want of data and a later load of another ticker
/// that succeeds: after the first nothing is on display and the reason is
/// kept, and after the second the state holds what the second delivered and
/// nothing of what went before.
pub proof fn lemma_failed_then_loaded(
    state: ControllerView,
    other: Seq<char>,
    series: Seq<Record>,
    now: i64,
    later: i64,
)
    ensures
        ({
            let asked = step(state, EventView::SubmitLoad, now).0;
            let failed = step(
                asked,
                EventView::LoadFailed {
                    generation: asked.generation,
                    reason: LoadError::ResourceNotFound,
                },
                now,
            ).0;
            let typed = step(failed, EventView::TickerChanged(other), now).0;
            let again = step(typed, EventView::SubmitLoad, later).0;
            let loaded = step(
                again,
                EventView::LoadSucceeded { generation: again.generation, series },
                later,
            ).0;
            &&& failed.phase == Phase::Failed
            &&& failed.error == Some(LoadError::ResourceNotFound)
            &&& failed.series.len() == 0
            &&& failed.window.len() == 0
            &&& failed.selection is None
            &&& loaded.phase == Phase::Ready
            &&& loaded.requested == uppercased(other)
            &&& loaded.series == series
            &&& loaded.window == window_of(series, later as int, state.config.window_seconds as int)
            &&& loaded.selection is None
            &&& loaded.error is None
        }),
{
}

/// The outcome of a load that is not awaited, because no load is in flight
/// or a later one was asked for, changes nothing.
pub proof fn lemma_stale_outcome_ignored(state: ControllerView, event: EventView, now: i64)
    requires
        match event {
            EventView::LoadSucceeded { generation, .. } => !state.awaits(generation),
            EventView::LoadFailed { generation, .. } => !state.awaits(generation),
            _ => false,
        },
    ensures
        step(state, event, now) == (state, EffectView::Nothing),
{
}

/// Whenever a transition changes the window, it clears the selection.
pub proof fn lemma_new_window_clears_selection(state: ControllerView, event: EventView, now: i64)
    ensures
        step(state, event, now).0.window != state.window ==> step(
            state,
            event,
            now,
        ).0.selection is None,
{
}

/// Only a submitted request starts a load, and it puts the controller in
/// the loading phase.
pub proof fn lemma_loads_are_asked_for(state: ControllerView, event: EventView, now: i64)
    ensures
        step(state, event, now).1 is StartLoad <==> event is SubmitLoad,
        event is SubmitLoad ==> step(state, event, now).0.phase == Phase::Loading,
{
}

/// The tick changes nothing and asks for nothing.
pub proof fn lemma_tick_changes_nothing(state: ControllerView, now: i64)
    ensures
        step(state, EventView::Tick, now) == (state, EffectView::Nothing),
{
}

/// The phase changes only from any phase to loading, when a load is asked
/// for, and from loading to ready or to failed, when the outcome that is
/// awaited arrives.
pub proof fn lemma_phases_follow_loads(state: ControllerView, event: EventView, now: i64)
    ensures
        ({
            let after = step(state, event, now).0;
            after.phase != state.phase ==> {
                ||| event is SubmitLoad && after.phase == Phase::Loading
                ||| state.phase == Phase::Loading && event is LoadSucceeded && after.phase
                    == Phase::Ready
                ||| state.phase == Phase::Loading && event is LoadFailed && after.phase
                    == Phase::Failed
            }
        }),
        step(state, event, now).0.phase != Phase::Idle || state.phase == Phase::Idle,
{
}

/// A pointer that leaves the surface, as an event of its own or as a
/// position with a negative coordinate, clears the pointer position and
/// the selection, in every phase.
pub proof fn lemma_leaving_clears(state: ControllerView, event: EventView, now: i64)
    requires
        event is PointerLeft || (event matches EventView::PointerMoved(position) && (position.x
            < 0 || position.y < 0)),
    ensures
        step(state, event, now).0.pointer is None,
        step(state, event, now).0.selection is None,
        step(state, event, now).0 == state.without_pointer(),
{
}

/// Outside the ready phase a pointer on the surface changes nothing.
pub proof fn lemma_pointer_waits_for_data(state: ControllerView, position: Point, now: i64)
    requires
        state.phase != Phase::Ready,
        position.x >= 0,
        position.y >= 0,
    ensures
        step(state, EventView::PointerMoved(position), now) == (state, EffectView::Nothing),
{
}

/// A pointer outside the plot region selects nothing, once it is looked at.
pub proof fn lemma_pointer_outside_selects_nothing(
    state: ControllerView,
    position: Point,
    now: i64,
)
    requires
        state.phase == Phase::Ready,
        !state.holds_back(position),
        position.x < state.config.plot_left() || position.x > state.config.plot_right(
            state.surface_width as int,
        ),
    ensures
        step(state, EventView::PointerMoved(position), now).0.selection is None,
{
}

/// A pointer that has moved no further than the threshold changes nothing.
pub proof fn lemma_small_moves_change_nothing(state: ControllerView, position: Point, now: i64)
    requires
        position.x >= 0,
        position.y >= 0,
        state.holds_back(position),
    ensures
        step(state, EventView::PointerMoved(position), now) == (state, EffectView::Nothing),
{
}

} // verus!
